//! The event router: the one place where commands, server reports and
//! topology updates change the state, one event at a time.

use crate::balance::lemma_step;
use crate::command::{text_of, Command, CommandModel};
use crate::lease::{Acquired, LeaseManager};
use crate::model::{
    display, initial, inv, serve, serve_all, step, targets, ActionModel, EventModel, Request,
    RouterModel,
};
use crate::names::{copy_names, names};
use crate::session::{ContentRef, SessionState};
use crate::snapshot::ConnectorSnapshot;
use vstd::prelude::*;

verus! {

/// What the router asks its surroundings to do.
#[derive(Debug, PartialEq, Eq)]
pub enum Action {
    /// Show `address` on `connector`.
    SetWebview { connector: String, address: String },
    /// Start a local server for `path`, then report how it went.
    StartServer { path: String },
    /// Shut down the local server of `path`.
    StopServer { path: String },
}

impl View for Action {
    type V = ActionModel;

    open spec fn view(&self) -> ActionModel {
        match self {
            Action::SetWebview { connector, address } => ActionModel::SetWebview {
                connector: connector@,
                address: address@,
            },
            Action::StartServer { path } => ActionModel::StartServer { path: path@ },
            Action::StopServer { path } => ActionModel::StopServer { path: path@ },
        }
    }
}

impl Clone for Action {
    fn clone(&self) -> (copy: Action)
        ensures
            copy@ == self@,
    {
        match self {
            Action::SetWebview { connector, address } => Action::SetWebview {
                connector: connector.clone(),
                address: address.clone(),
            },
            Action::StartServer { path } => Action::StartServer { path: path.clone() },
            Action::StopServer { path } => Action::StopServer { path: path.clone() },
        }
    }
}

/// A list of actions as contracts see it.
pub open spec fn actions_of(list: Seq<Action>) -> Seq<ActionModel> {
    list.map_values(|a: Action| a@)
}

/// What the router hears of.
#[derive(Debug, PartialEq, Eq)]
pub enum Event {
    /// A caller's command arrived.
    Command(Command),
    /// The server of `path` accepts requests at `address`.
    ServerStarted { path: String, address: String },
    /// The server of `path` could not be started.
    ServerFailed { path: String },
    /// The rendering front end reported its connectors.
    Topology(Vec<String>),
}

impl View for Event {
    type V = EventModel;

    open spec fn view(&self) -> EventModel {
        match self {
            Event::Command(command) => EventModel::Command(command@),
            Event::ServerStarted { path, address } => EventModel::ServerStarted {
                path: path@,
                address: address@,
            },
            Event::ServerFailed { path } => EventModel::ServerFailed { path: path@ },
            Event::Topology(reported) => EventModel::Topology(names(reported@)),
        }
    }
}

impl Clone for Event {
    fn clone(&self) -> (copy: Event)
        ensures
            copy@ == self@,
    {
        match self {
            Event::Command(command) => Event::Command(command.clone()),
            Event::ServerStarted { path, address } => Event::ServerStarted {
                path: path.clone(),
                address: address.clone(),
            },
            Event::ServerFailed { path } => Event::ServerFailed { path: path.clone() },
            Event::Topology(reported) => Event::Topology(copy_names(reported)),
        }
    }
}

enum Serving {
    Url(String),
    Path(String),
    Deliver { path: String, address: String },
}

impl View for Serving {
    type V = Request;

    closed spec fn view(&self) -> Request {
        match self {
            Serving::Url(url) => Request::Url(url@),
            Serving::Path(path) => Request::Path(path@),
            Serving::Deliver { path, address } => Request::Deliver {
                path: path@,
                address: address@,
            },
        }
    }
}

/// The router's state: the connector snapshot, the sessions and the leases.
pub struct Router {
    snapshot: ConnectorSnapshot,
    sessions: SessionState,
    leases: LeaseManager,
}

impl View for Router {
    type V = RouterModel;

    closed spec fn view(&self) -> RouterModel {
        RouterModel { snapshot: self.snapshot@, sessions: self.sessions@, leases: self.leases@ }
    }
}

impl Router {
    spec fn parts_wf(&self) -> bool {
        self.snapshot.wf() && self.sessions.wf() && self.leases.wf()
    }

    /// The state is sound: its parts are, and the invariant holds.
    pub closed spec fn wf(&self) -> bool {
        self.parts_wf() && inv(self@)
    }

    /// What `wf` says of the state as contracts see it.
    pub proof fn lemma_wf(&self)
        requires
            self.wf(),
        ensures
            inv(self@),
    {
    }

    /// A router that knows no connector, shows nothing and holds no lease.
    pub fn new() -> (router: Router)
        ensures
            router.wf(),
            router@ == initial(),
    {
        Router {
            snapshot: ConnectorSnapshot::empty(),
            sessions: SessionState::new(),
            leases: LeaseManager::new(),
        }
    }

    fn display(
        &mut self,
        connector: &str,
        content: ContentRef,
        address: &str,
        actions: &mut Vec<Action>,
    )
        requires
            old(self).parts_wf(),
        ensures
            final(self).parts_wf(),
            final(self)@ == display(old(self)@, connector@, content@, address@).0,
            actions_of(final(actions)@) == actions_of(old(actions)@) + display(
                old(self)@,
                connector@,
                content@,
                address@,
            ).1,
    {
        let previous = self.sessions.set(connector, content);
        actions.push(
            Action::SetWebview { connector: connector.to_owned(), address: address.to_owned() },
        );
        match previous {
            ContentRef::LocalPath(old_path) => {
                if self.leases.release(old_path.as_str(), connector) {
                    actions.push(Action::StopServer { path: old_path });
                }
            },
            _ => {},
        }
    }

    fn serve(&mut self, request: &Serving, connector: &str, actions: &mut Vec<Action>)
        requires
            old(self).parts_wf(),
        ensures
            final(self).parts_wf(),
            final(self)@ == serve(old(self)@, request@, connector@).0,
            actions_of(final(actions)@) == actions_of(old(actions)@) + serve(
                old(self)@,
                request@,
                connector@,
            ).1,
    {
        let ghost asked = actions_of(actions@);
        match request {
            Serving::Url(url) => {
                self.display(connector, ContentRef::Url(url.clone()), url.as_str(), actions);
            },
            Serving::Path(path) => {
                match self.leases.acquire(path.as_str(), connector) {
                    Acquired::Ready(address) => {
                        self.display(
                            connector,
                            ContentRef::LocalPath(path.clone()),
                            address.as_str(),
                            actions,
                        );
                    },
                    Acquired::Joined => {},
                    Acquired::Started => {
                        actions.push(Action::StartServer { path: path.clone() });
                        assert(actions_of(actions@) =~= asked + seq![
                            ActionModel::StartServer { path: path@ },
                        ]);
                    },
                }
            },
            Serving::Deliver { path, address } => {
                self.display(
                    connector,
                    ContentRef::LocalPath(path.clone()),
                    address.as_str(),
                    actions,
                );
            },
        }
    }

    fn serve_all(&mut self, request: &Serving, targets: &Vec<String>) -> (actions: Vec<Action>)
        requires
            old(self).parts_wf(),
        ensures
            final(self).parts_wf(),
            final(self)@ == serve_all(old(self)@, request@, names(targets@)).0,
            actions_of(actions@) == serve_all(old(self)@, request@, names(targets@)).1,
    {
        let mut actions: Vec<Action> = Vec::new();
        let mut i: usize = 0;
        while i < targets.len()
            invariant
                i <= targets.len(),
                self.parts_wf(),
                self@ == serve_all(old(self)@, request@, names(targets@).take(i as int)).0,
                actions_of(actions@) == serve_all(
                    old(self)@,
                    request@,
                    names(targets@).take(i as int),
                ).1,
            decreases targets.len() - i,
        {
            let ghost upto = names(targets@).take(i as int + 1);
            assert(upto.drop_last() =~= names(targets@).take(i as int));
            self.serve(request, targets[i].as_str(), &mut actions);
            i += 1;
        }
        assert(names(targets@).take(targets.len() as int) =~= names(targets@));
        actions
    }

    /// The connectors that a command with this `monitor` addresses now: a
    /// copy, which later topology updates do not reach.
    pub fn resolve_targets(&self, monitor: &Option<String>) -> (list: Vec<String>)
        ensures
            names(list@) == targets(self@.snapshot, text_of(*monitor)),
    {
        match monitor {
            Some(connector) => {
                let mut list: Vec<String> = Vec::new();
                list.push(connector.clone());
                list
            },
            None => self.snapshot.connectors(),
        }
    }

    /// Shows a remote address on the connector that `monitor` names, or on
    /// every connector of the snapshot.
    pub fn handle_request_webview(&mut self, monitor: Option<String>, url: String) -> (actions:
        Vec<Action>)
        requires
            old(self).wf(),
        ensures
            final(self).wf(),
            (final(self)@, actions_of(actions@)) == step(
                old(self)@,
                EventModel::Command(CommandModel::SetUrl { monitor: text_of(monitor), url: url@ }),
            ),
    {
        proof {
            lemma_step(
                self@,
                EventModel::Command(CommandModel::SetUrl { monitor: text_of(monitor), url: url@ }),
            );
        }
        let list = self.resolve_targets(&monitor);
        self.serve_all(&Serving::Url(url), &list)
    }

    /// Acquires the lease of `path` for the connector that `monitor` names,
    /// or for every connector of the snapshot, and shows the path wherever
    /// its server already runs.
    pub fn handle_request_server(&mut self, monitor: Option<String>, path: String) -> (actions:
        Vec<Action>)
        requires
            old(self).wf(),
        ensures
            final(self).wf(),
            (final(self)@, actions_of(actions@)) == step(
                old(self)@,
                EventModel::Command(CommandModel::SetPath { monitor: text_of(monitor), path: path@ }),
            ),
    {
        proof {
            lemma_step(
                self@,
                EventModel::Command(
                    CommandModel::SetPath { monitor: text_of(monitor), path: path@ },
                ),
            );
        }
        let list = self.resolve_targets(&monitor);
        self.serve_all(&Serving::Path(path), &list)
    }

    /// Applies a caller's command.
    pub fn handle_command(&mut self, command: Command) -> (actions: Vec<Action>)
        requires
            old(self).wf(),
        ensures
            final(self).wf(),
            (final(self)@, actions_of(actions@)) == step(old(self)@, EventModel::Command(command@)),
    {
        match command {
            Command::SetUrl { monitor, url } => self.handle_request_webview(monitor, url),
            Command::SetPath { monitor, path } => self.handle_request_server(monitor, path),
        }
    }

    /// Takes note that the server of `path` runs at `address`, and shows
    /// the path on every connector that waited for it.
    pub fn handle_server_started(&mut self, path: String, address: String) -> (actions: Vec<Action>)
        requires
            old(self).wf(),
        ensures
            final(self).wf(),
            (final(self)@, actions_of(actions@)) == step(
                old(self)@,
                EventModel::ServerStarted { path: path@, address: address@ },
            ),
    {
        proof {
            lemma_step(self@, EventModel::ServerStarted { path: path@, address: address@ });
        }
        let waiters = self.leases.server_started(path.as_str(), address.as_str());
        self.serve_all(&Serving::Deliver { path, address }, &waiters)
    }

    /// Takes note that the server of `path` could not be started: the lease
    /// is given up and every connector keeps what it displays.
    pub fn handle_server_failed(&mut self, path: String) -> (actions: Vec<Action>)
        requires
            old(self).wf(),
        ensures
            final(self).wf(),
            (final(self)@, actions_of(actions@)) == step(
                old(self)@,
                EventModel::ServerFailed { path: path@ },
            ),
    {
        proof {
            lemma_step(self@, EventModel::ServerFailed { path: path@ });
        }
        let _ = self.leases.server_failed(path.as_str());
        let actions: Vec<Action> = Vec::new();
        actions
    }

    /// Replaces the snapshot by the connectors that the rendering front end
    /// reported. Sessions and leases stay as they are.
    pub fn handle_topology(&mut self, reported: Vec<String>) -> (actions: Vec<Action>)
        requires
            old(self).wf(),
        ensures
            final(self).wf(),
            (final(self)@, actions_of(actions@)) == step(
                old(self)@,
                EventModel::Topology(names(reported@)),
            ),
    {
        proof {
            lemma_step(self@, EventModel::Topology(names(reported@)));
        }
        self.snapshot = ConnectorSnapshot::new(reported);
        let actions: Vec<Action> = Vec::new();
        actions
    }

    /// Applies one event and says what is to be done about it. Events are
    /// applied one at a time, in the order in which they are handed in.
    pub fn handle(&mut self, event: Event) -> (actions: Vec<Action>)
        requires
            old(self).wf(),
        ensures
            final(self).wf(),
            (final(self)@, actions_of(actions@)) == step(old(self)@, event@),
    {
        match event {
            Event::Command(command) => self.handle_command(command),
            Event::ServerStarted { path, address } => self.handle_server_started(path, address),
            Event::ServerFailed { path } => self.handle_server_failed(path),
            Event::Topology(reported) => self.handle_topology(reported),
        }
    }

    /// The connectors of the current snapshot.
    pub fn connectors(&self) -> (list: Vec<String>)
        ensures
            names(list@) == self@.snapshot,
    {
        self.snapshot.connectors()
    }

    /// What `connector` displays now.
    pub fn displayed(&self, connector: &str) -> (content: ContentRef)
        requires
            self.wf(),
        ensures
            content@ == crate::session::current(self@.sessions, connector@),
    {
        self.sessions.get(connector)
    }

    /// The reference count of the lease of `path`; zero where it has none.
    pub fn lease_count(&self, path: &str) -> (n: usize)
        requires
            self.wf(),
        ensures
            n == crate::lease::count_of(self@.leases, path@),
    {
        self.leases.count(path)
    }

    /// The address at which `path` is served, once its server runs.
    pub fn lease_address(&self, path: &str) -> (address: Option<String>)
        requires
            self.wf(),
        ensures
            match address {
                Some(a) => crate::lease::ready(self@.leases, path@) && self@.leases[path@].address
                    == Some(a@),
                None => !crate::lease::ready(self@.leases, path@),
            },
    {
        self.leases.address(path)
    }

    /// The number of leases.
    pub fn lease_total(&self) -> (n: usize)
        requires
            self.wf(),
        ensures
            n == self@.leases.dom().len(),
    {
        self.leases.len()
    }
}

} // verus!
