//! The router as a state machine over mathematical values: its state, the
//! events it takes, the actions it asks for, and the transition between them.

use crate::command::CommandModel;
use crate::lease::{
    acquire_spec, failed_spec, ready, release_spec, started_spec, starting, waiting, LeaseModel,
    Leases,
};
use crate::session::{current, ContentModel};
use crate::snapshot::first_occurrences;
use vstd::prelude::*;

verus! {

/// The state that the router orders all changes to.
pub struct RouterModel {
    /// The connectors last reported, each once.
    pub snapshot: Seq<Seq<char>>,
    /// What each connector displays.
    pub sessions: Map<Seq<char>, ContentModel>,
    /// The leases of local servers, by path.
    pub leases: Leases,
}

/// What the router hears of.
pub enum EventModel {
    /// A caller's command arrived.
    Command(CommandModel),
    /// The server of `path` accepts requests at `address`.
    ServerStarted { path: Seq<char>, address: Seq<char> },
    /// The server of `path` could not be started.
    ServerFailed { path: Seq<char> },
    /// The rendering front end reported its connectors.
    Topology(Seq<Seq<char>>),
}

/// What the router asks its surroundings to do.
pub enum ActionModel {
    /// Show `address` on `connector`.
    SetWebview { connector: Seq<char>, address: Seq<char> },
    /// Start a local server for `path`, then report how it went.
    StartServer { path: Seq<char> },
    /// Shut down the local server of `path`.
    StopServer { path: Seq<char> },
}

/// What is to be done for each connector that an event addresses.
pub enum Request {
    /// Show a remote address.
    Url(Seq<char>),
    /// Show a local path, through a lease still to be acquired.
    Path(Seq<char>),
    /// Show a local path whose lease the connector already holds, now that
    /// its server runs at `address`.
    Deliver { path: Seq<char>, address: Seq<char> },
}

/// The state before anything happened.
pub open spec fn initial() -> RouterModel {
    RouterModel { snapshot: Seq::empty(), sessions: Map::empty(), leases: Map::empty() }
}

/// The connectors that a command addresses on arrival: the one it names, or
/// every connector of the snapshot as it is at that moment.
pub open spec fn targets(snapshot: Seq<Seq<char>>, monitor: Option<Seq<char>>) -> Seq<Seq<char>> {
    match monitor {
        Some(connector) => seq![connector],
        None => snapshot,
    }
}

/// Commits `content` as what `connector` displays, has the renderer show
/// `address`, and then lets go of the lease behind what was displayed
/// before, shutting its server down if nobody else holds it.
pub open spec fn display(
    s: RouterModel,
    connector: Seq<char>,
    content: ContentModel,
    address: Seq<char>,
) -> (RouterModel, Seq<ActionModel>) {
    let sessions = s.sessions.insert(connector, content);
    let shown = seq![ActionModel::SetWebview { connector, address }];
    match current(s.sessions, connector) {
        ContentModel::LocalPath(old_path) => {
            let leases = release_spec(s.leases, old_path, connector);
            (
                RouterModel { snapshot: s.snapshot, sessions, leases },
                if s.leases.contains_key(old_path) && !leases.contains_key(old_path) {
                    shown.push(ActionModel::StopServer { path: old_path })
                } else {
                    shown
                },
            )
        },
        _ => (RouterModel { snapshot: s.snapshot, sessions, leases: s.leases }, shown),
    }
}

/// Serves one connector.
pub open spec fn serve(s: RouterModel, request: Request, connector: Seq<char>) -> (
    RouterModel,
    Seq<ActionModel>,
) {
    match request {
        Request::Url(url) => display(s, connector, ContentModel::Url(url), url),
        Request::Path(path) => {
            let attached = RouterModel {
                snapshot: s.snapshot,
                sessions: s.sessions,
                leases: acquire_spec(s.leases, path, connector),
            };
            if ready(s.leases, path) {
                display(attached, connector, ContentModel::LocalPath(path), s.leases[path].address->0)
            } else if starting(s.leases, path) {
                (attached, Seq::empty())
            } else {
                (attached, seq![ActionModel::StartServer { path }])
            }
        },
        Request::Deliver { path, address } => display(
            s,
            connector,
            ContentModel::LocalPath(path),
            address,
        ),
    }
}

/// Serves the connectors of `targets` one after the other, in their order.
pub open spec fn serve_all(s: RouterModel, request: Request, targets: Seq<Seq<char>>) -> (
    RouterModel,
    Seq<ActionModel>,
)
    decreases targets.len(),
{
    if targets.len() == 0 {
        (s, Seq::empty())
    } else {
        let (before, asked) = serve_all(s, request, targets.drop_last());
        let (after, more) = serve(before, request, targets.last());
        (after, asked + more)
    }
}

/// The router's transition: the state after `event` and the actions it asks
/// for, in order.
pub open spec fn step(s: RouterModel, event: EventModel) -> (RouterModel, Seq<ActionModel>) {
    match event {
        EventModel::Command(CommandModel::SetUrl { monitor, url }) => serve_all(
            s,
            Request::Url(url),
            targets(s.snapshot, monitor),
        ),
        EventModel::Command(CommandModel::SetPath { monitor, path }) => serve_all(
            s,
            Request::Path(path),
            targets(s.snapshot, monitor),
        ),
        EventModel::ServerStarted { path, address } => serve_all(
            RouterModel {
                snapshot: s.snapshot,
                sessions: s.sessions,
                leases: started_spec(s.leases, path, address),
            },
            Request::Deliver { path, address },
            waiting(s.leases, path),
        ),
        EventModel::ServerFailed { path } => (
            RouterModel {
                snapshot: s.snapshot,
                sessions: s.sessions,
                leases: failed_spec(s.leases, path),
            },
            Seq::empty(),
        ),
        EventModel::Topology(reported) => (
            RouterModel {
                snapshot: first_occurrences(reported),
                sessions: s.sessions,
                leases: s.leases,
            },
            Seq::empty(),
        ),
    }
}

/// How often `connector` is attached to the lease of `path`.
pub open spec fn holds(leases: Leases, path: Seq<char>, connector: Seq<char>) -> nat {
    if leases.contains_key(path) {
        leases[path].holders.to_multiset().count(connector)
    } else {
        0
    }
}

/// One if `connector` displays `path`, zero if not.
pub open spec fn pointing(
    sessions: Map<Seq<char>, ContentModel>,
    connector: Seq<char>,
    path: Seq<char>,
) -> nat {
    if current(sessions, connector) == ContentModel::LocalPath(path) {
        1
    } else {
        0
    }
}

/// The invariant of the router's state, with the connectors of `pending`
/// holding the lease of `path` ahead of displaying it:
/// a lease has at least one holder; a connector displays a local path only
/// while that path's server runs; and a running server's lease is held once
/// by each connector that displays its path, and once more for each time a
/// connector is pending.
pub open spec fn balanced(s: RouterModel, path: Seq<char>, pending: Seq<Seq<char>>) -> bool {
    &&& s.snapshot.no_duplicates()
    &&& s.sessions.dom().finite()
    &&& s.leases.dom().finite()
    &&& forall|p: Seq<char>| #[trigger] s.leases.contains_key(p) ==> s.leases[p].holders.len() > 0
    &&& forall|p: Seq<char>, c: Seq<char>| #[trigger]
        pointing(s.sessions, c, p) > 0 ==> ready(s.leases, p)
    &&& forall|p: Seq<char>, c: Seq<char>|
        ready(s.leases, p) ==> #[trigger] holds(s.leases, p, c) == pointing(s.sessions, c, p) + (if p
            == path {
            pending.to_multiset().count(c)
        } else {
            0
        })
    &&& pending.len() > 0 ==> ready(s.leases, path)
}

/// The invariant of the router's state between events.
pub open spec fn inv(s: RouterModel) -> bool {
    &&& s.snapshot.no_duplicates()
    &&& s.sessions.dom().finite()
    &&& s.leases.dom().finite()
    &&& forall|p: Seq<char>| #[trigger] s.leases.contains_key(p) ==> s.leases[p].holders.len() > 0
    &&& forall|p: Seq<char>, c: Seq<char>| #[trigger]
        pointing(s.sessions, c, p) > 0 ==> ready(s.leases, p)
    &&& forall|p: Seq<char>, c: Seq<char>|
        ready(s.leases, p) ==> #[trigger] holds(s.leases, p, c) == pointing(s.sessions, c, p)
}

} // verus!
