//! What holds of the router whatever the events are.

use crate::balance::{lemma_inv_is_balanced, lemma_step};
use crate::command::CommandModel;
use crate::lease::{count_of, ready, starting, waiting};
use crate::model::{
    display, holds, initial, inv, pointing, serve, serve_all, step, targets, ActionModel,
    EventModel, Request, RouterModel,
};
use crate::session::{current, ContentModel};
use crate::snapshot::{first_occurrences, lemma_first_occurrences};
use vstd::prelude::*;

verus! {

/// The connectors that a list of actions has the renderer address, in order.
pub open spec fn notified(actions: Seq<ActionModel>) -> Seq<Seq<char>>
    decreases actions.len(),
{
    if actions.len() == 0 {
        Seq::empty()
    } else {
        let front = notified(actions.drop_last());
        match actions.last() {
            ActionModel::SetWebview { connector, .. } => front.push(connector),
            _ => front,
        }
    }
}

/// The connectors that display `path`.
pub open spec fn displaying(sessions: Map<Seq<char>, ContentModel>, path: Seq<char>) -> Set<
    Seq<char>,
> {
    Set::new(
        |c: Seq<char>| sessions.contains_key(c) && sessions[c] == ContentModel::LocalPath(path),
    )
}

/// The state after a run of events, applied in order.
pub open spec fn after_events(s: RouterModel, events: Seq<EventModel>) -> RouterModel
    decreases events.len(),
{
    if events.len() == 0 {
        s
    } else {
        step(after_events(s, events.drop_last()), events.last()).0
    }
}

/// The state after a run of topology updates, applied in order.
pub open spec fn after_updates(s: RouterModel, updates: Seq<Seq<Seq<char>>>) -> RouterModel
    decreases updates.len(),
{
    if updates.len() == 0 {
        s
    } else {
        step(after_updates(s, updates.drop_last()), EventModel::Topology(updates.last())).0
    }
}

proof fn lemma_notified_concat(a: Seq<ActionModel>, b: Seq<ActionModel>)
    ensures
        notified(a + b) == notified(a) + notified(b),
    decreases b.len(),
{
    if b.len() == 0 {
        assert(a + b =~= a);
        assert(notified(a) + notified(b) =~= notified(a));
    } else {
        assert((a + b).drop_last() =~= a + b.drop_last());
        assert((a + b).last() == b.last());
        lemma_notified_concat(a, b.drop_last());
        match b.last() {
            ActionModel::SetWebview { connector, .. } => {
                assert(notified(a + b) =~= notified(a) + notified(b));
            },
            _ => {},
        }
    }
}

proof fn lemma_notified_display(
    s: RouterModel,
    connector: Seq<char>,
    content: ContentModel,
    address: Seq<char>,
)
    ensures
        notified(display(s, connector, content, address).1) == seq![connector],
{
    let shown = seq![ActionModel::SetWebview { connector, address }];
    assert(shown.drop_last() =~= Seq::<ActionModel>::empty());
    assert(notified(shown.drop_last()) =~= Seq::<Seq<char>>::empty());
    assert(notified(shown) =~= seq![connector]);
    let asked = display(s, connector, content, address).1;
    if asked != shown {
        assert(asked.drop_last() =~= shown);
    }
}

/// The state in which no event has been applied meets the invariant.
pub proof fn law_initial_state()
    ensures
        inv(initial()),
{
}

/// Every event takes a state that meets the invariant to one that meets it.
pub proof fn law_step_keeps_invariant(s: RouterModel, event: EventModel)
    requires
        inv(s),
    ensures
        inv(step(s, event).0),
{
    lemma_step(s, event);
}

/// A broadcast of a remote address has the renderer address exactly the
/// connectors of the snapshot as it was when the command arrived, each once
/// and in the snapshot's order.
pub proof fn law_broadcast_url(s: RouterModel, url: Seq<char>)
    ensures
        notified(
            step(s, EventModel::Command(CommandModel::SetUrl { monitor: None, url })).1,
        ) == s.snapshot,
{
    lemma_notified_serve_all(s, Request::Url(url), s.snapshot);
}

proof fn lemma_notified_serve_all(s: RouterModel, request: Request, list: Seq<Seq<char>>)
    requires
        request matches Request::Path(path) ==> ready(s.leases, path) && inv(s),
    ensures
        notified(serve_all(s, request, list).1) == list,
        request matches Request::Path(path) ==> ready(serve_all(s, request, list).0.leases, path)
            && inv(serve_all(s, request, list).0),
    decreases list.len(),
{
    if list.len() > 0 {
        lemma_notified_serve_all(s, request, list.drop_last());
        let (before, asked) = serve_all(s, request, list.drop_last());
        let (after, more) = serve(before, request, list.last());
        lemma_notified_concat(asked, more);
        match request {
            Request::Url(url) => {
                lemma_notified_display(before, list.last(), ContentModel::Url(url), url);
            },
            Request::Path(path) => {
                let attached = RouterModel {
                    snapshot: before.snapshot,
                    sessions: before.sessions,
                    leases: crate::lease::acquire_spec(before.leases, path, list.last()),
                };
                lemma_notified_display(
                    attached,
                    list.last(),
                    ContentModel::LocalPath(path),
                    before.leases[path].address->0,
                );
                crate::balance::lemma_serve(before, request, list.last());
                assert(pointing(after.sessions, list.last(), path) > 0);
            },
            Request::Deliver { path, address } => {
                lemma_notified_display(before, list.last(), ContentModel::LocalPath(path), address);
            },
        }
        assert(list =~= list.drop_last().push(list.last()));
    } else {
        assert(list =~= Seq::<Seq<char>>::empty());
    }
}

/// A broadcast of a local path whose server runs has the renderer address
/// exactly the connectors of the snapshot as it was when the command
/// arrived.
pub proof fn law_broadcast_path(s: RouterModel, path: Seq<char>)
    requires
        inv(s),
        ready(s.leases, path),
    ensures
        notified(
            step(s, EventModel::Command(CommandModel::SetPath { monitor: None, path })).1,
        ) == s.snapshot,
{
    lemma_notified_serve_all(s, Request::Path(path), s.snapshot);
}

proof fn lemma_waiting_serve_all(s: RouterModel, path: Seq<char>, list: Seq<Seq<char>>)
    requires
        !ready(s.leases, path),
    ensures
        ({
            let (after, asked) = serve_all(s, Request::Path(path), list);
            &&& !ready(after.leases, path)
            &&& waiting(after.leases, path) == waiting(s.leases, path) + list
            &&& asked == if list.len() > 0 && !s.leases.contains_key(path) {
                seq![ActionModel::StartServer { path }]
            } else {
                Seq::<ActionModel>::empty()
            }
            &&& after.sessions == s.sessions
            &&& after.snapshot == s.snapshot
        }),
    decreases list.len(),
{
    if list.len() > 0 {
        lemma_waiting_serve_all(s, path, list.drop_last());
        let (before, asked) = serve_all(s, Request::Path(path), list.drop_last());
        let (after, more) = serve(before, Request::Path(path), list.last());
        if !starting(before.leases, path) {
            assert(list.drop_last().len() == 0) by {
                if list.drop_last().len() > 0 {
                    assert(waiting(before.leases, path).len() > 0);
                }
            }
            assert(waiting(after.leases, path) =~= seq![list.last()]);
        }
        assert(waiting(after.leases, path) =~= waiting(before.leases, path).push(list.last()));
        assert(list =~= list.drop_last().push(list.last()));
        assert(waiting(after.leases, path) =~= waiting(s.leases, path) + list);
        assert(asked + more =~= if !s.leases.contains_key(path) {
            seq![ActionModel::StartServer { path }]
        } else {
            Seq::<ActionModel>::empty()
        });
    } else {
        assert(waiting(s.leases, path) + list =~= waiting(s.leases, path));
    }
}

/// A broadcast of a local path whose server does not run yet addresses
/// nobody at once: it puts the connectors of the snapshot as it was when the
/// command arrived, in its order, behind those that already wait for the
/// server.
pub proof fn law_broadcast_waits(s: RouterModel, path: Seq<char>)
    requires
        !ready(s.leases, path),
    ensures
        ({
            let (after, asked) = step(
                s,
                EventModel::Command(CommandModel::SetPath { monitor: None, path }),
            );
            &&& notified(asked) == Seq::<Seq<char>>::empty()
            &&& waiting(after.leases, path) == waiting(s.leases, path) + s.snapshot
        }),
{
    lemma_waiting_serve_all(s, path, s.snapshot);
    let start = seq![ActionModel::StartServer { path }];
    assert(start.drop_last() =~= Seq::<ActionModel>::empty());
    assert(notified(start.drop_last()) =~= Seq::<Seq<char>>::empty());
}

/// However many connectors a command for a local path addresses, the
/// path's server is started once: by the first acquisition, and only where
/// the path has no lease yet. Until the server runs the command asks for
/// nothing else, and changes no session.
pub proof fn law_server_started_once(s: RouterModel, monitor: Option<Seq<char>>, path: Seq<char>)
    requires
        !ready(s.leases, path),
    ensures
        ({
            let (after, asked) = step(
                s,
                EventModel::Command(CommandModel::SetPath { monitor, path }),
            );
            &&& asked == if targets(s.snapshot, monitor).len() > 0 && !s.leases.contains_key(path) {
                seq![ActionModel::StartServer { path }]
            } else {
                Seq::<ActionModel>::empty()
            }
            &&& after.sessions == s.sessions
            &&& waiting(after.leases, path) == waiting(s.leases, path) + targets(
                s.snapshot,
                monitor,
            )
        }),
{
    lemma_waiting_serve_all(s, path, targets(s.snapshot, monitor));
}

/// When a server has started, the renderer is addressed for exactly the
/// connectors that waited for it, in the order in which they came.
pub proof fn law_delivery(s: RouterModel, path: Seq<char>, address: Seq<char>)
    ensures
        notified(step(s, EventModel::ServerStarted { path, address }).1) == waiting(s.leases, path),
{
    let started = RouterModel {
        snapshot: s.snapshot,
        sessions: s.sessions,
        leases: crate::lease::started_spec(s.leases, path, address),
    };
    lemma_notified_serve_all(started, Request::Deliver { path, address }, waiting(s.leases, path));
}

/// A topology update replaces the snapshot by the reported connectors and
/// touches neither a session nor a lease, and asks for nothing.
pub proof fn law_topology(s: RouterModel, reported: Seq<Seq<char>>)
    ensures
        ({
            let (after, asked) = step(s, EventModel::Topology(reported));
            &&& after.snapshot == first_occurrences(reported)
            &&& after.snapshot.to_set() == reported.to_set()
            &&& after.sessions == s.sessions
            &&& after.leases == s.leases
            &&& asked == Seq::<ActionModel>::empty()
        }),
{
    lemma_first_occurrences(reported);
}

/// After a run of topology updates the snapshot is the last one reported,
/// whole, whatever came before it; sessions and leases are as they were.
pub proof fn law_latest_snapshot(s: RouterModel, updates: Seq<Seq<Seq<char>>>)
    ensures
        ({
            let after = after_updates(s, updates);
            &&& updates.len() > 0 ==> after.snapshot == first_occurrences(updates.last())
                && after.snapshot.to_set() == updates.last().to_set()
            &&& updates.len() == 0 ==> after.snapshot == s.snapshot
            &&& after.sessions == s.sessions
            &&& after.leases == s.leases
        }),
    decreases updates.len(),
{
    if updates.len() > 0 {
        law_latest_snapshot(s, updates.drop_last());
        lemma_first_occurrences(updates.last());
    }
}

/// Topology updates that arrive while a broadcast waits for its server do
/// not reach it: once the server has started, the renderer is addressed for
/// the connectors of the snapshot as it was when the command arrived.
pub proof fn law_broadcast_keeps_targets(
    s: RouterModel,
    path: Seq<char>,
    updates: Seq<Seq<Seq<char>>>,
    address: Seq<char>,
)
    requires
        !ready(s.leases, path),
    ensures
        ({
            let arrived = step(
                s,
                EventModel::Command(CommandModel::SetPath { monitor: None, path }),
            ).0;
            let later = after_updates(arrived, updates);
            notified(step(later, EventModel::ServerStarted { path, address }).1) == waiting(
                s.leases,
                path,
            ) + s.snapshot
        }),
{
    let arrived = step(s, EventModel::Command(CommandModel::SetPath { monitor: None, path })).0;
    law_broadcast_waits(s, path);
    law_latest_snapshot(arrived, updates);
    law_delivery(after_updates(arrived, updates), path, address);
}

/// The reference count of a lease whose server runs is the number of
/// connectors that display its path, and is not zero.
pub proof fn law_reference_count(s: RouterModel, path: Seq<char>)
    requires
        inv(s),
        ready(s.leases, path),
    ensures
        displaying(s.sessions, path).finite(),
        count_of(s.leases, path) == displaying(s.sessions, path).len(),
        count_of(s.leases, path) > 0,
{
    broadcast use {vstd::multiset::group_multiset_axioms, vstd::seq_lib::group_to_multiset_ensures};

    let held = s.leases[path].holders;
    assert(s.leases.contains_key(path));
    assert forall|c: Seq<char>| held.to_multiset().contains(c) implies held.to_multiset().count(c)
        == 1 by {
        assert(holds(s.leases, path, c) == pointing(s.sessions, c, path));
    }
    held.lemma_multiset_has_no_duplicates_conv();
    held.unique_seq_to_set();
    assert forall|c: Seq<char>| held.to_set().contains(c) <==> displaying(s.sessions, path).contains(
        c,
    ) by {
        assert(holds(s.leases, path, c) == pointing(s.sessions, c, path));
        assert(held.contains(c) <==> held.to_multiset().count(c) > 0);
    }
    assert(held.to_set() =~= displaying(s.sessions, path));
    vstd::seq_lib::seq_to_set_is_finite(held);
}

/// A path has a lease exactly if its reference count is not zero, and no
/// connector displays it before its server runs. The count of a lease whose
/// server is still starting is the number of connectors that wait for it.
pub proof fn law_lease_exists(s: RouterModel, path: Seq<char>)
    requires
        inv(s),
    ensures
        s.leases.contains_key(path) <==> count_of(s.leases, path) > 0,
        !ready(s.leases, path) ==> displaying(s.sessions, path) == Set::<Seq<char>>::empty(),
        starting(s.leases, path) ==> count_of(s.leases, path) == waiting(s.leases, path).len(),
{
    if !ready(s.leases, path) {
        assert forall|c: Seq<char>| !displaying(s.sessions, path).contains(c) by {
            if displaying(s.sessions, path).contains(c) {
                assert(pointing(s.sessions, c, path) > 0);
            }
        }
        assert(displaying(s.sessions, path) =~= Set::<Seq<char>>::empty());
    }
}

/// The actions that show `address` on each connector of `list`, in order.
pub open spec fn shows(list: Seq<Seq<char>>, address: Seq<char>) -> Seq<ActionModel> {
    list.map_values(|connector: Seq<char>| ActionModel::SetWebview { connector, address })
}

proof fn lemma_url_shown(s: RouterModel, url: Seq<char>, list: Seq<Seq<char>>)
    ensures
        serve_all(s, Request::Url(url), list).0.snapshot == s.snapshot,
        forall|i: int|
            0 <= i < list.len() ==> current(
                serve_all(s, Request::Url(url), list).0.sessions,
                #[trigger] list[i],
            ) == ContentModel::Url(url),
    decreases list.len(),
{
    if list.len() > 0 {
        lemma_url_shown(s, url, list.drop_last());
        let before = serve_all(s, Request::Url(url), list.drop_last()).0;
        let after = serve_all(s, Request::Url(url), list).0;
        assert(after.sessions == before.sessions.insert(list.last(), ContentModel::Url(url)));
        assert forall|i: int| 0 <= i < list.len() implies current(after.sessions, #[trigger] list[i])
            == ContentModel::Url(url) by {
            if i < list.len() - 1 {
                assert(list.drop_last()[i] == list[i]);
            }
        }
    }
}

proof fn lemma_url_again(s: RouterModel, url: Seq<char>, list: Seq<Seq<char>>)
    requires
        forall|i: int|
            0 <= i < list.len() ==> current(s.sessions, #[trigger] list[i]) == ContentModel::Url(
                url,
            ),
    ensures
        serve_all(s, Request::Url(url), list) == (s, shows(list, url)),
    decreases list.len(),
{
    if list.len() > 0 {
        let front = list.drop_last();
        assert forall|i: int| 0 <= i < front.len() implies current(s.sessions, #[trigger] front[i])
            == ContentModel::Url(url) by {
            assert(front[i] == list[i]);
        }
        lemma_url_again(s, url, front);
        let last = list.last();
        assert(current(s.sessions, list[list.len() - 1]) == ContentModel::Url(url));
        let (after, more) = serve(s, Request::Url(url), last);
        assert(after.sessions =~= s.sessions);
        assert(shows(front, url) + more =~= shows(list, url));
    } else {
        assert(shows(list, url) =~= Seq::<ActionModel>::empty());
    }
}

/// The same remote address set twice in a row: the second command changes
/// nothing. Each connector it addresses keeps the one reference that the
/// first command gave it, no lease is released, and the renderer is only
/// told to show the address again.
pub proof fn law_set_url_twice(s: RouterModel, monitor: Option<Seq<char>>, url: Seq<char>)
    ensures
        ({
            let command = EventModel::Command(CommandModel::SetUrl { monitor, url });
            let once = step(s, command).0;
            let (twice, asked) = step(once, command);
            &&& twice == once
            &&& asked == shows(targets(s.snapshot, monitor), url)
            &&& forall|i: int|
                0 <= i < targets(s.snapshot, monitor).len() ==> current(
                    once.sessions,
                    #[trigger] targets(s.snapshot, monitor)[i],
                ) == ContentModel::Url(url)
        }),
{
    let list = targets(s.snapshot, monitor);
    lemma_url_shown(s, url, list);
    let once = serve_all(s, Request::Url(url), list).0;
    assert(targets(once.snapshot, monitor) == list);
    lemma_url_again(once, url, list);
}

proof fn lemma_sessions_kept(s: RouterModel, request: Request, list: Seq<Seq<char>>)
    ensures
        s.sessions.dom().subset_of(serve_all(s, request, list).0.sessions.dom()),
    decreases list.len(),
{
    if list.len() > 0 {
        lemma_sessions_kept(s, request, list.drop_last());
    }
}

/// A connector that has an entry keeps one: no event removes an entry.
pub proof fn law_sessions_persist(s: RouterModel, event: EventModel, connector: Seq<char>)
    requires
        s.sessions.contains_key(connector),
    ensures
        step(s, event).0.sessions.contains_key(connector),
{
    match event {
        EventModel::Command(CommandModel::SetUrl { monitor, url }) => {
            lemma_sessions_kept(s, Request::Url(url), targets(s.snapshot, monitor));
        },
        EventModel::Command(CommandModel::SetPath { monitor, path }) => {
            lemma_sessions_kept(s, Request::Path(path), targets(s.snapshot, monitor));
        },
        EventModel::ServerStarted { path, address } => {
            let started = RouterModel {
                snapshot: s.snapshot,
                sessions: s.sessions,
                leases: crate::lease::started_spec(s.leases, path, address),
            };
            lemma_sessions_kept(started, Request::Deliver { path, address }, waiting(s.leases, path));
        },
        _ => {},
    }
}

/// Whatever events arrive, in whatever order, the state meets the
/// invariant.
pub proof fn law_invariant_always(events: Seq<EventModel>)
    ensures
        inv(after_events(initial(), events)),
    decreases events.len(),
{
    if events.len() > 0 {
        law_invariant_always(events.drop_last());
        lemma_step(after_events(initial(), events.drop_last()), events.last());
    }
}

/// Whatever events arrive, in whatever order: a lease exists exactly while
/// its reference count is not zero, and the count of a lease whose server
/// runs is the number of connectors that display its path.
pub proof fn law_reference_count_always(events: Seq<EventModel>, path: Seq<char>)
    ensures
        ({
            let s = after_events(initial(), events);
            &&& s.leases.contains_key(path) <==> count_of(s.leases, path) > 0
            &&& ready(s.leases, path) ==> displaying(s.sessions, path).finite() && count_of(
                s.leases,
                path,
            ) == displaying(s.sessions, path).len()
            &&& !ready(s.leases, path) ==> displaying(s.sessions, path) == Set::<
                Seq<char>,
            >::empty()
        }),
{
    let s = after_events(initial(), events);
    law_invariant_always(events);
    law_lease_exists(s, path);
    if ready(s.leases, path) {
        law_reference_count(s, path);
    }
}

} // verus!
