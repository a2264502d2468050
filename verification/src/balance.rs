//! Why every transition of the router keeps its invariant.

use crate::lease::{acquire_spec, ready, release_spec, started_spec, starting, waiting, Leases};
use crate::command::CommandModel;
use crate::model::{
    balanced, display, holds, inv, pointing, serve, serve_all, step, targets, EventModel, Request,
    RouterModel,
};
use crate::session::{current, ContentModel};
use crate::snapshot::lemma_first_occurrences;
use vstd::prelude::*;

verus! {

/// Between events nothing is pending.
pub proof fn lemma_inv_is_balanced(s: RouterModel, path: Seq<char>)
    ensures
        inv(s) <==> balanced(s, path, Seq::empty()),
{
    broadcast use vstd::multiset::group_multiset_axioms;

    let none = Seq::<Seq<char>>::empty();
    assert(none.to_multiset() =~= vstd::multiset::Multiset::empty()) by {
        none.to_multiset_ensures();
    }
    if balanced(s, path, none) {
        assert forall|p: Seq<char>, c: Seq<char>| ready(s.leases, p) implies #[trigger] holds(
            s.leases,
            p,
            c,
        ) == pointing(s.sessions, c, p) by {}
    }
}

/// What an acquisition does to the holders of every lease.
pub proof fn lemma_acquire(leases: Leases, path: Seq<char>, connector: Seq<char>)
    ensures
        ({
            let after = acquire_spec(leases, path, connector);
            &&& after.dom() == leases.dom().insert(path)
            &&& after[path].holders.len() > 0
            &&& after[path].address == if leases.contains_key(path) {
                leases[path].address
            } else {
                None
            }
            &&& forall|p: Seq<char>| p != path && leases.contains_key(p) ==> #[trigger] after[p]
                == leases[p]
            &&& forall|p: Seq<char>, c: Seq<char>| #[trigger]
                holds(after, p, c) == holds(leases, p, c) + if p == path && c == connector {
                    1nat
                } else {
                    0nat
                }
        }),
{
    broadcast use {vstd::multiset::group_multiset_axioms, vstd::seq_lib::group_to_multiset_ensures};

    let after = acquire_spec(leases, path, connector);
    if !leases.contains_key(path) {
        let none = Seq::<Seq<char>>::empty();
        assert(none.to_multiset() =~= vstd::multiset::Multiset::empty()) by {
            none.to_multiset_ensures();
        }
    }
    assert forall|p: Seq<char>, c: Seq<char>| #[trigger]
        holds(after, p, c) == holds(leases, p, c) + if p == path && c == connector {
            1nat
        } else {
            0nat
        } by {}
}

/// What a release does to the holders of every lease.
pub proof fn lemma_release(leases: Leases, path: Seq<char>, connector: Seq<char>)
    requires
        leases.dom().finite(),
    ensures
        ({
            let after = release_spec(leases, path, connector);
            &&& after.dom().finite()
            &&& forall|p: Seq<char>| #[trigger]
                after.contains_key(p) ==> leases.contains_key(p) && after[p].address
                    == leases[p].address && (leases[p].holders.len() > 0
                    ==> after[p].holders.len() > 0)
            &&& forall|p: Seq<char>| p != path && leases.contains_key(p) ==> #[trigger]
                after.contains_key(p) && after[p] == leases[p]
            &&& leases.contains_key(path) && !after.contains_key(path) ==> forall|c: Seq<char>| #[trigger]
                holds(leases, path, c) == if c == connector {
                    1nat
                } else {
                    0nat
                }
            &&& forall|p: Seq<char>, c: Seq<char>| #[trigger]
                holds(after, p, c) == holds(leases, p, c) - if p == path && c == connector && holds(
                    leases,
                    path,
                    connector,
                ) > 0 {
                    1nat
                } else {
                    0nat
                }
        }),
{
    broadcast use {vstd::multiset::group_multiset_axioms, vstd::seq_lib::group_to_multiset_ensures};

    let after = release_spec(leases, path, connector);
    if leases.contains_key(path) && leases[path].holders.contains(connector) {
        let held = leases[path].holders;
        held.index_of_first_ensures(connector);
        let at = held.index_of_first(connector)->0;
        let rest = held.remove(at);
        assert(forall|c: Seq<char>|
            rest.to_multiset().count(c) == held.to_multiset().count(c) - if c == connector {
                1nat
            } else {
                0nat
            });
        if rest.len() == 0 {
            assert(rest.to_multiset().len() == 0);
            assert forall|c: Seq<char>| #[trigger] holds(leases, path, c) == if c == connector {
                1nat
            } else {
                0nat
            } by {}
        }
    }
}

/// Committing one connector's content keeps the state balanced: a remote
/// address leaves the pending connectors as they are, and the pending path
/// takes its first pending connector off the list.
pub proof fn lemma_display(
    s: RouterModel,
    connector: Seq<char>,
    content: ContentModel,
    address: Seq<char>,
    path: Seq<char>,
    pending: Seq<Seq<char>>,
)
    requires
        balanced(s, path, pending),
        content is Url || (content == ContentModel::LocalPath(path) && pending.len() > 0
            && pending[0] == connector),
    ensures
        balanced(
            display(s, connector, content, address).0,
            path,
            if content is Url {
                pending
            } else {
                pending.drop_first()
            },
        ),
{
    broadcast use {vstd::multiset::group_multiset_axioms, vstd::seq_lib::group_to_multiset_ensures};

    let after = display(s, connector, content, address).0;
    let left = if content is Url {
        pending
    } else {
        pending.drop_first()
    };
    if !(content is Url) {
        assert(pending.drop_first() =~= pending.remove(0));
    }
    assert forall|c: Seq<char>| #[trigger]
        left.to_multiset().count(c) == pending.to_multiset().count(c) - if !(content is Url) && c
            == connector {
            1nat
        } else {
            0nat
        } by {}
    assert forall|p: Seq<char>, c: Seq<char>| #[trigger]
        pointing(after.sessions, c, p) == if c == connector {
            if content == ContentModel::LocalPath(p) {
                1nat
            } else {
                0nat
            }
        } else {
            pointing(s.sessions, c, p)
        } by {}
    match current(s.sessions, connector) {
        ContentModel::LocalPath(old_path) => {
            lemma_release(s.leases, old_path, connector);
            assert forall|p: Seq<char>| #[trigger] after.leases.contains_key(p) implies ready(
                s.leases,
                p,
            ) == ready(after.leases, p) by {}
            assert forall|p: Seq<char>, c: Seq<char>| #[trigger]
                pointing(after.sessions, c, p) > 0 implies ready(after.leases, p) by {
                if c != connector {
                    assert(holds(s.leases, p, c) >= 1);
                }
            }
            if left.len() > 0 {
                assert(holds(s.leases, path, left[0]) >= 1);
            }
            assert forall|p: Seq<char>, c: Seq<char>| ready(after.leases, p) implies #[trigger] holds(
                after.leases,
                p,
                c,
            ) == pointing(after.sessions, c, p) + (if p == path {
                left.to_multiset().count(c)
            } else {
                0
            }) by {
                assert(holds(s.leases, p, c) == pointing(s.sessions, c, p) + (if p == path {
                    pending.to_multiset().count(c)
                } else {
                    0
                }));
            }
        },
        _ => {
            assert forall|p: Seq<char>| pointing(s.sessions, connector, p) == 0 by {}
            assert forall|p: Seq<char>, c: Seq<char>| ready(after.leases, p) implies #[trigger] holds(
                after.leases,
                p,
                c,
            ) == pointing(after.sessions, c, p) + (if p == path {
                left.to_multiset().count(c)
            } else {
                0
            }) by {
                assert(holds(s.leases, p, c) == pointing(s.sessions, c, p) + (if p == path {
                    pending.to_multiset().count(c)
                } else {
                    0
                }));
            }
        },
    }
}

/// Serving one connector of a command keeps the invariant.
pub proof fn lemma_serve(s: RouterModel, request: Request, connector: Seq<char>)
    requires
        inv(s),
        !(request is Deliver),
    ensures
        inv(serve(s, request, connector).0),
{
    broadcast use {vstd::multiset::group_multiset_axioms, vstd::seq_lib::group_to_multiset_ensures};

    match request {
        Request::Url(url) => {
            lemma_inv_is_balanced(s, url);
            lemma_display(s, connector, ContentModel::Url(url), url, url, Seq::empty());
            lemma_inv_is_balanced(serve(s, request, connector).0, url);
        },
        Request::Path(path) => {
            lemma_acquire(s.leases, path, connector);
            let attached = RouterModel {
                snapshot: s.snapshot,
                sessions: s.sessions,
                leases: acquire_spec(s.leases, path, connector),
            };
            assert forall|p: Seq<char>| #[trigger] s.leases.contains_key(p) implies ready(
                attached.leases,
                p,
            ) == ready(s.leases, p) by {}
            if ready(s.leases, path) {
                let one = seq![connector];
                assert(Seq::<Seq<char>>::empty().to_multiset() =~= vstd::multiset::Multiset::empty())
                    by {
                    Seq::<Seq<char>>::empty().to_multiset_ensures();
                }
                assert forall|p: Seq<char>, c: Seq<char>| ready(attached.leases, p) implies #[trigger] holds(
                    attached.leases,
                    p,
                    c,
                ) == pointing(attached.sessions, c, p) + (if p == path {
                    one.to_multiset().count(c)
                } else {
                    0
                }) by {}
                let address = s.leases[path].address->0;
                lemma_display(attached, connector, ContentModel::LocalPath(path), address, path, one);
                lemma_inv_is_balanced(serve(s, request, connector).0, path);
            } else {
                assert forall|p: Seq<char>, c: Seq<char>| ready(attached.leases, p) implies #[trigger] holds(
                    attached.leases,
                    p,
                    c,
                ) == pointing(attached.sessions, c, p) by {}
                assert forall|p: Seq<char>, c: Seq<char>| #[trigger]
                    pointing(attached.sessions, c, p) > 0 implies ready(attached.leases, p) by {}
            }
        },
        Request::Deliver { .. } => {},
    }
}

/// Serving the connectors of a command one after the other keeps the
/// invariant.
pub proof fn lemma_serve_all(s: RouterModel, request: Request, list: Seq<Seq<char>>)
    requires
        inv(s),
        !(request is Deliver),
    ensures
        inv(serve_all(s, request, list).0),
    decreases list.len(),
{
    if list.len() > 0 {
        lemma_serve_all(s, request, list.drop_last());
        lemma_serve(serve_all(s, request, list.drop_last()).0, request, list.last());
    }
}

/// Delivering a started server's address to the connectors that waited for
/// it, one after the other, takes each off the pending list.
pub proof fn lemma_deliver_all(
    s: RouterModel,
    path: Seq<char>,
    address: Seq<char>,
    waiters: Seq<Seq<char>>,
    served: int,
)
    requires
        balanced(s, path, waiters),
        0 <= served <= waiters.len(),
    ensures
        balanced(
            serve_all(s, Request::Deliver { path, address }, waiters.take(served)).0,
            path,
            waiters.skip(served),
        ),
    decreases served,
{
    let request = Request::Deliver { path, address };
    if served == 0 {
        assert(waiters.skip(0) =~= waiters);
    } else {
        lemma_deliver_all(s, path, address, waiters, served - 1);
        let upto = waiters.take(served);
        assert(upto.drop_last() =~= waiters.take(served - 1));
        let before = serve_all(s, request, waiters.take(served - 1)).0;
        let pending = waiters.skip(served - 1);
        lemma_display(
            before,
            waiters[served - 1],
            ContentModel::LocalPath(path),
            address,
            path,
            pending,
        );
        assert(pending.drop_first() =~= waiters.skip(served));
    }
}

/// Every transition of the router keeps its invariant.
pub proof fn lemma_step(s: RouterModel, event: EventModel)
    requires
        inv(s),
    ensures
        inv(step(s, event).0),
{
    match event {
        EventModel::Command(CommandModel::SetUrl { monitor, url }) => {
            lemma_serve_all(s, Request::Url(url), targets(s.snapshot, monitor));
        },
        EventModel::Command(CommandModel::SetPath { monitor, path }) => {
            lemma_serve_all(s, Request::Path(path), targets(s.snapshot, monitor));
        },
        EventModel::ServerStarted { path, address } => {
            let waiters = waiting(s.leases, path);
            let started = RouterModel {
                snapshot: s.snapshot,
                sessions: s.sessions,
                leases: started_spec(s.leases, path, address),
            };
            if starting(s.leases, path) {
                assert forall|p: Seq<char>, c: Seq<char>| ready(started.leases, p) implies #[trigger] holds(
                    started.leases,
                    p,
                    c,
                ) == pointing(started.sessions, c, p) + (if p == path {
                    waiters.to_multiset().count(c)
                } else {
                    0
                }) by {
                    if p != path {
                        assert(holds(s.leases, p, c) == pointing(s.sessions, c, p));
                    }
                }
                assert forall|p: Seq<char>, c: Seq<char>| #[trigger]
                    pointing(started.sessions, c, p) > 0 implies ready(started.leases, p) by {}
                lemma_deliver_all(started, path, address, waiters, waiters.len() as int);
                assert(waiters.take(waiters.len() as int) =~= waiters);
                assert(waiters.skip(waiters.len() as int) =~= Seq::<Seq<char>>::empty());
                lemma_inv_is_balanced(step(s, event).0, path);
            }
        },
        EventModel::ServerFailed { path } => {
            let after = step(s, event).0;
            if starting(s.leases, path) {
                assert forall|p: Seq<char>, c: Seq<char>| #[trigger]
                    pointing(after.sessions, c, p) > 0 implies ready(after.leases, p) by {}
                assert forall|p: Seq<char>, c: Seq<char>| ready(after.leases, p) implies #[trigger] holds(
                    after.leases,
                    p,
                    c,
                ) == pointing(after.sessions, c, p) by {
                    assert(holds(s.leases, p, c) == pointing(s.sessions, c, p));
                }
            }
        },
        EventModel::Topology(reported) => {
            lemma_first_occurrences(reported);
            let after = step(s, event).0;
            assert forall|p: Seq<char>, c: Seq<char>| ready(after.leases, p) implies #[trigger] holds(
                after.leases,
                p,
                c,
            ) == pointing(after.sessions, c, p) by {}
        },
    }
}

} // verus!
