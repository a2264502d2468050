//! The registry of local content servers, one lease per filesystem path.
//!
//! A lease counts the connectors that hold it. It is created by the first
//! acquisition of its path, while its server is still starting, and removed
//! when its last holder lets go or when its server fails to start.

use crate::assoc;
use crate::names::{copy_names, first_position, names};
use vstd::prelude::*;

verus! {

/// A lease as contracts see it.
pub struct LeaseModel {
    /// Where the server can be reached; `None` while it is starting.
    pub address: Option<Seq<char>>,
    /// The connectors attached to the lease, in the order they acquired it.
    /// A connector occurs once for each acquisition it has not released.
    pub holders: Seq<Seq<char>>,
}

/// The lease registry as contracts see it: at most one lease per path.
pub type Leases = Map<Seq<char>, LeaseModel>;

/// `path` has a lease whose server is still starting.
pub open spec fn starting(leases: Leases, path: Seq<char>) -> bool {
    leases.contains_key(path) && leases[path].address is None
}

/// `path` has a lease whose server accepts requests.
pub open spec fn ready(leases: Leases, path: Seq<char>) -> bool {
    leases.contains_key(path) && leases[path].address is Some
}

/// The reference count of `path`: the number of holders of its lease, and
/// zero where it has none.
pub open spec fn count_of(leases: Leases, path: Seq<char>) -> nat {
    if leases.contains_key(path) {
        leases[path].holders.len()
    } else {
        0
    }
}

/// The registry after `connector` acquires `path`: attached to the lease that
/// exists, or to a new one that is starting.
pub open spec fn acquire_spec(leases: Leases, path: Seq<char>, connector: Seq<char>) -> Leases {
    if leases.contains_key(path) {
        leases.insert(
            path,
            LeaseModel {
                address: leases[path].address,
                holders: leases[path].holders.push(connector),
            },
        )
    } else {
        leases.insert(path, LeaseModel { address: None, holders: seq![connector] })
    }
}

/// The registry after `connector` releases `path`: one attachment fewer, and
/// no lease once none is left. Unchanged where `connector` holds no lease of
/// `path`.
pub open spec fn release_spec(leases: Leases, path: Seq<char>, connector: Seq<char>) -> Leases {
    if leases.contains_key(path) && leases[path].holders.contains(connector) {
        let rest = leases[path].holders.remove_value(connector);
        if rest.len() == 0 {
            leases.remove(path)
        } else {
            leases.insert(path, LeaseModel { address: leases[path].address, holders: rest })
        }
    } else {
        leases
    }
}

/// The registry after the server of `path` reported `address`. Only a lease
/// that is starting takes an address.
pub open spec fn started_spec(leases: Leases, path: Seq<char>, address: Seq<char>) -> Leases {
    if starting(leases, path) {
        leases.insert(
            path,
            LeaseModel { address: Some(address), holders: leases[path].holders },
        )
    } else {
        leases
    }
}

/// The registry after the server of `path` failed to start: a lease that was
/// starting is gone.
pub open spec fn failed_spec(leases: Leases, path: Seq<char>) -> Leases {
    if starting(leases, path) {
        leases.remove(path)
    } else {
        leases
    }
}

/// The connectors that wait for the server of `path` to start.
pub open spec fn waiting(leases: Leases, path: Seq<char>) -> Seq<Seq<char>> {
    if starting(leases, path) {
        leases[path].holders
    } else {
        Seq::empty()
    }
}

/// What an acquisition found.
#[derive(Debug, PartialEq, Eq)]
pub enum Acquired {
    /// The lease existed and its server runs at this address.
    Ready(String),
    /// The lease existed and its server is still starting; the address
    /// arrives with the first acquirer's.
    Joined,
    /// There was no lease. A new one awaits its server, which the caller
    /// has to start.
    Started,
}

struct Lease {
    path: String,
    address: Option<String>,
    holders: Vec<String>,
}

impl Lease {
    spec fn model(&self) -> LeaseModel {
        LeaseModel {
            address: match self.address {
                Some(a) => Some(a@),
                None => None,
            },
            holders: names(self.holders@),
        }
    }
}

/// The registry of leases.
pub struct LeaseManager {
    leases: Vec<Lease>,
}

impl View for LeaseManager {
    type V = Leases;

    closed spec fn view(&self) -> Leases {
        assoc::as_map(self.entries())
    }
}

impl LeaseManager {
    spec fn entries(&self) -> Seq<(Seq<char>, LeaseModel)> {
        Seq::new(
            self.leases.len() as nat,
            |i: int| (self.leases[i].path@, self.leases[i].model()),
        )
    }

    /// No path has two leases.
    pub closed spec fn wf(&self) -> bool {
        assoc::distinct(self.entries())
    }

    /// A registry without leases.
    pub fn new() -> (manager: LeaseManager)
        ensures
            manager.wf(),
            manager@ == Map::<Seq<char>, LeaseModel>::empty(),
    {
        let manager = LeaseManager { leases: Vec::new() };
        manager
    }

    /// The number of leases.
    pub fn len(&self) -> (n: usize)
        requires
            self.wf(),
        ensures
            self@.dom().finite(),
            n == self@.dom().len(),
    {
        proof {
            assoc::lemma_finite(self.entries());
        }
        self.leases.len()
    }

    fn find(&self, path: &String) -> (at: Option<usize>)
        requires
            self.wf(),
        ensures
            match at {
                Some(i) => i < self.leases.len() && self.leases[i as int].path@ == path@
                    && self@.contains_key(path@) && self@[path@] == self.leases[i as int].model(),
                None => !self@.contains_key(path@),
            },
    {
        let mut i: usize = 0;
        while i < self.leases.len()
            invariant
                self.wf(),
                i <= self.leases.len(),
                forall|j: int| 0 <= j < i ==> self.leases[j].path@ != path@,
            decreases self.leases.len() - i,
        {
            if self.leases[i].path == *path {
                proof {
                    assoc::lemma_entry(self.entries(), i as int);
                }
                return Some(i);
            }
            i += 1;
        }
        proof {
            if self@.contains_key(path@) {
                assoc::lemma_position(self.entries(), path@);
            }
        }
        None
    }

    fn take(&mut self, i: usize) -> (lease: Lease)
        requires
            old(self).wf(),
            i < old(self).leases.len(),
        ensures
            final(self).wf(),
            lease == old(self).leases[i as int],
            old(self)@.contains_key(lease.path@),
            old(self)@[lease.path@] == lease.model(),
            final(self)@ == old(self)@.remove(lease.path@),
    {
        let ghost before = self.entries();
        proof {
            assoc::lemma_entry(before, i as int);
            assoc::lemma_remove(before, i as int);
        }
        let lease = self.leases.remove(i);
        assert(self.entries() =~= before.remove(i as int));
        lease
    }

    fn put(&mut self, lease: Lease)
        requires
            old(self).wf(),
            !old(self)@.contains_key(lease.path@),
        ensures
            final(self).wf(),
            final(self)@ == old(self)@.insert(lease.path@, lease.model()),
    {
        let ghost before = self.entries();
        proof {
            assoc::lemma_push(before, lease.path@, lease.model());
        }
        self.leases.push(lease);
        assert(self.entries() =~= before.push((lease.path@, lease.model())));
    }

    /// Attaches `connector` to the lease of `path`, creating the lease where
    /// there is none, and says what it found.
    pub fn acquire(&mut self, path: &str, connector: &str) -> (outcome: Acquired)
        requires
            old(self).wf(),
        ensures
            final(self).wf(),
            final(self)@ == acquire_spec(old(self)@, path@, connector@),
            match outcome {
                Acquired::Ready(address) => ready(old(self)@, path@) && old(self)@[path@].address
                    == Some(address@),
                Acquired::Joined => starting(old(self)@, path@),
                Acquired::Started => !old(self)@.contains_key(path@),
            },
    {
        let key = path.to_owned();
        match self.find(&key) {
            Some(i) => {
                let mut lease = self.take(i);
                let ghost held = names(lease.holders@);
                lease.holders.push(connector.to_owned());
                assert(names(lease.holders@) =~= held.push(connector@));
                let outcome = match &lease.address {
                    Some(address) => Acquired::Ready(address.clone()),
                    None => Acquired::Joined,
                };
                self.put(lease);
                outcome
            },
            None => {
                let mut holders: Vec<String> = Vec::new();
                holders.push(connector.to_owned());
                assert(names(holders@) =~= seq![connector@]);
                self.put(Lease { path: key, address: None, holders });
                Acquired::Started
            },
        }
    }

    /// Detaches `connector` from the lease of `path` and removes the lease
    /// with its last holder. Says whether the lease was removed, in which
    /// case its server has to be shut down. Where `connector` holds no lease
    /// of `path`, nothing happens.
    pub fn release(&mut self, path: &str, connector: &str) -> (torn_down: bool)
        requires
            old(self).wf(),
        ensures
            final(self).wf(),
            final(self)@ == release_spec(old(self)@, path@, connector@),
            torn_down == (old(self)@.contains_key(path@) && !final(self)@.contains_key(path@)),
    {
        let key = path.to_owned();
        let who = connector.to_owned();
        match self.find(&key) {
            None => false,
            Some(i) => {
                match first_position(&self.leases[i].holders, &who) {
                    None => false,
                    Some(h) => {
                        let mut lease = self.take(i);
                        let ghost held = names(lease.holders@);
                        lease.holders.remove(h);
                        assert(names(lease.holders@) =~= held.remove(h as int));
                        if lease.holders.len() == 0 {
                            true
                        } else {
                            self.put(lease);
                            false
                        }
                    },
                }
            },
        }
    }

    /// Records that the server of `path` accepts requests at `address`, and
    /// hands back the connectors that waited for it, in the order they
    /// acquired the lease. Where no lease of `path` is starting, nothing
    /// happens and nobody waited.
    pub fn server_started(&mut self, path: &str, address: &str) -> (waiters: Vec<String>)
        requires
            old(self).wf(),
        ensures
            final(self).wf(),
            final(self)@ == started_spec(old(self)@, path@, address@),
            names(waiters@) == waiting(old(self)@, path@),
    {
        let key = path.to_owned();
        match self.find(&key) {
            None => Vec::new(),
            Some(i) => {
                if self.leases[i].address.is_some() {
                    Vec::new()
                } else {
                    let mut lease = self.take(i);
                    let waiters = copy_names(&lease.holders);
                    lease.address = Some(address.to_owned());
                    self.put(lease);
                    waiters
                }
            },
        }
    }

    /// Records that the server of `path` could not be started: the lease
    /// that waited for it is removed, and the connectors that waited are
    /// handed back. Where no lease of `path` is starting, nothing happens.
    pub fn server_failed(&mut self, path: &str) -> (waiters: Vec<String>)
        requires
            old(self).wf(),
        ensures
            final(self).wf(),
            final(self)@ == failed_spec(old(self)@, path@),
            names(waiters@) == waiting(old(self)@, path@),
    {
        let key = path.to_owned();
        match self.find(&key) {
            None => Vec::new(),
            Some(i) => {
                if self.leases[i].address.is_some() {
                    Vec::new()
                } else {
                    let lease = self.take(i);
                    lease.holders
                }
            },
        }
    }

    /// The reference count of `path`.
    pub fn count(&self, path: &str) -> (n: usize)
        requires
            self.wf(),
        ensures
            n == count_of(self@, path@),
    {
        let key = path.to_owned();
        match self.find(&key) {
            None => 0,
            Some(i) => self.leases[i].holders.len(),
        }
    }

    /// The address at which `path` is served, once its server runs.
    pub fn address(&self, path: &str) -> (address: Option<String>)
        requires
            self.wf(),
        ensures
            match address {
                Some(a) => ready(self@, path@) && self@[path@].address == Some(a@),
                None => !ready(self@, path@),
            },
    {
        let key = path.to_owned();
        match self.find(&key) {
            None => None,
            Some(i) => match &self.leases[i].address {
                Some(a) => Some(a.clone()),
                None => None,
            },
        }
    }

    /// The connectors attached to the lease of `path`, in the order they
    /// acquired it; none where `path` has no lease.
    pub fn holders(&self, path: &str) -> (holders: Vec<String>)
        requires
            self.wf(),
        ensures
            names(holders@) == if self@.contains_key(path@) {
                self@[path@].holders
            } else {
                Seq::empty()
            },
    {
        let key = path.to_owned();
        match self.find(&key) {
            None => Vec::new(),
            Some(i) => copy_names(&self.leases[i].holders),
        }
    }
}

} // verus!
