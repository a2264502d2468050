//! What each connector currently displays.

use crate::assoc;
use vstd::prelude::*;

verus! {

/// The content a connector displays.
#[derive(Debug, PartialEq, Eq)]
pub enum ContentRef {
    /// Nothing has been assigned yet.
    Unset,
    /// A remote address, handed to the renderer as it is.
    Url(String),
    /// A path on the local filesystem, served by a leased local server.
    LocalPath(String),
}

/// A content reference as contracts see it.
pub enum ContentModel {
    Unset,
    Url(Seq<char>),
    LocalPath(Seq<char>),
}

impl View for ContentRef {
    type V = ContentModel;

    open spec fn view(&self) -> ContentModel {
        match self {
            ContentRef::Unset => ContentModel::Unset,
            ContentRef::Url(u) => ContentModel::Url(u@),
            ContentRef::LocalPath(p) => ContentModel::LocalPath(p@),
        }
    }
}

impl Clone for ContentRef {
    fn clone(&self) -> (copy: ContentRef)
        ensures
            copy@ == self@,
    {
        match self {
            ContentRef::Unset => ContentRef::Unset,
            ContentRef::Url(u) => ContentRef::Url(u.clone()),
            ContentRef::LocalPath(p) => ContentRef::LocalPath(p.clone()),
        }
    }
}

/// What `connector` displays under the session map `sessions`: its entry, or
/// `Unset` while it has none.
pub open spec fn current(
    sessions: Map<Seq<char>, ContentModel>,
    connector: Seq<char>,
) -> ContentModel {
    if sessions.contains_key(connector) {
        sessions[connector]
    } else {
        ContentModel::Unset
    }
}

/// One connector's record.
struct SessionEntry {
    connector: String,
    content: ContentRef,
}

/// The per-connector record of displayed content. An entry appears the first
/// time a connector is assigned content and is never dropped.
pub struct SessionState {
    entries: Vec<SessionEntry>,
}

impl SessionState {
    spec fn entries(&self) -> Seq<(Seq<char>, ContentModel)> {
        Seq::new(
            self.entries.len() as nat,
            |i: int| (self.entries[i].connector@, self.entries[i].content@),
        )
    }

    /// No connector has two entries.
    pub closed spec fn wf(&self) -> bool {
        assoc::distinct(self.entries())
    }

    /// The number of connectors that have an entry.
    pub fn len(&self) -> (n: usize)
        requires
            self.wf(),
        ensures
            n == self@.dom().len(),
            self@.dom().finite(),
    {
        proof {
            assoc::lemma_finite(self.entries());
        }
        self.entries.len()
    }

    /// A session state in which no connector has been assigned anything.
    pub fn new() -> (state: SessionState)
        ensures
            state.wf(),
            state@ == Map::<Seq<char>, ContentModel>::empty(),
    {
        let state = SessionState { entries: Vec::new() };
        state
    }

    fn find(&self, connector: &String) -> (at: Option<usize>)
        requires
            self.wf(),
        ensures
            match at {
                Some(i) => i < self.entries.len() && self.entries[i as int].connector@
                    == connector@,
                None => !self@.contains_key(connector@),
            },
    {
        let mut i: usize = 0;
        while i < self.entries.len()
            invariant
                i <= self.entries.len(),
                forall|j: int| 0 <= j < i ==> self.entries[j].connector@ != connector@,
            decreases self.entries.len() - i,
        {
            if self.entries[i].connector == *connector {
                return Some(i);
            }
            i += 1;
        }
        proof {
            if self@.contains_key(connector@) {
                assoc::lemma_position(self.entries(), connector@);
            }
        }
        None
    }

    /// What `connector` displays now.
    pub fn get(&self, connector: &str) -> (content: ContentRef)
        requires
            self.wf(),
        ensures
            content@ == current(self@, connector@),
    {
        let key = connector.to_owned();
        match self.find(&key) {
            Some(i) => {
                proof {
                    assoc::lemma_entry(self.entries(), i as int);
                }
                self.entries[i].content.clone()
            },
            None => ContentRef::Unset,
        }
    }

    /// Replaces what `connector` displays and hands back what it displayed
    /// before. This is the only way an entry changes.
    pub fn set(&mut self, connector: &str, content: ContentRef) -> (previous: ContentRef)
        requires
            old(self).wf(),
        ensures
            final(self).wf(),
            final(self)@ == old(self)@.insert(connector@, content@),
            previous@ == current(old(self)@, connector@),
    {
        let key = connector.to_owned();
        let previous = match self.find(&key) {
            Some(i) => {
                proof {
                    assoc::lemma_entry(self.entries(), i as int);
                    assoc::lemma_remove(self.entries(), i as int);
                }
                let ghost before = self.entries();
                let entry = self.entries.remove(i);
                assert(self.entries() =~= before.remove(i as int));
                entry.content
            },
            None => ContentRef::Unset,
        };
        let ghost mid = self.entries();
        proof {
            assoc::lemma_push(mid, connector@, content@);
        }
        self.entries.push(SessionEntry { connector: key, content });
        assert(self.entries() =~= mid.push((connector@, content@)));
        previous
    }
}

impl View for SessionState {
    type V = Map<Seq<char>, ContentModel>;

    closed spec fn view(&self) -> Map<Seq<char>, ContentModel> {
        assoc::as_map(self.entries())
    }
}

} // verus!
