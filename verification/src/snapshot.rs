//! The latest known set of connectors.

use crate::names::{copy_names, first_position, names};
use vstd::prelude::*;

verus! {

/// `list` without repetitions: each name stays where it first occurs.
pub open spec fn first_occurrences(list: Seq<Seq<char>>) -> Seq<Seq<char>>
    decreases list.len(),
{
    if list.len() == 0 {
        Seq::empty()
    } else {
        let front = first_occurrences(list.drop_last());
        if front.contains(list.last()) {
            front
        } else {
            front.push(list.last())
        }
    }
}

/// `first_occurrences` keeps exactly the names of the list, each once.
pub proof fn lemma_first_occurrences(list: Seq<Seq<char>>)
    ensures
        first_occurrences(list).no_duplicates(),
        first_occurrences(list).to_set() == list.to_set(),
        list.no_duplicates() ==> first_occurrences(list) == list,
    decreases list.len(),
{
    if list.len() > 0 {
        let front_list = list.drop_last();
        let front = first_occurrences(front_list);
        let last = list.last();
        lemma_first_occurrences(front_list);
        assert(list =~= front_list.push(last));
        assert forall|name: Seq<char>| list.to_set().contains(name) <==> (front_list.to_set().contains(
            name,
        ) || name == last) by {
            if list.contains(name) {
                let i = list.index_of(name);
                if i < front_list.len() {
                    assert(front_list[i] == name);
                }
            }
            if front_list.contains(name) {
                let i = front_list.index_of(name);
                assert(list[i] == name);
            }
            if name == last {
                assert(list[list.len() - 1] == name);
            }
        }
        if front.contains(last) {
            assert(front.to_set().contains(last));
            assert(first_occurrences(list).to_set() =~= list.to_set());
        } else {
            let all = front.push(last);
            assert forall|name: Seq<char>| all.to_set().contains(name) <==> (front.to_set().contains(
                name,
            ) || name == last) by {
                if all.contains(name) {
                    let i = all.index_of(name);
                    if i < front.len() {
                        assert(front[i] == name);
                    }
                }
                if front.contains(name) {
                    let i = front.index_of(name);
                    assert(all[i] == name);
                }
                if name == last {
                    assert(all[all.len() - 1] == name);
                }
            }
            assert(all.to_set() =~= list.to_set());
            assert forall|i: int, j: int| 0 <= i < all.len() && 0 <= j < all.len() && i != j implies all[i]
                != all[j] by {
                if i < front.len() {
                    assert(front.contains(all[i]));
                }
                if j < front.len() {
                    assert(front.contains(all[j]));
                }
            }
        }
        if list.no_duplicates() {
            assert(front_list.no_duplicates());
            if front.contains(last) {
                let i = front.index_of(last);
                assert(list[i] == last);
                assert(false);
            }
        }
    } else {
        assert(first_occurrences(list).to_set() =~= list.to_set());
        assert(first_occurrences(list) =~= list);
    }
}

/// The connectors that the rendering front end last reported. A snapshot is
/// replaced as a whole and never changed in place.
pub struct ConnectorSnapshot {
    connectors: Vec<String>,
}

impl View for ConnectorSnapshot {
    type V = Seq<Seq<char>>;

    closed spec fn view(&self) -> Seq<Seq<char>> {
        names(self.connectors@)
    }
}

impl ConnectorSnapshot {
    /// No connector is listed twice.
    pub open spec fn wf(&self) -> bool {
        self@.no_duplicates()
    }

    /// The snapshot of a session that has heard of no connector yet.
    pub fn empty() -> (snapshot: ConnectorSnapshot)
        ensures
            snapshot.wf(),
            snapshot@ == Seq::<Seq<char>>::empty(),
    {
        let snapshot = ConnectorSnapshot { connectors: Vec::new() };
        assert(snapshot@ =~= Seq::<Seq<char>>::empty());
        snapshot
    }

    /// The snapshot that holds the connectors of `reported`, each once, in
    /// the order in which they first occur.
    pub fn new(reported: Vec<String>) -> (snapshot: ConnectorSnapshot)
        ensures
            snapshot.wf(),
            snapshot@ == first_occurrences(names(reported@)),
            snapshot@.to_set() == names(reported@).to_set(),
    {
        let mut connectors: Vec<String> = Vec::new();
        let mut i: usize = 0;
        assert(names(reported@).take(0) =~= Seq::<Seq<char>>::empty());
        assert(names(connectors@) =~= Seq::<Seq<char>>::empty());
        while i < reported.len()
            invariant
                i <= reported.len(),
                names(connectors@) == first_occurrences(names(reported@).take(i as int)),
            decreases reported.len() - i,
        {
            let ghost seen = names(connectors@);
            let ghost upto = names(reported@).take(i as int + 1);
            assert(upto.drop_last() =~= names(reported@).take(i as int));
            assert(upto.last() == reported[i as int]@);
            if first_position(&connectors, &reported[i]).is_none() {
                connectors.push(reported[i].clone());
                assert(names(connectors@) =~= seen.push(reported[i as int]@));
            }
            i += 1;
        }
        assert(names(reported@).take(reported.len() as int) =~= names(reported@));
        proof {
            lemma_first_occurrences(names(reported@));
        }
        ConnectorSnapshot { connectors }
    }

    /// The number of connectors.
    pub fn len(&self) -> (n: usize)
        ensures
            n == self@.len(),
    {
        self.connectors.len()
    }

    /// Whether `connector` is one of the snapshot's.
    pub fn contains(&self, connector: &str) -> (found: bool)
        ensures
            found == self@.contains(connector@),
    {
        let key = connector.to_owned();
        first_position(&self.connectors, &key).is_some()
    }

    /// A copy of the connectors, in the snapshot's order.
    pub fn connectors(&self) -> (list: Vec<String>)
        ensures
            names(list@) == self@,
    {
        copy_names(&self.connectors)
    }
}

} // verus!
