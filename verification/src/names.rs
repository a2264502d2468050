//! Lists of names (connectors, paths) and how contracts read them.

use vstd::prelude::*;

verus! {

/// A list of strings as the sequence of their texts.
pub open spec fn names(list: Seq<String>) -> Seq<Seq<char>> {
    list.map_values(|s: String| s@)
}

/// The index at which `name` first occurs in `list`, if it occurs at all.
pub fn first_position(list: &Vec<String>, name: &String) -> (at: Option<usize>)
    ensures
        match at {
            Some(i) => names(list@).index_of_first(name@) == Some(i as int),
            None => names(list@).index_of_first(name@) is None,
        },
        at is Some <==> names(list@).contains(name@),
        at matches Some(i) ==> i < list.len() && names(list@)[i as int] == name@,
{
    let ghost texts = names(list@);
    let mut i: usize = 0;
    while i < list.len()
        invariant
            i <= list.len(),
            texts == names(list@),
            forall|j: int| 0 <= j < i ==> texts[j] != name@,
        decreases list.len() - i,
    {
        if list[i] == *name {
            proof {
                assert(texts[i as int] == name@);
                texts.index_of_first_ensures(name@);
            }
            return Some(i);
        }
        i += 1;
    }
    proof {
        texts.index_of_first_ensures(name@);
    }
    None
}

/// A copy of `list`, name by name.
pub fn copy_names(list: &Vec<String>) -> (copy: Vec<String>)
    ensures
        names(copy@) == names(list@),
{
    let mut copy: Vec<String> = Vec::new();
    let mut i: usize = 0;
    while i < list.len()
        invariant
            i <= list.len(),
            names(copy@) == names(list@).take(i as int),
        decreases list.len() - i,
    {
        let ghost before = copy@;
        let name = list[i].clone();
        copy.push(name);
        assert(names(copy@) =~= names(before).push(name@));
        i += 1;
    }
    copy
}

} // verus!
