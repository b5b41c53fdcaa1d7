//! Sets of names, kept as lists in which each name stands once.

use vstd::prelude::*;

#[allow(unused_imports)]
use crate::json::texts;
use crate::text::same_text;

verus! {

/// A list with a name at the end, where it did not have it.
pub open spec fn with_name(list: Seq<Seq<char>>, name: Seq<char>) -> Seq<Seq<char>> {
    if list.contains(name) {
        list
    } else {
        list.push(name)
    }
}

/// A list without a name.
pub open spec fn without_name(list: Seq<Seq<char>>, name: Seq<char>) -> Seq<Seq<char>>
    decreases list.len(),
{
    if list.len() == 0 {
        list
    } else if list.last() == name {
        without_name(list.drop_last(), name)
    } else {
        without_name(list.drop_last(), name).push(list.last())
    }
}

/// A list with a name has that name, and the others that it had.
pub proof fn lemma_with_name(list: Seq<Seq<char>>, name: Seq<char>)
    ensures
        forall|other: Seq<char>| #[trigger]
            with_name(list, name).contains(other) <==> list.contains(other) || other == name,
{
    let all = with_name(list, name);
    assert forall|other: Seq<char>| #[trigger] all.contains(other) <==> list.contains(other)
        || other == name by {
        if !list.contains(name) {
            if list.contains(other) {
                let i = choose|i: int| 0 <= i < list.len() && list[i] == other;
                assert(all[i] == other);
            }
            assert(all[list.len() as int] == name);
        }
    }
}

/// A list without a name has the others that it had.
pub proof fn lemma_without_name(list: Seq<Seq<char>>, name: Seq<char>)
    ensures
        forall|other: Seq<char>| #[trigger]
            without_name(list, name).contains(other) <==> list.contains(other) && other != name,
    decreases list.len(),
{
    let rest = without_name(list, name);
    if list.len() > 0 {
        let before = list.drop_last();
        lemma_without_name(before, name);
        let less = without_name(before, name);
        assert forall|other: Seq<char>| #[trigger] rest.contains(other) <==> list.contains(other)
            && other != name by {
            assert(less.contains(other) <==> before.contains(other) && other != name);
            if list.contains(other) {
                let i = choose|i: int| 0 <= i < list.len() && list[i] == other;
                if i < before.len() {
                    assert(before[i] == other);
                }
            }
            if before.contains(other) {
                let i = choose|i: int| 0 <= i < before.len() && before[i] == other;
                assert(list[i] == other);
            }
            assert(list[list.len() - 1] == list.last());
            if list.last() != name {
                assert(rest == less.push(list.last()));
                assert(rest[less.len() as int] == list.last());
                if less.contains(other) {
                    let i = choose|i: int| 0 <= i < less.len() && less[i] == other;
                    assert(rest[i] == other);
                }
                if rest.contains(other) && other != list.last() {
                    let i = choose|i: int| 0 <= i < rest.len() && rest[i] == other;
                    assert(less[i] == other);
                }
            }
        }
    }
}

/// Whether a name is in a list.
pub fn contains_name(list: &Vec<String>, name: &str) -> (found: bool)
    ensures
        found == texts(list@).contains(name@),
{
    let mut i: usize = 0;
    while i < list.len()
        invariant
            i <= list@.len(),
            forall|k: int| 0 <= k < i ==> #[trigger] texts(list@)[k] != name@,
        decreases list@.len() - i,
    {
        if same_text(list[i].as_str(), name) {
            proof {
                assert(texts(list@)[i as int] == name@);
            }
            return true;
        }
        i = i + 1;
    }
    false
}

/// Adds a name at the end of a list that does not have it.
pub fn add_name(list: &mut Vec<String>, name: &str)
    ensures
        texts(final(list)@) == with_name(texts(old(list)@), name@),
{
    if !contains_name(list, name) {
        list.push(name.to_owned());
        proof {
            assert(texts(list@) =~= texts(old(list)@).push(name@));
        }
    }
}

/// Takes a name out of a list.
pub fn drop_name(list: &mut Vec<String>, name: &str)
    ensures
        texts(final(list)@) == without_name(texts(old(list)@), name@),
{
    let ghost all = texts(list@);
    let mut rest: Vec<String> = Vec::new();
    let mut i: usize = 0;
    proof {
        assert(texts(rest@) =~= Seq::<Seq<char>>::empty());
        assert(all.take(0) =~= Seq::<Seq<char>>::empty());
    }
    while i < list.len()
        invariant
            i <= list@.len(),
            all == texts(list@),
            texts(rest@) == without_name(all.take(i as int), name@),
        decreases list@.len() - i,
    {
        let ghost before = rest@;
        proof {
            assert(all.take(i + 1).drop_last() =~= all.take(i as int));
        }
        if !same_text(list[i].as_str(), name) {
            rest.push(list[i].clone());
            proof {
                assert(texts(rest@) =~= texts(before).push(all[i as int]));
            }
        }
        i = i + 1;
    }
    proof {
        assert(all.take(i as int) =~= all);
    }
    *list = rest;
}

} // verus!
