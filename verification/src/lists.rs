//! Lists that keep what is there and lists of lists laid end to end.

use vstd::prelude::*;

verus! {

/// The entries that are there, in order.
pub open spec fn somes<T>(list: Seq<Option<T>>) -> Seq<T>
    decreases list.len(),
{
    if list.len() == 0 {
        Seq::empty()
    } else {
        match list.last() {
            Some(entry) => somes(list.drop_last()).push(entry),
            None => somes(list.drop_last()),
        }
    }
}

/// Lists laid end to end.
pub open spec fn joined<T>(lists: Seq<Seq<T>>) -> Seq<T>
    decreases lists.len(),
{
    if lists.len() == 0 {
        Seq::empty()
    } else {
        joined(lists.drop_last()) + lists.last()
    }
}

/// One entry more is kept if it is there.
pub proof fn lemma_somes_next<T>(list: Seq<Option<T>>, i: int)
    requires
        0 <= i < list.len(),
    ensures
        somes(list.take(i + 1)) == match list[i] {
            Some(entry) => somes(list.take(i)).push(entry),
            None => somes(list.take(i)),
        },
{
    assert(list.take(i + 1).drop_last() =~= list.take(i));
}

/// One list more goes to the end.
pub proof fn lemma_joined_next<T>(lists: Seq<Seq<T>>, i: int)
    requires
        0 <= i < lists.len(),
    ensures
        joined(lists.take(i + 1)) == joined(lists.take(i)) + lists[i],
{
    assert(lists.take(i + 1).drop_last() =~= lists.take(i));
}

/// Lists laid end to end, and others behind them.
pub proof fn lemma_joined_concat<T>(a: Seq<Seq<T>>, b: Seq<Seq<T>>)
    ensures
        joined(a + b) == joined(a) + joined(b),
    decreases b.len(),
{
    if b.len() == 0 {
        assert(a + b =~= a);
        assert(joined(a) + joined(b) =~= joined(a));
    } else {
        lemma_joined_concat(a, b.drop_last());
        assert((a + b).drop_last() =~= a + b.drop_last());
        assert(joined(a) + joined(b.drop_last()) + b.last() =~= joined(a) + (joined(b.drop_last())
            + b.last()));
    }
}

/// Every kept entry was there.
pub proof fn lemma_somes_from<T>(list: Seq<Option<T>>, k: int)
    requires
        0 <= k < somes(list).len(),
    ensures
        exists|i: int| 0 <= i < list.len() && list[i] == Some(#[trigger] somes(list)[k]),
    decreases list.len(),
{
    if list.len() > 0 {
        let before = list.drop_last();
        match list.last() {
            Some(entry) => {
                if k == somes(before).len() {
                    assert(list[list.len() - 1] == Some(somes(list)[k]));
                } else {
                    lemma_somes_from(before, k);
                    let i = choose|i: int| 0 <= i < before.len() && before[i] == Some(
                        #[trigger] somes(before)[k],
                    );
                    assert(list[i] == Some(somes(list)[k]));
                }
            },
            None => {
                lemma_somes_from(before, k);
                let i = choose|i: int| 0 <= i < before.len() && before[i] == Some(
                    #[trigger] somes(before)[k],
                );
                assert(list[i] == Some(somes(list)[k]));
            },
        }
    }
}

} // verus!
