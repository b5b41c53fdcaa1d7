//! What holds of the lines that values are written on.

use vstd::prelude::*;

#[allow(unused_imports)]
use crate::json::{
    lemma_position, lemma_position_is, lookup, position, Fields, Json, JsonView, NumberView,
};
#[allow(unused_imports)]
use crate::render::{
    canonical, canonical_fields, canonical_items, in_order, lemma_lookup_placed, lemma_lookup_push,
    lemma_placed, number_read, placed, render_line, rendered,
};
#[allow(unused_imports)]
use crate::text::precedes;

verus! {

/// Whether a number is written as another one: as it is, but for an integer that
/// is not negative, which is unsigned, and one of another form, which is read.
pub open spec fn is_number_written(number: NumberView, out: NumberView) -> bool {
    match number {
        NumberView::Unsigned(n) => out == NumberView::Unsigned(n),
        NumberView::Negative(n) => if n < 0 {
            out == NumberView::Negative(n)
        } else {
            out matches NumberView::Unsigned(m) && m == n
        },
        NumberView::Other(text) => number_read(text) == Some(out),
    }
}

/// Whether a field is the first of its key.
pub open spec fn is_first(fields: Fields, i: int) -> bool {
    forall|k: int| 0 <= k < i ==> (#[trigger] fields[k]).0 != fields[i].0
}

/// Whether a value is written as another one: item by item, and for an object
/// with the first field of each key, in the order of the keys.
pub open spec fn is_written(value: JsonView, out: JsonView) -> bool
    decreases value,
{
    match value {
        JsonView::Number(number) => out matches JsonView::Number(kept) && is_number_written(
            number,
            kept,
        ),
        JsonView::Array(items) => out matches JsonView::Array(list) && list.len() == items.len()
            && forall|i: int| 0 <= i < items.len() ==> is_written(#[trigger] items[i], list[i]),
        JsonView::Object(fields) => out matches JsonView::Object(list) && (forall|i: int, j: int|
            0 <= i < j < list.len() ==> precedes((#[trigger] list[i]).0, (#[trigger] list[j]).0))
            && (forall|j: int|
            0 <= j < list.len() ==> exists|i: int|
                0 <= i < fields.len() && (#[trigger] fields[i]).0 == (#[trigger] list[j]).0)
            && forall|i: int|
            0 <= i < fields.len() && is_first(fields, i) ==> (lookup(list, fields[i].0) matches Some(
                kept,
            ) && is_written((#[trigger] fields[i]).1, kept)),
        _ => out == value,
    }
}

/// Whether a value has a number in it that cannot be read.
pub open spec fn is_unreadable(value: JsonView) -> bool
    decreases value,
{
    match value {
        JsonView::Number(NumberView::Other(text)) => number_read(text) is None,
        JsonView::Array(items) => exists|i: int|
            0 <= i < items.len() && is_unreadable(#[trigger] items[i]),
        JsonView::Object(fields) => exists|i: int|
            0 <= i < fields.len() && is_unreadable((#[trigger] fields[i]).1),
        _ => false,
    }
}

proof fn lemma_written(value: JsonView)
    ensures
        canonical(value) is None <==> is_unreadable(value),
        canonical(value) matches Some(out) ==> is_written(value, out),
    decreases value,
{
    match value {
        JsonView::Array(items) => {
            lemma_items(items);
        },
        JsonView::Object(fields) => {
            lemma_fields(fields);
            match canonical_fields(fields) {
                Some(list) => {
                    assert forall|i: int| 0 <= i < fields.len() && is_first(fields, i) implies (lookup(
                        list,
                        fields[i].0,
                    ) matches Some(kept) && is_written((#[trigger] fields[i]).1, kept)) by {
                        lemma_position_is(fields, fields[i].0, i);
                    }
                },
                None => {},
            }
        },
        _ => {},
    }
}

proof fn lemma_items(items: Seq<JsonView>)
    ensures
        canonical_items(items) is None <==> exists|i: int|
            0 <= i < items.len() && is_unreadable(#[trigger] items[i]),
        canonical_items(items) matches Some(list) ==> list.len() == items.len() && forall|i: int|
            0 <= i < items.len() ==> is_written(#[trigger] items[i], list[i]),
    decreases items,
{
    if items.len() > 0 {
        let before = items.drop_last();
        let n = items.len() - 1;
        lemma_items(before);
        lemma_written(items.last());
        assert(items[n] == items.last());
        assert forall|i: int| 0 <= i < n implies before[i] == #[trigger] items[i] by {}
        if canonical_items(before) is None {
            let i = choose|i: int| 0 <= i < before.len() && is_unreadable(#[trigger] before[i]);
            assert(is_unreadable(items[i]));
        }
        if exists|i: int| 0 <= i < items.len() && is_unreadable(#[trigger] items[i]) {
            let i = choose|i: int| 0 <= i < items.len() && is_unreadable(#[trigger] items[i]);
            if i < n {
                assert(is_unreadable(before[i]));
            }
        }
    }
}

proof fn lemma_fields(fields: Fields)
    ensures
        canonical_fields(fields) is None <==> exists|i: int|
            0 <= i < fields.len() && is_unreadable((#[trigger] fields[i]).1),
        canonical_fields(fields) matches Some(list) ==> {
            &&& in_order(list)
            &&& forall|j: int|
                0 <= j < list.len() ==> exists|i: int|
                    0 <= i < fields.len() && (#[trigger] fields[i]).0 == (#[trigger] list[j]).0
            &&& forall|key: Seq<char>| #[trigger]
                position(fields, key) < fields.len() ==> (lookup(list, key) matches Some(kept)
                    && is_written(fields[position(fields, key)].1, kept))
            &&& forall|key: Seq<char>|
                position(fields, key) >= fields.len() ==> #[trigger] lookup(list, key) is None
        },
    decreases fields,
{
    if fields.len() == 0 {
        assert forall|key: Seq<char>| position(fields, key) >= fields.len() implies #[trigger] lookup(
            fields,
            key,
        ) is None by {}
    } else {
        let before = fields.drop_last();
        let last = fields.last();
        let n = fields.len() - 1;
        lemma_fields(before);
        lemma_written(last.1);
        assert(before.push(last) =~= fields);
        assert(fields[n] == last);
        assert forall|i: int| 0 <= i < n implies before[i] == #[trigger] fields[i] by {}
        if canonical_fields(before) is None {
            let i = choose|i: int| 0 <= i < before.len() && is_unreadable((#[trigger] before[i]).1);
            assert(is_unreadable(fields[i].1));
        }
        if exists|i: int| 0 <= i < fields.len() && is_unreadable((#[trigger] fields[i]).1) {
            let i = choose|i: int| 0 <= i < fields.len() && is_unreadable((#[trigger] fields[i]).1);
            if i < n {
                assert(is_unreadable(before[i].1));
            }
        }
        match (canonical_fields(before), canonical(last.1)) {
            (Some(kept), Some(value)) => {
                let list = placed(kept, last.0, value);
                lemma_placed(kept, last.0, value);
                assert forall|j: int| 0 <= j < list.len() implies exists|i: int|
                    0 <= i < fields.len() && (#[trigger] fields[i]).0 == (#[trigger] list[j]).0 by {
                    if list[j].0 == last.0 {
                        assert(fields[n].0 == list[j].0);
                    } else {
                        let k = choose|k: int| 0 <= k < kept.len() && kept[k].0 == list[j].0;
                        let i = choose|i: int|
                            0 <= i < before.len() && (#[trigger] before[i]).0 == kept[k].0;
                        assert(fields[i].0 == list[j].0);
                    }
                }
                assert forall|key: Seq<char>| #[trigger]
                    position(fields, key) < fields.len() implies (lookup(list, key) matches Some(
                    kept,
                ) && is_written(fields[position(fields, key)].1, kept)) by {
                    lemma_lookup_placed(kept, last.0, value, key);
                    lemma_lookup_push(before, last, key);
                    lemma_position(before, key);
                    lemma_position(fields, key);
                    if position(before, key) < before.len() {
                        lemma_position_is(fields, key, position(before, key));
                    } else {
                        lemma_position_is(fields, key, n);
                        assert(lookup(kept, key) is None);
                    }
                }
                assert forall|key: Seq<char>|
                    position(fields, key) >= fields.len() implies #[trigger] lookup(
                    list,
                    key,
                ) is None by {
                    lemma_lookup_placed(kept, last.0, value, key);
                    lemma_position(fields, key);
                    lemma_position_is(before, key, n);
                    assert(fields[n].0 != key);
                    assert(lookup(kept, key) is None);
                }
            },
            _ => {},
        }
    }
}

/// A value is written on a line of its own: what it is written as, and a line
/// break. It cannot be written if and only if a number in it cannot be read.
pub proof fn a_value_is_written_on_a_line(json: Json, line: Option<String>)
    requires
        call_ensures(render_line, (&json,), line),
    ensures
        line is None <==> is_unreadable(json@),
        line matches Some(line) ==> {
            &&& exists|out: JsonView|
                is_written(json@, out) && line@ == (#[trigger] rendered(out)).push('\n')
            &&& !line@.drop_last().contains('\n')
        },
{
    lemma_written(json@);
    match line {
        Some(line) => {
            reveal_strlit("\n");
            let out = canonical(json@)->0;
            assert(line@ =~= rendered(out).push('\n'));
        },
        None => {},
    }
}

} // verus!
