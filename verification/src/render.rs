//! Writing JSON lines with `serde_json`.
//!
//! The fields of every object are put in the order of their names, one to a
//! name, which is the order in which `serde_json` keeps them. `serde_json` does
//! the writing.

use vstd::prelude::*;

#[allow(unused_imports)]
use crate::json::{
    jsons, lemma_array_model, lemma_field_smaller, lemma_item_smaller, lemma_object_model,
    lemma_position, lemma_position_is, lookup, pairs, position, Fields,
};
use crate::json::{Json, JsonNumber, JsonView, NumberView};
use crate::text::{same_text, text_before};
#[allow(unused_imports)]
use crate::text::{
    lemma_before_irreflexive, lemma_before_total, lemma_before_transitive, precedes,
};
use crate::wire::Layer;
#[allow(unused_imports)]
use crate::wire::{held, layer_held, number_held};

verus! {

/// What `to_string` makes of a `serde_json::Value`, by what the value contains.
pub uninterp spec fn rendered(value: JsonView) -> Seq<char>;

/// What `serde_json::from_str` reads in a text that should be a number, if it
/// is one.
pub uninterp spec fn number_read(text: Seq<char>) -> Option<NumberView>;

/// Whether the fields of an object are in the order of their names, one to a
/// name.
pub open spec fn in_order(fields: Fields) -> bool {
    forall|i: int, j: int|
        0 <= i < j < fields.len() ==> precedes((#[trigger] fields[i]).0, (#[trigger] fields[j]).0)
}

/// Fields in order, with one more in its place; where the name was there, the
/// field that was there stays.
pub open spec fn placed(fields: Fields, key: Seq<char>, value: JsonView) -> Fields
    decreases fields.len(),
{
    if fields.len() == 0 {
        seq![(key, value)]
    } else if fields.last().0 == key {
        fields
    } else if precedes(fields.last().0, key) {
        fields.push((key, value))
    } else {
        placed(fields.drop_last(), key, value).push(fields.last())
    }
}

/// A number as `serde_json` keeps it; none where it is not one that can be read.
pub open spec fn kept_number(number: NumberView) -> Option<NumberView> {
    match number {
        NumberView::Unsigned(_) => Some(number),
        NumberView::Negative(n) => if n < 0 {
            Some(number)
        } else {
            Some(NumberView::Unsigned(n as u64))
        },
        NumberView::Other(text) => number_read(text),
    }
}

/// A value as `serde_json` keeps it: the fields of its objects in order; none
/// where a number in it cannot be read.
pub open spec fn canonical(value: JsonView) -> Option<JsonView>
    decreases value,
{
    match value {
        JsonView::Number(number) => match kept_number(number) {
            Some(number) => Some(JsonView::Number(number)),
            None => None,
        },
        JsonView::Array(items) => match canonical_items(items) {
            Some(items) => Some(JsonView::Array(items)),
            None => None,
        },
        JsonView::Object(fields) => match canonical_fields(fields) {
            Some(fields) => Some(JsonView::Object(fields)),
            None => None,
        },
        _ => Some(value),
    }
}

/// The items of a list as `serde_json` keeps them.
pub open spec fn canonical_items(items: Seq<JsonView>) -> Option<Seq<JsonView>>
    decreases items,
{
    if items.len() == 0 {
        Some(items)
    } else {
        match (canonical_items(items.drop_last()), canonical(items.last())) {
            (Some(before), Some(last)) => Some(before.push(last)),
            _ => None,
        }
    }
}

/// The fields of an object as `serde_json` keeps them.
pub open spec fn canonical_fields(fields: Fields) -> Option<Fields>
    decreases fields,
{
    if fields.len() == 0 {
        Some(fields)
    } else {
        match (canonical_fields(fields.drop_last()), canonical(fields.last().1)) {
            (Some(before), Some(last)) => Some(placed(before, fields.last().0, last)),
            _ => None,
        }
    }
}

/// The fields of a layer.
pub open spec fn fields_held(fields: Seq<(String, serde_json::Value)>) -> Fields {
    fields.map_values(|field: (String, serde_json::Value)| (field.0@, held(field.1)))
}

/// The values of a list.
pub open spec fn values_held(items: Seq<serde_json::Value>) -> Seq<JsonView> {
    items.map_values(|item: serde_json::Value| held(item))
}

/// Makes a `serde_json::Value` of its parts. Trusted: the value contains what
/// the parts contain. The fields of an object have to be in order, one to a
/// name, so that `serde_json::Map` keeps them as they are.
#[verifier::external_body]
fn assemble(layer: Layer) -> (value: serde_json::Value)
    requires
        layer matches Layer::Object(fields) ==> in_order(fields_held(fields@)),
    ensures
        held(value) == layer_held(layer),
{
    match layer {
        Layer::Null => serde_json::Value::Null,
        Layer::Bool(b) => serde_json::Value::Bool(b),
        Layer::Number(number) => serde_json::Value::Number(number),
        Layer::Text(text) => serde_json::Value::String(text),
        Layer::Array(items) => serde_json::Value::Array(items),
        Layer::Object(fields) => serde_json::Value::Object(fields.into_iter().collect()),
    }
}

/// `serde_json::Number::from` at `u64`. Trusted: the number is that integer.
#[verifier::external_body]
fn number_from_u64(n: u64) -> (number: serde_json::Number)
    ensures
        number_held(number) == NumberView::Unsigned(n),
{
    serde_json::Number::from(n)
}

/// `serde_json::Number::from` at `i64`. Trusted: the number is that integer,
/// kept as an unsigned one where it is not negative.
#[verifier::external_body]
fn number_from_i64(n: i64) -> (number: serde_json::Number)
    ensures
        number_held(number) == (if n < 0 {
            NumberView::Negative(n)
        } else {
            NumberView::Unsigned(n as u64)
        }),
{
    serde_json::Number::from(n)
}

/// `serde_json::from_str`, at `serde_json::Number`. Trusted: the outcome is a
/// function of the text.
#[verifier::external_body]
fn number_from_str(text: &str) -> (number: Option<serde_json::Number>)
    ensures
        match number {
            Some(number) => number_read(text@) == Some(number_held(number)),
            None => number_read(text@) is None,
        },
{
    serde_json::from_str::<serde_json::Number>(text).ok()
}

/// `to_string` of a `serde_json::Value`. Trusted: the text is a function of
/// what the value contains, and has no line break in it: the compact form has
/// none of its own, and those in texts are escaped.
#[verifier::external_body]
fn value_text(value: &serde_json::Value) -> (text: String)
    ensures
        text@ == rendered(held(*value)),
        !text@.contains('\n'),
{
    value.to_string()
}

/// Fields in order stay in order, and only the key that is placed is new.
pub proof fn lemma_placed(fields: Fields, key: Seq<char>, value: JsonView)
    requires
        in_order(fields),
    ensures
        in_order(placed(fields, key, value)),
        forall|k: int|
            0 <= k < placed(fields, key, value).len() ==> (#[trigger] placed(
                fields,
                key,
                value,
            )[k]).0 == key || exists|i: int|
                0 <= i < fields.len() && fields[i].0 == placed(fields, key, value)[k].0,
    decreases fields.len(),
{
    let all = placed(fields, key, value);
    if fields.len() == 0 {
    } else if fields.last().0 == key {
        assert(forall|k: int| 0 <= k < fields.len() ==> fields[k].0 == all[k].0);
    } else if precedes(fields.last().0, key) {
        let n = fields.len() as int;
        assert forall|i: int, j: int| 0 <= i < j < all.len() implies precedes(
            (#[trigger] all[i]).0,
            (#[trigger] all[j]).0,
        ) by {
            if j == n && i < n - 1 {
                assert(precedes(fields[i].0, fields[n - 1].0));
                lemma_before_transitive(fields[i].0, fields[n - 1].0, key);
            }
        }
        assert forall|k: int| 0 <= k < all.len() implies (#[trigger] all[k]).0 == key || exists|
            i: int,
        |
            0 <= i < fields.len() && fields[i].0 == all[k].0 by {
            if k < n {
                assert(fields[k].0 == all[k].0);
            }
        }
    } else {
        let before = fields.drop_last();
        let last = fields.last();
        let rest = placed(before, key, value);
        assert(in_order(before)) by {
            assert forall|i: int, j: int| 0 <= i < j < before.len() implies precedes(
                (#[trigger] before[i]).0,
                (#[trigger] before[j]).0,
            ) by {
                assert(precedes(fields[i].0, fields[j].0));
            }
        }
        lemma_placed(before, key, value);
        lemma_before_total(last.0, key);
        assert forall|i: int, j: int| 0 <= i < j < all.len() implies precedes(
            (#[trigger] all[i]).0,
            (#[trigger] all[j]).0,
        ) by {
            if j == rest.len() {
                if rest[i].0 != key {
                    let m = choose|m: int| 0 <= m < before.len() && before[m].0 == rest[i].0;
                    assert(precedes(fields[m].0, fields[fields.len() - 1].0));
                }
            } else {
                assert(precedes(rest[i].0, rest[j].0));
            }
        }
        assert forall|k: int| 0 <= k < all.len() implies (#[trigger] all[k]).0 == key || exists|
            i: int,
        |
            0 <= i < fields.len() && fields[i].0 == all[k].0 by {
            if k == rest.len() {
                assert(fields[fields.len() - 1].0 == all[k].0);
            } else if rest[k].0 != key {
                let m = choose|m: int| 0 <= m < before.len() && before[m].0 == rest[k].0;
                assert(fields[m].0 == all[k].0);
            }
        }
    }
}

/// Puts a field in its place.
fn place(fields: &mut Vec<(String, serde_json::Value)>, key: String, value: serde_json::Value)
    ensures
        fields_held(final(fields)@) == placed(fields_held(old(fields)@), key@, held(value)),
{
    let ghost all = fields_held(fields@);
    let mut i: usize = fields.len();
    proof {
        assert(all.take(i as int) =~= all);
        assert(placed(all, key@, held(value)) =~= placed(all.take(i as int), key@, held(value))
            + all.skip(i as int));
    }
    while i > 0 && !text_before(fields[i - 1].0.as_str(), key.as_str())
        invariant
            i <= fields@.len(),
            fields@ == old(fields)@,
            all == fields_held(fields@),
            placed(all, key@, held(value)) == placed(all.take(i as int), key@, held(value))
                + all.skip(i as int),
        decreases i,
    {
        let ghost part = all.take(i as int);
        proof {
            assert(part.last() == all[i - 1]);
            assert(part.drop_last() =~= all.take(i - 1));
        }
        if same_text(fields[i - 1].0.as_str(), key.as_str()) {
            proof {
                assert(part + all.skip(i as int) =~= all);
            }
            return;
        }
        proof {
            assert(placed(part, key@, held(value)) + all.skip(i as int) =~= placed(
                all.take(i - 1),
                key@,
                held(value),
            ) + all.skip(i - 1));
        }
        i = i - 1;
    }
    let ghost before = fields@;
    proof {
        let part = all.take(i as int);
        if i > 0 {
            assert(part.last() == all[i - 1]);
            lemma_before_irreflexive(key@);
        }
        assert(placed(part, key@, held(value)) =~= part.push((key@, held(value))));
    }
    fields.insert(i, (key, value));
    proof {
        assert(fields_held(fields@) =~= all.take(i as int).push((key@, held(value))) + all.skip(
            i as int,
        ));
    }
}

/// A number as `serde_json` keeps it.
fn to_number(number: &JsonNumber) -> (result: Option<serde_json::Number>)
    ensures
        match result {
            Some(result) => kept_number(number@) == Some(number_held(result)),
            None => kept_number(number@) is None,
        },
{
    match number {
        JsonNumber::Unsigned(n) => Some(number_from_u64(*n)),
        JsonNumber::Negative(n) => Some(number_from_i64(*n)),
        JsonNumber::Other(text) => number_from_str(text.as_str()),
    }
}

/// Fields that are put in order from the first on stay in order.
proof fn lemma_canonical_fields(fields: Fields)
    ensures
        canonical_fields(fields) matches Some(list) ==> in_order(list),
    decreases fields.len(),
{
    if fields.len() > 0 {
        lemma_canonical_fields(fields.drop_last());
        match (canonical_fields(fields.drop_last()), canonical(fields.last().1)) {
            (Some(before), Some(last)) => {
                lemma_placed(before, fields.last().0, last);
            },
            _ => {},
        }
    }
}

/// One item that cannot be kept spoils the list.
proof fn lemma_spoilt_items(items: Seq<JsonView>, i: int)
    requires
        0 <= i <= items.len(),
        canonical_items(items.take(i)) is None,
    ensures
        canonical_items(items) is None,
    decreases items.len() - i,
{
    if i < items.len() {
        assert(items.take(i + 1).drop_last() =~= items.take(i));
        lemma_spoilt_items(items, i + 1);
    } else {
        assert(items.take(i) =~= items);
    }
}

/// One field that cannot be kept spoils the object.
proof fn lemma_spoilt_fields(fields: Fields, i: int)
    requires
        0 <= i <= fields.len(),
        canonical_fields(fields.take(i)) is None,
    ensures
        canonical_fields(fields) is None,
    decreases fields.len() - i,
{
    if i < fields.len() {
        assert(fields.take(i + 1).drop_last() =~= fields.take(i));
        lemma_spoilt_fields(fields, i + 1);
    } else {
        assert(fields.take(i) =~= fields);
    }
}

/// A value as `serde_json` keeps it.
fn to_value(json: &Json) -> (value: Option<serde_json::Value>)
    ensures
        match value {
            Some(value) => canonical(json@) == Some(held(value)),
            None => canonical(json@) is None,
        },
    decreases json,
{
    match json {
        Json::Null => Some(assemble(Layer::Null)),
        Json::Bool(b) => Some(assemble(Layer::Bool(*b))),
        Json::Number(number) => match to_number(number) {
            Some(number) => Some(assemble(Layer::Number(number))),
            None => None,
        },
        Json::Text(text) => Some(assemble(Layer::Text(text.clone()))),
        Json::Array(items) => {
            let ghost all = jsons(items@);
            let mut kept: Vec<serde_json::Value> = Vec::new();
            let mut i: usize = 0;
            proof {
                lemma_array_model(*items);
                assert(all.take(0) =~= Seq::<JsonView>::empty());
                assert(values_held(kept@) =~= Seq::<JsonView>::empty());
            }
            while i < items.len()
                invariant
                    i <= items@.len(),
                    json == Json::Array(*items),
                    json@ == JsonView::Array(all),
                    all == jsons(items@),
                    canonical_items(all.take(i as int)) == Some(values_held(kept@)),
                decreases items@.len() - i,
            {
                let ghost before = kept@;
                proof {
                    lemma_item_smaller(*json, i as int);
                    assert(all.take(i + 1).drop_last() =~= all.take(i as int));
                    assert(all.take(i + 1).last() == items@[i as int]@);
                }
                match to_value(&items[i]) {
                    Some(value) => {
                        kept.push(value);
                        proof {
                            assert(values_held(kept@) =~= values_held(before).push(held(value)));
                        }
                    },
                    None => {
                        proof {
                            lemma_spoilt_items(all, i + 1);
                        }
                        return None;
                    },
                }
                i = i + 1;
            }
            proof {
                assert(all.take(i as int) =~= all);
            }
            Some(assemble(Layer::Array(kept)))
        },
        Json::Object(fields) => {
            let ghost all = pairs(fields@);
            let mut kept: Vec<(String, serde_json::Value)> = Vec::new();
            let mut i: usize = 0;
            proof {
                lemma_object_model(*fields);
                assert(all.take(0) =~= Seq::<(Seq<char>, JsonView)>::empty());
                assert(fields_held(kept@) =~= Seq::<(Seq<char>, JsonView)>::empty());
            }
            while i < fields.len()
                invariant
                    i <= fields@.len(),
                    json == Json::Object(*fields),
                    json@ == JsonView::Object(all),
                    all == pairs(fields@),
                    canonical_fields(all.take(i as int)) == Some(fields_held(kept@)),
                decreases fields@.len() - i,
            {
                proof {
                    lemma_field_smaller(*json, i as int);
                    assert(all.take(i + 1).drop_last() =~= all.take(i as int));
                    assert(all.take(i + 1).last() == all[i as int]);
                }
                match to_value(&fields[i].1) {
                    Some(value) => {
                        place(&mut kept, fields[i].0.clone(), value);
                    },
                    None => {
                        proof {
                            lemma_spoilt_fields(all, i + 1);
                        }
                        return None;
                    },
                }
                i = i + 1;
            }
            proof {
                assert(all.take(i as int) =~= all);
                lemma_canonical_fields(all);
            }
            Some(assemble(Layer::Object(kept)))
        },
    }
}

/// A value as a line of text: on one line, with a line break at its end and
/// nowhere else. There is none where a number in the value cannot be read.
pub fn render_line(json: &Json) -> (line: Option<String>)
    ensures
        match line {
            Some(line) => {
                &&& canonical(json@) matches Some(value) && line@ == rendered(value) + "\n"@
                &&& line@.len() > 0 && line@.last() == '\n'
                &&& !line@.drop_last().contains('\n')
            },
            None => canonical(json@) is None,
        },
{
    match to_value(json) {
        Some(value) => {
            let text = value_text(&value);
            let line = text.clone().concat("\n");
            proof {
                reveal_strlit("\n");
                assert(line@.drop_last() =~= text@);
            }
            Some(line)
        },
        None => None,
    }
}

/// A field at the end is found under its key, where none was before.
pub proof fn lemma_lookup_push(fields: Fields, field: (Seq<char>, JsonView), key: Seq<char>)
    ensures
        lookup(fields.push(field), key) == if lookup(fields, key) is Some {
            lookup(fields, key)
        } else if field.0 == key {
            Some(field.1)
        } else {
            None
        },
{
    let all = fields.push(field);
    lemma_position(fields, key);
    let at = position(fields, key);
    if at < fields.len() || field.0 == key {
        lemma_position_is(all, key, at);
    } else {
        lemma_position_is(all, key, all.len() as int);
    }
}

/// A field that is placed is found under its key, where none was before.
pub proof fn lemma_lookup_placed(fields: Fields, key: Seq<char>, value: JsonView, other: Seq<char>)
    ensures
        lookup(placed(fields, key, value), other) == if lookup(fields, other) is Some {
            lookup(fields, other)
        } else if key == other {
            Some(value)
        } else {
            None
        },
    decreases fields.len(),
{
    if fields.len() == 0 {
        assert(seq![(key, value)] =~= fields.push((key, value)));
        lemma_lookup_push(fields, (key, value), other);
    } else {
        let before = fields.drop_last();
        let last = fields.last();
        assert(before.push(last) =~= fields);
        lemma_lookup_push(before, last, other);
        lemma_lookup_push(fields, (key, value), other);
        if last.0 != key && !precedes(last.0, key) {
            lemma_lookup_placed(before, key, value, other);
            lemma_lookup_push(placed(before, key, value), last, other);
        }
    }
}

/// A value that is written has under each name what stood there: putting the
/// fields of an object in order drops none and changes none.
pub proof fn writing_keeps_every_field(fields: Fields, key: Seq<char>)
    requires
        canonical_fields(fields) is Some,
    ensures
        lookup(canonical_fields(fields)->0, key) == match lookup(fields, key) {
            Some(value) => canonical(value),
            None => None,
        },
    decreases fields.len(),
{
    if fields.len() > 0 {
        let before = fields.drop_last();
        let last = fields.last();
        assert(before.push(last) =~= fields);
        writing_keeps_every_field(before, key);
        lemma_lookup_push(before, last, key);
        lemma_lookup_placed(canonical_fields(before)->0, last.0, canonical(last.1)->0, key);
        lemma_position(before, key);
        if lookup(before, key) is Some {
            lemma_kept(before, position(before, key));
        }
    }
}

/// Every field of an object that can be kept has a value that can be kept.
proof fn lemma_kept(fields: Fields, i: int)
    requires
        canonical_fields(fields) is Some,
        0 <= i < fields.len(),
    ensures
        canonical(fields[i].1) is Some,
    decreases fields.len(),
{
    if i < fields.len() - 1 {
        lemma_kept(fields.drop_last(), i);
    }
}

} // verus!
