//! Events without the image bytes in them.
//!
//! Prime's events are handed on to subscribers as they are, but for large
//! image data, which the image part of the transcript holds.

use vstd::prelude::*;

use crate::json::{field_position, Json, JsonView};
#[allow(unused_imports)]
use crate::json::{
    jsons, lemma_array_model, lemma_field_smaller, lemma_item_smaller, lemma_object_model,
    lemma_position, lemma_position_is, lemma_set_other, lookup, pairs, position, set_field,
    without_field, Fields,
};
use crate::text::{same_text, strip_prefix};
#[allow(unused_imports)]
use crate::tool_images::is_input_image;

verus! {

/// The text under a key among some fields.
pub open spec fn text_in(fields: Fields, key: Seq<char>) -> Option<Seq<char>> {
    match lookup(fields, key) {
        Some(value) => value.as_text(),
        None => None,
    }
}

/// Whether the value under a key is the URL of an image with its data.
pub open spec fn has_data_url(fields: Fields, key: Seq<char>) -> bool {
    match text_in(fields, key) {
        Some(url) => "data:image/"@.is_prefix_of(url),
        None => false,
    }
}

/// The fields without the ones of a key, and with a note of it.
pub open spec fn omitting(fields: Fields, key: Seq<char>) -> Fields {
    set_field(without_field(fields, key), "dataOmitted"@, JsonView::Bool(true))
}

/// The fields without the data of an image block.
pub open spec fn without_data(fields: Fields) -> Fields {
    if text_in(fields, "type"@) == Some("image"@) && lookup(fields, "data"@) is Some {
        omitting(fields, "data"@)
    } else {
        fields
    }
}

/// The fields without a URL, where it holds an image.
pub open spec fn without_url(fields: Fields, key: Seq<char>) -> Fields {
    if is_input_image(text_in(fields, "type"@)) && has_data_url(fields, key) {
        omitting(fields, key)
    } else {
        fields
    }
}

/// The fields of an object without image data of its own.
pub open spec fn own_omitted(fields: Fields) -> Fields {
    without_url(without_url(without_data(fields), "image_url"@), "imageUrl"@)
}

/// A value without the image data in it, at any depth.
pub open spec fn scrubbed(value: JsonView) -> JsonView
    decreases value,
{
    match value {
        JsonView::Array(items) => JsonView::Array(scrubbed_items(items)),
        JsonView::Object(fields) => JsonView::Object(own_omitted(scrubbed_fields(fields))),
        _ => value,
    }
}

/// The items of a list, each scrubbed.
pub open spec fn scrubbed_items(items: Seq<JsonView>) -> Seq<JsonView>
    decreases items,
{
    if items.len() == 0 {
        items
    } else {
        scrubbed_items(items.drop_last()).push(scrubbed(items.last()))
    }
}

/// The fields of an object, each with its value scrubbed.
pub open spec fn scrubbed_fields(fields: Fields) -> Fields
    decreases fields,
{
    if fields.len() == 0 {
        fields
    } else {
        scrubbed_fields(fields.drop_last()).push((fields.last().0, scrubbed(fields.last().1)))
    }
}

/// Whether an object holds image data of its own.
pub open spec fn own_media(fields: Fields) -> bool {
    ||| text_in(fields, "type"@) == Some("image"@) && lookup(fields, "data"@) is Some
    ||| is_input_image(text_in(fields, "type"@)) && (has_data_url(fields, "image_url"@)
        || has_data_url(fields, "imageUrl"@))
}

/// Whether a value holds image data, at any depth.
pub open spec fn carries_media(value: JsonView) -> bool
    decreases value,
{
    match value {
        JsonView::Array(items) => exists|i: int|
            0 <= i < items.len() && carries_media(#[trigger] items[i]),
        JsonView::Object(fields) => own_media(fields) || exists|i: int|
            0 <= i < fields.len() && carries_media((#[trigger] fields[i]).1),
        _ => false,
    }
}

/// The items of a list are scrubbed one by one.
pub proof fn lemma_scrubbed_items(items: Seq<JsonView>)
    ensures
        scrubbed_items(items) == items.map_values(|item: JsonView| scrubbed(item)),
    decreases items.len(),
{
    if items.len() > 0 {
        lemma_scrubbed_items(items.drop_last());
    }
    assert(scrubbed_items(items) =~= items.map_values(|item: JsonView| scrubbed(item)));
}

/// The fields of an object keep their names, and are scrubbed one by one.
pub proof fn lemma_scrubbed_fields(fields: Fields)
    ensures
        scrubbed_fields(fields) == fields.map_values(
            |field: (Seq<char>, JsonView)| (field.0, scrubbed(field.1)),
        ),
    decreases fields.len(),
{
    if fields.len() > 0 {
        lemma_scrubbed_fields(fields.drop_last());
    }
    assert(scrubbed_fields(fields) =~= fields.map_values(
        |field: (Seq<char>, JsonView)| (field.0, scrubbed(field.1)),
    ));
}

/// The names of the fields that are read are all different.
pub proof fn lemma_names()
    ensures
        "type"@ != "data"@,
        "type"@ != "image_url"@,
        "type"@ != "imageUrl"@,
        "type"@ != "dataOmitted"@,
        "data"@ != "image_url"@,
        "data"@ != "imageUrl"@,
        "data"@ != "dataOmitted"@,
        "image_url"@ != "imageUrl"@,
        "image_url"@ != "dataOmitted"@,
        "imageUrl"@ != "dataOmitted"@,
        "image"@ != "input_image"@,
        "image"@ != "inputImage"@,
{
    reveal_strlit("type");
    reveal_strlit("data");
    reveal_strlit("image_url");
    reveal_strlit("imageUrl");
    reveal_strlit("dataOmitted");
    reveal_strlit("image");
    reveal_strlit("input_image");
    reveal_strlit("inputImage");
    assert("type"@[0] != "data"@[0]);
    assert("image_url"@[5] == '_');
    assert("imageUrl"@[5] == 'U');
    assert("data"@.len() == 4);
    assert("dataOmitted"@.len() == 11);
    assert("image"@.len() == 5);
    assert("input_image"@.len() == 11);
    assert("inputImage"@.len() == 10);
}

/// Leaving out a field leaves the others, in their order.
pub proof fn lemma_without(fields: Fields, key: Seq<char>, other: Seq<char>)
    ensures
        key != other ==> lookup(without_field(fields, key), other) == lookup(fields, other),
        lookup(without_field(fields, key), key) is None,
        position(without_field(fields, key), key) == without_field(fields, key).len(),
    decreases fields.len(),
{
    reveal(Seq::filter);
    if fields.len() > 0 {
        let before = fields.drop_last();
        let last = fields.last();
        lemma_without(before, key, other);
        let kept = without_field(before, key);
        let all = without_field(fields, key);
        lemma_position(before, other);
        lemma_position(kept, other);
        lemma_position(kept, key);
        let at = if position(before, other) < before.len() {
            position(before, other)
        } else if last.0 == other {
            before.len() as int
        } else {
            fields.len() as int
        };
        assert(forall|k: int| 0 <= k < before.len() ==> #[trigger] fields[k] == before[k]);
        lemma_position_is(fields, other, at);
        if last.0 == key {
            assert(all == kept);
        } else {
            assert(all == kept.push(last));
            lemma_position_is(all, key, all.len() as int);
            if key != other {
                let there = if position(kept, other) < kept.len() {
                    position(kept, other)
                } else if last.0 == other {
                    kept.len() as int
                } else {
                    all.len() as int
                };
                lemma_position_is(all, other, there);
            }
        }
    } else {
        assert(without_field(fields, key) =~= fields);
    }
}

/// Every field that is left was there.
proof fn lemma_without_from(fields: Fields, key: Seq<char>, k: int)
    requires
        0 <= k < without_field(fields, key).len(),
    ensures
        exists|i: int| 0 <= i < fields.len() && without_field(fields, key)[k] == #[trigger] fields[i],
    decreases fields.len(),
{
    reveal(Seq::filter);
    if fields.len() > 0 {
        let before = fields.drop_last();
        let kept = without_field(before, key);
        if k < kept.len() {
            lemma_without_from(before, key, k);
            let i = choose|i: int| 0 <= i < before.len() && kept[k] == #[trigger] before[i];
            assert(fields[i] == before[i]);
        } else {
            assert(without_field(fields, key)[k] == fields[fields.len() - 1]);
        }
    }
}

/// Every value that is left after an omission was there, or is the note of it.
proof fn lemma_omitting_from(fields: Fields, key: Seq<char>, k: int)
    requires
        0 <= k < omitting(fields, key).len(),
    ensures
        omitting(fields, key)[k].1 == JsonView::Bool(true) || exists|i: int|
            0 <= i < fields.len() && omitting(fields, key)[k] == #[trigger] fields[i],
{
    let kept = without_field(fields, key);
    lemma_position(kept, "dataOmitted"@);
    if k < kept.len() && k != position(kept, "dataOmitted"@) {
        lemma_without_from(fields, key, k);
    }
}

/// What is left out is not there, and the rest is as it was.
pub proof fn lemma_omitting_lookup(fields: Fields, key: Seq<char>, other: Seq<char>)
    requires
        key != "dataOmitted"@,
        other != "dataOmitted"@,
    ensures
        key != other ==> lookup(omitting(fields, key), other) == lookup(fields, other),
        lookup(omitting(fields, key), key) is None,
{
    let kept = without_field(fields, key);
    lemma_without(fields, key, other);
    lemma_set_other(kept, "dataOmitted"@, JsonView::Bool(true), other);
    lemma_set_other(kept, "dataOmitted"@, JsonView::Bool(true), key);
}

/// After the omissions an object holds no image data of its own, and its kind
/// is what it was.
proof fn lemma_own_omitted(fields: Fields)
    ensures
        !own_media(own_omitted(fields)),
        lookup(own_omitted(fields), "type"@) == lookup(fields, "type"@),
{
    lemma_names();
    let a = without_data(fields);
    let b = without_url(a, "image_url"@);
    let c = without_url(b, "imageUrl"@);
    lemma_omitting_lookup(fields, "data"@, "type"@);
    lemma_omitting_lookup(a, "image_url"@, "type"@);
    lemma_omitting_lookup(a, "image_url"@, "data"@);
    lemma_omitting_lookup(b, "imageUrl"@, "type"@);
    lemma_omitting_lookup(b, "imageUrl"@, "data"@);
    lemma_omitting_lookup(b, "imageUrl"@, "image_url"@);
}

/// What is left of the values after the omissions was there before, or is the
/// note of an omission.
proof fn lemma_own_omitted_from(fields: Fields, k: int)
    requires
        0 <= k < own_omitted(fields).len(),
    ensures
        own_omitted(fields)[k].1 == JsonView::Bool(true) || exists|i: int|
            0 <= i < fields.len() && own_omitted(fields)[k] == #[trigger] fields[i],
{
    let a = without_data(fields);
    let b = without_url(a, "image_url"@);
    let c = own_omitted(fields);
    let noted = JsonView::Bool(true);
    let j = if c == b {
        k
    } else {
        lemma_omitting_from(b, "imageUrl"@, k);
        if c[k].1 == noted {
            -1
        } else {
            choose|i: int| 0 <= i < b.len() && c[k] == #[trigger] b[i]
        }
    };
    if j >= 0 {
        assert(c[k] == b[j]);
        let m = if b == a {
            j
        } else {
            lemma_omitting_from(a, "image_url"@, j);
            if b[j].1 == noted {
                -1
            } else {
                choose|i: int| 0 <= i < a.len() && b[j] == #[trigger] a[i]
            }
        };
        if m >= 0 {
            assert(b[j] == a[m]);
            if a != fields {
                lemma_omitting_from(fields, "data"@, m);
                if a[m].1 != noted {
                    let n = choose|i: int| 0 <= i < fields.len() && a[m] == #[trigger] fields[i];
                    assert(c[k] == fields[n]);
                }
            } else {
                assert(c[k] == fields[m]);
            }
        }
    }
}

/// No image data is left in a scrubbed value, at any depth.
pub proof fn scrubbed_carries_no_media(value: JsonView)
    ensures
        !carries_media(scrubbed(value)),
    decreases value,
{
    match value {
        JsonView::Array(items) => {
            lemma_scrubbed_items(items);
            let left = scrubbed(value)->Array_0;
            assert forall|i: int| 0 <= i < left.len() implies !carries_media(
                #[trigger] left[i],
            ) by {
                scrubbed_carries_no_media(items[i]);
            }
        },
        JsonView::Object(fields) => {
            lemma_scrubbed_fields(fields);
            let inner = scrubbed_fields(fields);
            let left = own_omitted(inner);
            lemma_own_omitted(inner);
            assert forall|k: int| 0 <= k < left.len() implies !carries_media(
                (#[trigger] left[k]).1,
            ) by {
                lemma_own_omitted_from(inner, k);
                if left[k].1 != JsonView::Bool(true) {
                    let i = choose|i: int|
                        0 <= i < inner.len() && left[k] == #[trigger] inner[i];
                    assert(decreases_to!(value => value->Object_0));
                    assert(decreases_to!(fields => fields[i]));
                    assert(decreases_to!(fields[i] => fields[i].1));
                    scrubbed_carries_no_media(fields[i].1);
                }
            }
        },
        _ => {},
    }
}

/// A value without image data is handed on exactly as it is.
pub proof fn scrubbing_keeps_what_has_no_media(value: JsonView)
    requires
        !carries_media(value),
    ensures
        scrubbed(value) == value,
    decreases value,
{
    match value {
        JsonView::Array(items) => {
            lemma_scrubbed_items(items);
            assert forall|i: int| 0 <= i < items.len() implies scrubbed(#[trigger] items[i])
                == items[i] by {
                assert(!carries_media(items[i]));
                scrubbing_keeps_what_has_no_media(items[i]);
            }
            assert(scrubbed(value)->Array_0 =~= items);
        },
        JsonView::Object(fields) => {
            lemma_scrubbed_fields(fields);
            assert forall|i: int| 0 <= i < fields.len() implies scrubbed((#[trigger] fields[i]).1)
                == fields[i].1 by {
                assert(!carries_media(fields[i].1));
                assert(decreases_to!(value => value->Object_0));
                assert(decreases_to!(fields => fields[i]));
                assert(decreases_to!(fields[i] => fields[i].1));
                scrubbing_keeps_what_has_no_media(fields[i].1);
            }
            assert(scrubbed_fields(fields) =~= fields);
        },
        _ => {},
    }
}

/// Scrubbing what was scrubbed changes nothing.
pub proof fn scrubbing_twice_is_scrubbing_once(value: JsonView)
    ensures
        scrubbed(scrubbed(value)) == scrubbed(value),
{
    scrubbed_carries_no_media(value);
    scrubbing_keeps_what_has_no_media(scrubbed(value));
}

/// The kind of an event, and whether it has one, survive scrubbing.
pub proof fn scrubbing_keeps_the_kind(value: JsonView)
    ensures
        scrubbed(value).field("type"@) == value.field("type"@),
{
    match value {
        JsonView::Object(fields) => {
            lemma_scrubbed_fields(fields);
            let inner = scrubbed_fields(fields);
            lemma_own_omitted(inner);
            lemma_position(fields, "type"@);
            lemma_position_is(inner, "type"@, position(fields, "type"@));
        },
        _ => {},
    }
}

/// Leaves out the fields of a key and notes it.
fn omit(fields: Vec<(String, Json)>, key: &str) -> (left: Vec<(String, Json)>)
    ensures
        pairs(left@) == omitting(pairs(fields@), key@),
{
    let ghost all = fields@;
    let ghost differs = |field: (Seq<char>, JsonView)| field.0 != key@;
    let mut kept: Vec<(String, Json)> = Vec::new();
    proof {
        reveal(Seq::filter);
        assert(pairs(kept@) =~= pairs(all).take(0).filter(differs));
    }
    for field in iter: fields
        invariant
            iter.seq() == all,
            differs == (|field: (Seq<char>, JsonView)| field.0 != key@),
            pairs(kept@) == pairs(all).take(iter.index() as int).filter(differs),
    {
        proof {
            reveal(Seq::filter);
            let i = iter.index() as int;
            assert(pairs(all).take(i + 1).drop_last() =~= pairs(all).take(i));
            assert(pairs(all).take(i + 1).last() == (field.0@, field.1@));
        }
        let ghost before = kept@;
        if !same_text(field.0.as_str(), key) {
            kept.push(field);
            proof {
                assert(pairs(kept@) =~= pairs(before).push((field.0@, field.1@)));
            }
        }
    }
    proof {
        assert(pairs(all).take(all.len() as int) =~= pairs(all));
        lemma_object_model(kept);
    }
    let noted = Json::Object(kept).set("dataOmitted", Json::Bool(true));
    match noted {
        Json::Object(left) => {
            proof {
                lemma_object_model(left);
            }
            left
        },
        _ => Vec::new(),
    }
}

/// The text under a key among some fields.
fn read_text<'a>(fields: &'a Vec<(String, Json)>, key: &str) -> (text: Option<&'a str>)
    ensures
        crate::json::opt_str(text) == text_in(pairs(fields@), key@),
{
    let at = field_position(fields, key);
    if at < fields.len() {
        fields[at].1.as_text()
    } else {
        None
    }
}

/// Leaves out the image data of an object.
fn omit_own(fields: Vec<(String, Json)>) -> (left: Vec<(String, Json)>)
    ensures
        pairs(left@) == own_omitted(pairs(fields@)),
{
    let is_image = match read_text(&fields, "type") {
        Some(kind) => same_text(kind, "image"),
        None => false,
    };
    let fields = if is_image && field_position(&fields, "data") < fields.len() {
        omit(fields, "data")
    } else {
        fields
    };
    let fields = omit_url(fields, "image_url");
    omit_url(fields, "imageUrl")
}

/// Leaves out the URL of an input image, where it holds the image.
fn omit_url(fields: Vec<(String, Json)>, key: &str) -> (left: Vec<(String, Json)>)
    ensures
        pairs(left@) == without_url(pairs(fields@), key@),
{
    let is_input = match read_text(&fields, "type") {
        Some(kind) => same_text(kind, "input_image") || same_text(kind, "inputImage"),
        None => false,
    };
    let holds_image = match read_text(&fields, key) {
        Some(url) => strip_prefix(url, "data:image/").is_some(),
        None => false,
    };
    if is_input && holds_image {
        omit(fields, key)
    } else {
        fields
    }
}

/// An event without the image data in it.
pub fn without_image_data(event: &Json) -> (public: Json)
    ensures
        public@ == scrubbed(event@),
    decreases event,
{
    match event {
        Json::Array(items) => {
            let ghost all = jsons(items@);
            let mut left: Vec<Json> = Vec::new();
            let mut i: usize = 0;
            while i < items.len()
                invariant
                    event == Json::Array(*items),
                    i <= items@.len(),
                    left@.len() == i,
                    forall|k: int|
                        0 <= k < i ==> (#[trigger] left@[k])@ == scrubbed(items@[k]@),
                decreases items@.len() - i,
            {
                proof {
                    lemma_item_smaller(*event, i as int);
                }
                let item = without_image_data(&items[i]);
                left.push(item);
                i = i + 1;
            }
            proof {
                lemma_array_model(*items);
                lemma_array_model(left);
                lemma_scrubbed_items(all);
                assert(jsons(left@) =~= all.map_values(|item: JsonView| scrubbed(item)));
            }
            Json::Array(left)
        },
        Json::Object(fields) => {
            let mut inner: Vec<(String, Json)> = Vec::new();
            let mut i: usize = 0;
            while i < fields.len()
                invariant
                    event == Json::Object(*fields),
                    i <= fields@.len(),
                    inner@.len() == i,
                    forall|k: int|
                        0 <= k < i ==> (#[trigger] inner@[k]).0@ == fields@[k].0@
                            && inner@[k].1@ == scrubbed(fields@[k].1@),
                decreases fields@.len() - i,
            {
                proof {
                    lemma_field_smaller(*event, i as int);
                }
                let value = without_image_data(&fields[i].1);
                inner.push((fields[i].0.clone(), value));
                i = i + 1;
            }
            proof {
                lemma_object_model(*fields);
                lemma_scrubbed_fields(pairs(fields@));
                assert(pairs(inner@) =~= scrubbed_fields(pairs(fields@)));
            }
            let left = omit_own(inner);
            proof {
                lemma_object_model(left);
            }
            Json::Object(left)
        },
        other => other.clone(),
    }
}

} // verus!
