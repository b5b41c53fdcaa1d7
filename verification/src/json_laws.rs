//! What holds of every JSON value that is read or changed.

use vstd::prelude::*;

#[allow(unused_imports)]
use crate::json::{
    jsons, lemma_array_model, lemma_get_set, lemma_object_model, lemma_position, lemma_position_is,
    pairs, Json, JsonNumber, JsonView, NumberView,
};

verus! {

/// What stands under a key of an object is the value of the first field with
/// that key; where there is no such field, nothing does.
pub proof fn the_first_field_of_a_key_counts(
    fields: Vec<(String, Json)>,
    key: &str,
    found: Option<&Json>,
    i: int,
)
    requires
        call_ensures(Json::get, (&Json::Object(fields), key), found),
        0 <= i <= fields@.len(),
        forall|k: int| 0 <= k < i ==> (#[trigger] fields@[k]).0@ != key@,
        i < fields@.len() ==> fields@[i].0@ == key@,
    ensures
        i < fields@.len() ==> found is Some && found->0@ == fields@[i].1@,
        i == fields@.len() ==> found is None,
{
    lemma_object_model(fields);
    let all = pairs(fields@);
    assert forall|k: int| 0 <= k < i implies (#[trigger] all[k]).0 != key@ by {
        assert(fields@[k].0@ != key@);
    }
    if i < fields@.len() {
        assert(all[i].0 == fields@[i].0@);
    }
    lemma_position_is(all, key@, i);
}

/// The mathematical value of an object has under a key what its first field with
/// that key has.
pub proof fn a_model_has_the_first_field_of_a_key(
    fields: Seq<(Seq<char>, JsonView)>,
    key: Seq<char>,
    i: int,
)
    requires
        0 <= i <= fields.len(),
        forall|k: int| 0 <= k < i ==> (#[trigger] fields[k]).0 != key,
        i < fields.len() ==> fields[i].0 == key,
    ensures
        i < fields.len() ==> JsonView::Object(fields).get(key) == Some(fields[i].1) && JsonView::Object(
            fields,
        ).at(key) == fields[i].1 && JsonView::Object(fields).field(key) == (match fields[i].1 {
            JsonView::Text(text) => Some(text),
            _ => None,
        }),
        i == fields.len() ==> JsonView::Object(fields).get(key) is None && JsonView::Object(
            fields,
        ).at(key) is Null && JsonView::Object(fields).field(key) is None,
{
    lemma_position_is(fields, key, i);
}

/// What is no object has nothing under any key, and where nothing stands under a
/// key, null is read and no text is.
pub proof fn nothing_stands_in_what_is_no_object(value: JsonView, key: Seq<char>)
    ensures
        !(value is Object) ==> value.get(key) is None,
        value.get(key) is None ==> value.at(key) is Null && value.field(key) is None,
        value.get(key) matches Some(inner) ==> value.at(key) == inner,
        value.get(key) matches Some(JsonView::Text(text)) ==> value.field(key) == Some(text),
        !(value.get(key) matches Some(JsonView::Text(_))) ==> value.field(key) is None,
{
}

/// A value is read as what it is, and as nothing else.
pub proof fn a_value_is_read_as_what_it_is(
    value: Json,
    text: Option<&str>,
    truth: Option<bool>,
    word: Option<u64>,
    number: Option<i64>,
    items: Option<&Vec<Json>>,
)
    requires
        call_ensures(Json::as_text, (&value,), text),
        call_ensures(Json::as_bool, (&value,), truth),
        call_ensures(Json::as_u64, (&value,), word),
        call_ensures(Json::as_i64, (&value,), number),
        call_ensures(Json::as_array, (&value,), items),
    ensures
        value matches Json::Text(own) ==> text is Some && text->0@ == own@,
        !(value is Text) ==> text is None,
        value matches Json::Bool(own) ==> truth == Some(own),
        !(value is Bool) ==> truth is None,
        value matches Json::Number(JsonNumber::Unsigned(own)) ==> word == Some(own) && (number
            is Some <==> own <= i64::MAX) && (number is Some ==> number->0 == own),
        value matches Json::Number(JsonNumber::Negative(own)) ==> word is None && number == Some(own),
        value matches Json::Number(JsonNumber::Other(_)) ==> word is None && number is None,
        !(value is Number) ==> word is None && number is None,
        value matches Json::Array(own) ==> items is Some && items->0@.len() == own@.len() && (
        forall|i: int| 0 <= i < own@.len() ==> (#[trigger] items->0@[i])@ == own@[i]@),
        !(value is Array) ==> items is None,
{
    match value {
        Json::Array(own) => {
            lemma_array_model(own);
            let a = jsons(own@);
            let b = jsons(items->0@);
            assert(a == b);
            assert(b.len() == items->0@.len());
            assert forall|i: int| 0 <= i < own@.len() implies (#[trigger] items->0@[i])@
                == own@[i]@ by {
                assert(b[i] == items->0@[i]@);
                assert(a[i] == own@[i]@);
            }
        },
        _ => {},
    }
}

/// A value is asked what it is, and answers so.
pub proof fn a_value_tells_its_kind(
    value: Json,
    word: &str,
    null: bool,
    object: bool,
    same: bool,
)
    requires
        call_ensures(Json::is_null, (&value,), null),
        call_ensures(Json::is_object, (&value,), object),
        call_ensures(Json::is_text, (&value, word), same),
    ensures
        null <==> value is Null,
        object <==> value is Object,
        same <==> (value matches Json::Text(own) && own@ == word@),
{
}

/// A field that is set has its value, and the others keep theirs; what is no
/// object stays as it is.
pub proof fn a_field_is_set_alone(
    before: Json,
    key: &str,
    value: Json,
    after: Json,
    other: Seq<char>,
)
    requires
        call_ensures(Json::set, (before, key, value), after),
    ensures
        before@ is Object ==> after@ is Object && after@.get(key@) == Some(value@),
        before@ is Object && other != key@ ==> after@.get(other) == before@.get(other),
        !(before@ is Object) ==> after@ == before@,
{
    broadcast use lemma_get_set;

}

/// A new object has no fields, and a text is that text.
pub proof fn new_values_are_what_they_are_made_of(
    object: Json,
    word: &str,
    text: Json,
    key: Seq<char>,
)
    requires
        call_ensures(Json::object, (), object),
        call_ensures(Json::text, (word,), text),
    ensures
        object@ is Object,
        object@.get(key) is None,
        text@ == JsonView::Text(word@),
{
    lemma_position(Seq::<(Seq<char>, JsonView)>::empty(), key);
}

/// The mathematical value of a value shows all that is in it.
pub proof fn a_value_is_seen_as_it_is(value: Json)
    ensures
        value is Null ==> value@ is Null,
        value matches Json::Bool(b) ==> value@ == JsonView::Bool(b),
        value matches Json::Number(JsonNumber::Unsigned(n)) ==> value@ == JsonView::Number(
            NumberView::Unsigned(n),
        ),
        value matches Json::Number(JsonNumber::Negative(n)) ==> value@ == JsonView::Number(
            NumberView::Negative(n),
        ),
        value matches Json::Number(JsonNumber::Other(text)) ==> value@ == JsonView::Number(
            NumberView::Other(text@),
        ),
        value matches Json::Text(text) ==> value@ == JsonView::Text(text@),
        value matches Json::Array(items) ==> (value@ matches JsonView::Array(list) && list.len()
            == items@.len() && forall|i: int|
            0 <= i < list.len() ==> #[trigger] list[i] == items@[i]@),
        value matches Json::Object(fields) ==> (value@ matches JsonView::Object(list) && list.len()
            == fields@.len() && forall|i: int|
            0 <= i < list.len() ==> #[trigger] list[i] == (fields@[i].0@, fields@[i].1@)),
{
}

} // verus!
