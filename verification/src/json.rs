//! JSON values as the driver reads and writes them.

use vstd::prelude::*;

use crate::text::same_text;

verus! {

/// A JSON number. Integers that fit a machine word are held as such; any
/// other number is held by its text.
#[derive(Debug, PartialEq)]
pub enum JsonNumber {
    Unsigned(u64),
    Negative(i64),
    Other(String),
}

/// What a [`JsonNumber`] is, as a mathematical value.
pub enum NumberView {
    Unsigned(u64),
    Negative(i64),
    Other(Seq<char>),
}

impl View for JsonNumber {
    type V = NumberView;

    open spec fn view(&self) -> NumberView {
        match self {
            JsonNumber::Unsigned(n) => NumberView::Unsigned(*n),
            JsonNumber::Negative(n) => NumberView::Negative(*n),
            JsonNumber::Other(text) => NumberView::Other(text@),
        }
    }
}

/// A JSON value. The fields of an object stand in a list; where a key is
/// repeated, the first field with it counts.
#[derive(Debug, PartialEq)]
pub enum Json {
    Null,
    Bool(bool),
    Number(JsonNumber),
    Text(String),
    Array(Vec<Json>),
    Object(Vec<(String, Json)>),
}

/// The fields of an object.
pub type Fields = Seq<(Seq<char>, JsonView)>;

/// What a [`Json`] is, as a mathematical value.
pub enum JsonView {
    Null,
    Bool(bool),
    Number(NumberView),
    Text(Seq<char>),
    Array(Seq<JsonView>),
    Object(Seq<(Seq<char>, JsonView)>),
}

impl Json {
    /// The mathematical value of a JSON value.
    pub open spec fn model(self) -> JsonView
        decreases self,
    {
        match self {
            Json::Null => JsonView::Null,
            Json::Bool(b) => JsonView::Bool(b),
            Json::Number(n) => JsonView::Number(n@),
            Json::Text(text) => JsonView::Text(text@),
            Json::Array(items) => JsonView::Array(
                Seq::new(
                    items@.len(),
                    |i: int|
                        if 0 <= i < items@.len() {
                            items@[i].model()
                        } else {
                            JsonView::Null
                        },
                ),
            ),
            Json::Object(fields) => JsonView::Object(
                Seq::new(
                    fields@.len(),
                    |i: int|
                        if 0 <= i < fields@.len() {
                            (fields@[i].0@, fields@[i].1.model())
                        } else {
                            (Seq::empty(), JsonView::Null)
                        },
                ),
            ),
        }
    }
}

impl View for Json {
    type V = JsonView;

    open spec fn view(&self) -> JsonView {
        self.model()
    }
}

/// The values of a list, in order.
pub open spec fn jsons(items: Seq<Json>) -> Seq<JsonView> {
    items.map_values(|item: Json| item@)
}

/// The fields of a list, in order.
pub open spec fn pairs(fields: Seq<(String, Json)>) -> Fields {
    fields.map_values(|field: (String, Json)| (field.0@, field.1@))
}

/// A list of values holds the values of its items.
pub broadcast proof fn lemma_array_model(items: Vec<Json>)
    ensures
        #[trigger] Json::Array(items).model() == JsonView::Array(jsons(items@)),
{
    assert(Json::Array(items).model()->Array_0 =~= jsons(items@));
}

/// An object holds the values of its fields.
pub broadcast proof fn lemma_object_model(fields: Vec<(String, Json)>)
    ensures
        #[trigger] Json::Object(fields).model() == JsonView::Object(pairs(fields@)),
{
    assert(Json::Object(fields).model()->Object_0 =~= pairs(fields@));
}

/// The index of the first entry with the given key, or the number of entries
/// where there is none.
pub open spec fn position<T>(fields: Seq<(Seq<char>, T)>, key: Seq<char>) -> int
    decreases fields.len(),
{
    if fields.len() == 0 {
        0
    } else if fields[0].0 == key {
        0
    } else {
        1 + position(fields.drop_first(), key)
    }
}

/// The value of the first field with the given key.
pub open spec fn lookup(fields: Fields, key: Seq<char>) -> Option<JsonView> {
    if position(fields, key) < fields.len() {
        Some(fields[position(fields, key)].1)
    } else {
        None
    }
}

/// The fields with the first one of the given key set, or with a new field at
/// the end where there was none.
pub open spec fn set_field(fields: Fields, key: Seq<char>, value: JsonView) -> Fields {
    if position(fields, key) < fields.len() {
        fields.update(position(fields, key), (key, value))
    } else {
        fields.push((key, value))
    }
}

/// The fields without those of the given key.
pub open spec fn without_field(fields: Fields, key: Seq<char>) -> Fields {
    fields.filter(|field: (Seq<char>, JsonView)| field.0 != key)
}

/// The first field with a key is where the key stands and did not stand before.
pub proof fn lemma_position<T>(fields: Seq<(Seq<char>, T)>, key: Seq<char>)
    ensures
        0 <= position(fields, key) <= fields.len(),
        position(fields, key) < fields.len() ==> fields[position(fields, key)].0 == key,
        forall|k: int| 0 <= k < position(fields, key) ==> (#[trigger] fields[k]).0 != key,
    decreases fields.len(),
{
    if fields.len() > 0 && fields[0].0 != key {
        let rest = fields.drop_first();
        lemma_position(rest, key);
        assert forall|k: int| 0 <= k < position(fields, key) implies (#[trigger] fields[k]).0
            != key by {
            if k > 0 {
                assert(rest[k - 1] == fields[k]);
            }
        }
    }
}

/// An index is the position of a key where the key stands there, or past the
/// end, and not before.
pub proof fn lemma_position_is<T>(fields: Seq<(Seq<char>, T)>, key: Seq<char>, at: int)
    requires
        0 <= at <= fields.len(),
        at < fields.len() ==> fields[at].0 == key,
        forall|k: int| 0 <= k < at ==> (#[trigger] fields[k]).0 != key,
    ensures
        position(fields, key) == at,
{
    lemma_position(fields, key);
    let found = position(fields, key);
    if found < at {
        assert(fields[found].0 != key);
    } else if at < found {
        assert(fields[at].0 != key);
    }
}

impl JsonView {
    /// The value under a key: none where this is no object or has no such key.
    pub open spec fn get(self, key: Seq<char>) -> Option<JsonView> {
        match self {
            JsonView::Object(fields) => lookup(fields, key),
            _ => None,
        }
    }

    /// The value under a key, null where there is none.
    pub open spec fn at(self, key: Seq<char>) -> JsonView {
        match self.get(key) {
            Some(value) => value,
            None => JsonView::Null,
        }
    }

    /// The text that this value is.
    pub open spec fn as_text(self) -> Option<Seq<char>> {
        match self {
            JsonView::Text(text) => Some(text),
            _ => None,
        }
    }

    /// The truth value that this value is.
    pub open spec fn as_bool(self) -> Option<bool> {
        match self {
            JsonView::Bool(b) => Some(b),
            _ => None,
        }
    }

    /// The unsigned machine word that this value is.
    pub open spec fn as_u64(self) -> Option<u64> {
        match self {
            JsonView::Number(NumberView::Unsigned(n)) => Some(n),
            _ => None,
        }
    }

    /// The signed machine word that this value is.
    pub open spec fn as_i64(self) -> Option<i64> {
        match self {
            JsonView::Number(NumberView::Unsigned(n)) if n <= i64::MAX => Some(n as i64),
            JsonView::Number(NumberView::Negative(n)) => Some(n),
            _ => None,
        }
    }

    /// The list that this value is.
    pub open spec fn as_array(self) -> Option<Seq<JsonView>> {
        match self {
            JsonView::Array(items) => Some(items),
            _ => None,
        }
    }

    /// The text under a key.
    pub open spec fn field(self, key: Seq<char>) -> Option<Seq<char>> {
        match self.get(key) {
            Some(value) => value.as_text(),
            None => None,
        }
    }

    /// Whether this value is the given text.
    pub open spec fn is_text(self, text: Seq<char>) -> bool {
        self == JsonView::Text(text)
    }

    /// This object with a field set; what is no object stays as it is.
    pub open spec fn set(self, key: Seq<char>, value: JsonView) -> JsonView {
        match self {
            JsonView::Object(fields) => JsonView::Object(set_field(fields, key, value)),
            _ => self,
        }
    }
}

/// Setting a field leaves the others.
pub proof fn lemma_set_other(fields: Fields, key: Seq<char>, value: JsonView, other: Seq<char>)
    requires
        key != other,
    ensures
        lookup(set_field(fields, key, value), other) == lookup(fields, other),
{
    lemma_position(fields, key);
    lemma_position(fields, other);
    let set = set_field(fields, key, value);
    let at = position(fields, other);
    if position(fields, key) < fields.len() {
        lemma_position_is(set, other, at);
    } else if at < fields.len() {
        lemma_position_is(set, other, at);
    } else {
        lemma_position_is(set, other, set.len() as int);
    }
}

/// Setting a field gives it the value.
pub proof fn lemma_set_same(fields: Fields, key: Seq<char>, value: JsonView)
    ensures
        lookup(set_field(fields, key, value), key) == Some(value),
{
    lemma_position(fields, key);
    let set = set_field(fields, key, value);
    lemma_position_is(set, key, position(fields, key));
}

/// What stands under a key after a field is set.
pub broadcast proof fn lemma_get_set(
    object: JsonView,
    key: Seq<char>,
    value: JsonView,
    other: Seq<char>,
)
    ensures
        object is Object ==> #[trigger] object.set(key, value).get(other) == if key == other {
            Some(value)
        } else {
            object.get(other)
        },
{
    match object {
        JsonView::Object(fields) => {
            if key == other {
                lemma_set_same(fields, key, value);
            } else {
                lemma_set_other(fields, key, value, other);
            }
        },
        _ => {},
    }
}

/// The object without fields.
pub open spec fn empty_object() -> JsonView {
    JsonView::Object(Seq::empty())
}

/// The text under a key, taken where a text may be missing.
pub open spec fn text_or(text: Option<Seq<char>>, default: Seq<char>) -> Seq<char> {
    match text {
        Some(text) => text,
        None => default,
    }
}

/// The text of an optional string.
pub open spec fn opt_text(text: Option<String>) -> Option<Seq<char>> {
    match text {
        Some(text) => Some(text@),
        None => None,
    }
}

/// The text of an optional string slice.
pub open spec fn opt_str(text: Option<&str>) -> Option<Seq<char>> {
    match text {
        Some(text) => Some(text@),
        None => None,
    }
}

/// The texts of a list of strings.
pub open spec fn texts(list: Seq<String>) -> Seq<Seq<char>> {
    list.map_values(|text: String| text@)
}

impl Json {
    /// An object without fields.
    pub fn object() -> (object: Json)
        ensures
            object@ == empty_object(),
    {
        let object = Json::Object(Vec::new());
        proof {
            lemma_object_model(object->Object_0);
            assert(pairs(Seq::<(String, Json)>::empty()) =~= Seq::<(Seq<char>, JsonView)>::empty());
        }
        object
    }

    /// A text.
    pub fn text(text: &str) -> (value: Json)
        ensures
            value@ == JsonView::Text(text@),
    {
        Json::Text(text.to_owned())
    }

    /// The value under a key, if any.
    pub fn get(&self, key: &str) -> (found: Option<&Json>)
        ensures
            match found {
                Some(value) => self@.get(key@) == Some(value@),
                None => self@.get(key@) is None,
            },
    {
        match self {
            Json::Object(fields) => {
                proof {
                    lemma_object_model(*fields);
                }
                let at = field_position(fields, key);
                if at < fields.len() {
                    Some(&fields[at].1)
                } else {
                    None
                }
            },
            _ => None,
        }
    }

    /// The value under a key, null where there is none.
    pub fn at(&self, key: &str) -> (value: &Json)
        ensures
            value@ == self@.at(key@),
    {
        match self.get(key) {
            Some(value) => value,
            None => &Json::Null,
        }
    }

    /// The text that this value is, if it is one.
    pub fn as_text(&self) -> (text: Option<&str>)
        ensures
            opt_str(text) == self@.as_text(),
    {
        match self {
            Json::Text(text) => Some(text.as_str()),
            _ => None,
        }
    }

    /// The truth value that this value is, if it is one.
    pub fn as_bool(&self) -> (value: Option<bool>)
        ensures
            value == self@.as_bool(),
    {
        match self {
            Json::Bool(b) => Some(*b),
            _ => None,
        }
    }

    /// The unsigned machine word that this value is, if it is one.
    pub fn as_u64(&self) -> (value: Option<u64>)
        ensures
            value == self@.as_u64(),
    {
        match self {
            Json::Number(JsonNumber::Unsigned(n)) => Some(*n),
            _ => None,
        }
    }

    /// The signed machine word that this value is, if it is one.
    pub fn as_i64(&self) -> (value: Option<i64>)
        ensures
            value == self@.as_i64(),
    {
        match self {
            Json::Number(JsonNumber::Unsigned(n)) => if *n <= 0x7fff_ffff_ffff_ffff {
                Some(*n as i64)
            } else {
                None
            },
            Json::Number(JsonNumber::Negative(n)) => Some(*n),
            _ => None,
        }
    }

    /// The list that this value is, if it is one.
    pub fn as_array(&self) -> (items: Option<&Vec<Json>>)
        ensures
            match items {
                Some(items) => self@.as_array() == Some(jsons(items@)),
                None => self@.as_array() is None,
            },
    {
        match self {
            Json::Array(items) => {
                proof {
                    lemma_array_model(*items);
                }
                Some(items)
            },
            _ => None,
        }
    }

    /// Whether this value is null.
    pub fn is_null(&self) -> (null: bool)
        ensures
            null == (self@ == JsonView::Null),
    {
        match self {
            Json::Null => true,
            _ => false,
        }
    }

    /// Whether this value is an object.
    pub fn is_object(&self) -> (object: bool)
        ensures
            object == (self@ is Object),
    {
        match self {
            Json::Object(_) => true,
            _ => false,
        }
    }

    /// Whether this value is the given text.
    pub fn is_text(&self, text: &str) -> (same: bool)
        ensures
            same == self@.is_text(text@),
    {
        match self {
            Json::Text(own) => same_text(own.as_str(), text),
            _ => false,
        }
    }

    /// The text under a key, if there is one.
    pub fn field(&self, key: &str) -> (text: Option<&str>)
        ensures
            opt_str(text) == self@.field(key@),
    {
        match self.get(key) {
            Some(value) => value.as_text(),
            None => None,
        }
    }

    /// Sets a field of this object; what is no object stays as it is.
    pub fn set(self, key: &str, value: Json) -> (result: Json)
        ensures
            result@ == self@.set(key@, value@),
    {
        match self {
            Json::Object(fields) => {
                let mut fields = fields;
                proof {
                    lemma_object_model(fields);
                }
                let ghost before = pairs(fields@);
                let at = field_position(&fields, key);
                if at < fields.len() {
                    fields.set(at, (key.to_owned(), value));
                } else {
                    fields.push((key.to_owned(), value));
                }
                proof {
                    lemma_object_model(fields);
                    assert(pairs(fields@) =~= set_field(before, key@, value@));
                }
                Json::Object(fields)
            },
            other => other,
        }
    }
}

/// The index of the first field with a key, or the number of fields.
pub fn field_position(fields: &Vec<(String, Json)>, key: &str) -> (at: usize)
    ensures
        at == position(pairs(fields@), key@),
{
    let ghost all = pairs(fields@);
    let mut i: usize = 0;
    while i < fields.len()
        invariant
            i <= fields@.len(),
            all == pairs(fields@),
            forall|k: int| 0 <= k < i ==> (#[trigger] all[k]).0 != key@,
        decreases fields@.len() - i,
    {
        if same_text(fields[i].0.as_str(), key) {
            proof {
                lemma_position_is(all, key@, i as int);
            }
            return i;
        }
        i = i + 1;
    }
    proof {
        lemma_position_is(all, key@, i as int);
    }
    i
}

/// A copy of an optional text.
pub fn copy_text(text: Option<&str>) -> (copy: Option<String>)
    ensures
        opt_text(copy) == opt_str(text),
{
    match text {
        Some(text) => Some(text.to_owned()),
        None => None,
    }
}

/// A text, or another where it is missing.
pub fn text_or_else<'a>(text: Option<&'a str>, default: &'a str) -> (chosen: &'a str)
    ensures
        chosen@ == text_or(opt_str(text), default@),
{
    match text {
        Some(text) => text,
        None => default,
    }
}

/// Whether an optional text is the given one.
pub fn text_is(text: Option<&str>, other: &str) -> (same: bool)
    ensures
        same == (opt_str(text) == Some(other@)),
{
    match text {
        Some(text) => same_text(text, other),
        None => false,
    }
}

impl Clone for JsonNumber {
    fn clone(&self) -> (copy: Self)
        ensures
            copy@ == self@,
    {
        match self {
            JsonNumber::Unsigned(n) => JsonNumber::Unsigned(*n),
            JsonNumber::Negative(n) => JsonNumber::Negative(*n),
            JsonNumber::Other(text) => JsonNumber::Other(text.clone()),
        }
    }
}

impl Clone for Json {
    fn clone(&self) -> (copy: Self)
        ensures
            copy@ == self@,
        decreases self,
    {
        match self {
            Json::Null => Json::Null,
            Json::Bool(b) => Json::Bool(*b),
            Json::Number(n) => Json::Number(n.clone()),
            Json::Text(text) => Json::Text(text.clone()),
            Json::Array(items) => {
                let mut copies: Vec<Json> = Vec::new();
                let mut i: usize = 0;
                while i < items.len()
                    invariant
                        self == Json::Array(*items),
                        i <= items@.len(),
                        copies@.len() == i,
                        forall|k: int| 0 <= k < i ==> (#[trigger] copies@[k])@ == items@[k]@,
                    decreases items@.len() - i,
                {
                    proof {
                        lemma_item_smaller(*self, i as int);
                    }
                    let copy = items[i].clone();
                    copies.push(copy);
                    i = i + 1;
                }
                proof {
                    broadcast use {lemma_array_model};
                    assert(jsons(copies@) =~= jsons(items@));
                    assert(Json::Array(copies).model() == self.model());
                }
                Json::Array(copies)
            },
            Json::Object(fields) => {
                let mut copies: Vec<(String, Json)> = Vec::new();
                let mut i: usize = 0;
                while i < fields.len()
                    invariant
                        self == Json::Object(*fields),
                        i <= fields@.len(),
                        copies@.len() == i,
                        forall|k: int|
                            0 <= k < i ==> (#[trigger] copies@[k]).0@ == fields@[k].0@
                                && copies@[k].1@ == fields@[k].1@,
                    decreases fields@.len() - i,
                {
                    proof {
                        lemma_field_smaller(*self, i as int);
                    }
                    let copy = fields[i].1.clone();
                    copies.push((fields[i].0.clone(), copy));
                    i = i + 1;
                }
                proof {
                    broadcast use {lemma_object_model};
                    assert(pairs(copies@) =~= pairs(fields@));
                    assert(Json::Object(copies).model() == self.model());
                }
                Json::Object(copies)
            },
        }
    }
}

/// An item of a list is smaller than the list.
pub proof fn lemma_item_smaller(value: Json, i: int)
    requires
        value is Array,
        0 <= i < value->Array_0@.len(),
    ensures
        decreases_to!(value => value->Array_0@[i]),
{
    assert(decreases_to!(value => value->Array_0));
    assert(decreases_to!(value->Array_0 => value->Array_0@));
    assert(decreases_to!(value->Array_0@ => value->Array_0@[i]));
}

/// The value of a field is smaller than the object.
pub proof fn lemma_field_smaller(value: Json, i: int)
    requires
        value is Object,
        0 <= i < value->Object_0@.len(),
    ensures
        decreases_to!(value => value->Object_0@[i].1),
{
    assert(decreases_to!(value => value->Object_0));
    assert(decreases_to!(value->Object_0 => value->Object_0@));
    assert(decreases_to!(value->Object_0@ => value->Object_0@[i]));
    assert(decreases_to!(value->Object_0@[i] => value->Object_0@[i].1));
}

} // verus!
