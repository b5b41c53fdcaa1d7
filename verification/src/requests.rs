//! Requests to the agent: what they hold, and which of them are waited for.
//!
//! Replies can overtake one another: each names the request that it is to.

use vstd::prelude::*;

#[allow(unused_imports)]
use crate::counter::following;
use crate::counter::next_number;
use crate::json::{Json, JsonView};
#[allow(unused_imports)]
use crate::json::{empty_object, jsons, lemma_array_model, texts};
use crate::names::{add_name, contains_name, drop_name};
#[allow(unused_imports)]
use crate::names::{lemma_with_name, lemma_without_name, with_name, without_name};
#[allow(unused_imports)]
use crate::text::{decimal, lemma_decimal_injective};
use crate::text::decimal_text;

verus! {

/// A request: its kind and its fields.
#[derive(Debug, PartialEq)]
pub struct Request {
    pub kind: String,
    pub fields: Json,
}

/// The value of a list of requests.
pub open spec fn requests(list: Seq<Request>) -> Seq<(Seq<char>, JsonView)> {
    list.map_values(|request: Request| (request.kind@, request.fields@))
}

/// The number of the next request, and the names of those that are waited for.
pub struct WaitingView {
    pub next: u64,
    pub waiting: Seq<Seq<char>>,
}

/// Nothing was asked yet.
pub open spec fn nothing_asked() -> WaitingView {
    WaitingView { next: 0, waiting: Seq::empty() }
}

/// The name of the next request.
pub open spec fn next_name(w: WaitingView, prefix: Seq<char>) -> Seq<char> {
    prefix + decimal(w.next as nat)
}

/// A number is taken for a request.
pub open spec fn numbered(w: WaitingView) -> WaitingView {
    WaitingView { next: following(w.next), ..w }
}

/// A request is waited for.
pub open spec fn asked(w: WaitingView, name: Seq<char>) -> WaitingView {
    WaitingView { waiting: with_name(w.waiting, name), ..w }
}

/// A request is waited for no more.
pub open spec fn settled(w: WaitingView, name: Seq<char>) -> WaitingView {
    WaitingView { waiting: without_name(w.waiting, name), ..w }
}

/// No request is waited for any more.
pub open spec fn given_up(w: WaitingView) -> WaitingView {
    WaitingView { waiting: Seq::empty(), ..w }
}

/// The word that the transport is closed, with the reason.
pub open spec fn closing(reason: Seq<char>) -> JsonView {
    empty_object().set("type"@, JsonView::Text("_transport_closed"@)).set(
        "error"@,
        JsonView::Text(reason),
    )
}

/// What a reply says.
pub open spec fn reply_of(value: JsonView, default: Seq<char>) -> Result<JsonView, Seq<char>> {
    if value.at("success"@) == JsonView::Bool(true) {
        Ok(value.at("data"@))
    } else {
        match value.at("error"@).as_text() {
            Some(error) => Err(error),
            None => Err(default),
        }
    }
}

/// The value of a reply.
pub open spec fn reply_view(reply: Result<Json, String>) -> Result<JsonView, Seq<char>> {
    match reply {
        Ok(data) => Ok(data@),
        Err(error) => Err(error@),
    }
}

/// The requests that are waited for.
pub struct Waiting {
    pub next: u64,
    pub waiting: Vec<String>,
}

impl View for Waiting {
    type V = WaitingView;

    open spec fn view(&self) -> WaitingView {
        WaitingView { next: self.next, waiting: texts(self.waiting@) }
    }
}

impl Waiting {
    /// Nothing was asked yet.
    pub fn new() -> (waiting: Self)
        ensures
            waiting@ == nothing_asked(),
    {
        let waiting: Vec<String> = Vec::new();
        proof {
            assert(texts(waiting@) =~= Seq::<Seq<char>>::empty());
        }
        Waiting { next: 0, waiting }
    }

    /// Takes the name of the next request.
    pub fn take_name(&mut self, prefix: &str) -> (name: String)
        ensures
            name@ == next_name(old(self)@, prefix@),
            final(self)@ == numbered(old(self)@),
    {
        let name = prefix.to_owned().concat(decimal_text(self.next).as_str());
        self.next = next_number(self.next);
        name
    }

    /// Waits for a request.
    pub fn wait_for(&mut self, name: &str)
        ensures
            final(self)@ == asked(old(self)@, name@),
    {
        add_name(&mut self.waiting, name);
    }

    /// Waits for a request no more. Tells whether it was waited for.
    pub fn settle(&mut self, name: &str) -> (was: bool)
        ensures
            was == old(self)@.waiting.contains(name@),
            final(self)@ == settled(old(self)@, name@),
    {
        let was = contains_name(&self.waiting, name);
        drop_name(&mut self.waiting, name);
        was
    }

    /// Waits for nothing any more. Gives the names of what was waited for.
    pub fn give_up(&mut self) -> (names: Vec<String>)
        ensures
            texts(names@) == old(self)@.waiting,
            final(self)@ == given_up(old(self)@),
    {
        let mut names: Vec<String> = Vec::new();
        names.append(&mut self.waiting);
        proof {
            assert(texts(names@) =~= old(self)@.waiting);
            assert(self@.waiting =~= Seq::<Seq<char>>::empty());
        }
        names
    }
}

/// The word that the transport is closed, with the reason.
pub fn closing_message(reason: &str) -> (message: Json)
    ensures
        message@ == closing(reason@),
{
    Json::object().set("type", Json::text("_transport_closed")).set("error", Json::text(reason))
}

/// What a reply says.
pub fn read_reply(value: &Json, default: &str) -> (reply: Result<Json, String>)
    ensures
        reply_view(reply) == reply_of(value@, default@),
{
    if value.at("success").as_bool() == Some(true) {
        Ok(value.at("data").clone())
    } else {
        match value.at("error").as_text() {
            Some(error) => Err(error.to_owned()),
            None => Err(default.to_owned()),
        }
    }
}

/// The fields of the first prompt of a session.
pub open spec fn prompt_of(message: Seq<char>, images: Seq<JsonView>) -> JsonView {
    empty_object().set("message"@, JsonView::Text(message)).set(
        "images"@,
        JsonView::Array(images),
    )
}

/// The fields of the first prompt of a session.
pub fn prompt_fields(message: &str, images: Vec<Json>) -> (fields: Json)
    ensures
        fields@ == prompt_of(message@, jsons(images@)),
{
    proof {
        lemma_array_model(images);
    }
    Json::object().set("message", Json::text(message)).set("images", Json::Array(images))
}

/// The fields of a prompt that reaches an agent which may be at work.
pub open spec fn steer_of(message: Seq<char>) -> JsonView {
    empty_object().set("message"@, JsonView::Text(message)).set(
        "streamingBehavior"@,
        JsonView::Text("steer"@),
    )
}

/// The fields of a prompt that reaches an agent which may be at work.
pub fn steer_fields(message: &str) -> (fields: Json)
    ensures
        fields@ == steer_of(message@),
{
    Json::object().set("message", Json::text(message)).set(
        "streamingBehavior",
        Json::text("steer"),
    )
}

/// The fields of a wait for the agent and its children to come to rest.
pub open spec fn quiescence_of() -> JsonView {
    empty_object().set("waitForRlmQuiescence"@, JsonView::Bool(true))
}

/// The fields of a wait for the agent and its children to come to rest.
pub fn quiescence_fields() -> (fields: Json)
    ensures
        fields@ == quiescence_of(),
{
    Json::object().set("waitForRlmQuiescence", Json::Bool(true))
}

/// The fields of a request on another session.
pub open spec fn session_of(key: Seq<char>) -> JsonView {
    empty_object().set("activeSessionId"@, JsonView::Text(key))
}

/// The fields of a request on another session.
pub fn session_fields(key: &str) -> (fields: Json)
    ensures
        fields@ == session_of(key@),
{
    Json::object().set("activeSessionId", Json::text(key))
}

/// Requests with different numbers have different names.
pub proof fn request_names_differ(a: u64, b: u64, prefix: Seq<char>)
    requires
        a != b,
    ensures
        prefix + decimal(a as nat) != prefix + decimal(b as nat),
{
    if prefix + decimal(a as nat) == prefix + decimal(b as nat) {
        let k = prefix.len() as int;
        assert((prefix + decimal(a as nat)).skip(k) =~= decimal(a as nat));
        assert((prefix + decimal(b as nat)).skip(k) =~= decimal(b as nat));
        lemma_decimal_injective(a as nat, b as nat);
    }
}

/// A request that was sent is waited for until it is settled, and then no more;
/// the others are not touched.
pub proof fn a_request_is_settled_once(w: WaitingView, name: Seq<char>, other: Seq<char>)
    requires
        other != name,
    ensures
        asked(w, name).waiting.contains(name),
        !settled(asked(w, name), name).waiting.contains(name),
        asked(w, name).waiting.contains(other) == w.waiting.contains(other),
        settled(w, name).waiting.contains(other) == w.waiting.contains(other),
{
    lemma_with_name(w.waiting, name);
    lemma_without_name(asked(w, name).waiting, name);
    lemma_without_name(w.waiting, name);
}

} // verus!
