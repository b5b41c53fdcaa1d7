//! Requests to an agent that runs as a process of its own and is spoken to
//! through its standard input and output, one JSON value to a line.

use vstd::prelude::*;

use crate::json::{text_is, Json, JsonView};
#[allow(unused_imports)]
use crate::json::{opt_str, texts};
use crate::names::contains_name;
#[allow(unused_imports)]
use crate::names::lemma_without_name;
use crate::proto::{protocol_error, ErrorView, HarnessError};
#[allow(unused_imports)]
use crate::requests::{
    asked, closing, given_up, next_name, nothing_asked, numbered,
    reply_of, reply_view, settled, WaitingView,
};
use crate::requests::{closing_message, read_reply, Waiting};
use crate::wire;
#[allow(unused_imports)]
use crate::wire::parsed;

verus! {

/// What a line of the agent's output comes to.
#[derive(Debug, PartialEq)]
pub enum Incoming {
    /// Nothing to do.
    Nothing,
    /// The reply to a request that is waited for.
    Reply { id: String, reply: Result<Json, String> },
    /// A message for the session.
    Message(Json),
    /// The transport cannot be used any more.
    Failure(String),
}

/// What an [`Incoming`] is, as a mathematical value.
pub enum IncomingView {
    Nothing,
    Reply { id: Seq<char>, reply: Result<JsonView, Seq<char>> },
    Message(JsonView),
    Failure(Seq<char>),
}

impl View for Incoming {
    type V = IncomingView;

    open spec fn view(&self) -> IncomingView {
        match self {
            Incoming::Nothing => IncomingView::Nothing,
            Incoming::Reply { id, reply } => IncomingView::Reply {
                id: id@,
                reply: reply_view(*reply),
            },
            Incoming::Message(value) => IncomingView::Message(value@),
            Incoming::Failure(reason) => IncomingView::Failure(reason@),
        }
    }
}

/// A request as it is sent.
pub open spec fn request_line(fields: JsonView, id: Seq<char>, kind: Seq<char>) -> JsonView {
    fields.set("id"@, JsonView::Text(id)).set("type"@, JsonView::Text(kind))
}

/// What a value that the agent sent comes to.
pub open spec fn taken(w: WaitingView, value: JsonView) -> (WaitingView, IncomingView) {
    if value.field("type"@) == Some("response"@) {
        match value.field("id"@) {
            Some(id) => if w.waiting.contains(id) {
                (
                    settled(w, id),
                    IncomingView::Reply { id, reply: reply_of(value, "Prime RPC request failed"@) },
                )
            } else {
                (w, IncomingView::Nothing)
            },
            None => (w, IncomingView::Nothing),
        }
    } else {
        (w, IncomingView::Message(value))
    }
}

/// What a line that the agent sent comes to.
pub open spec fn taken_line(w: WaitingView, line: Seq<char>) -> (WaitingView, IncomingView) {
    if line.len() == 0 {
        (w, IncomingView::Nothing)
    } else {
        match parsed(line) {
            Ok(value) => taken(w, value),
            Err(error) => (
                w,
                IncomingView::Failure("Prime RPC sent invalid JSON: "@ + error),
            ),
        }
    }
}

/// Why there is nothing more to read.
pub open spec fn stdout_failure(error: Option<Seq<char>>) -> Seq<char> {
    match error {
        Some(error) => "Prime RPC stdout failed: "@ + error,
        None => "Prime RPC process closed stdout"@,
    }
}

/// What a request came to. There is no reply where the transport was dropped
/// before one came.
pub open spec fn answer_of(
    kind: Seq<char>,
    reply: Option<Result<JsonView, Seq<char>>>,
) -> Result<JsonView, ErrorView> {
    match reply {
        Some(Ok(data)) => Ok(data),
        Some(Err(error)) => Err(ErrorView::Protocol("Prime RPC "@ + kind + ": "@ + error)),
        None => Err(ErrorView::Protocol("Prime RPC closed during "@ + kind)),
    }
}

/// A result of a request, as a mathematical value.
pub open spec fn answer_view(answer: Result<Json, HarnessError>) -> Result<JsonView, ErrorView> {
    match answer {
        Ok(data) => Ok(data@),
        Err(error) => Err(error@),
    }
}

/// The connection to an agent that runs as a process of its own.
pub struct PrimeClient {
    pub requests: Waiting,
}

impl View for PrimeClient {
    type V = WaitingView;

    open spec fn view(&self) -> WaitingView {
        self.requests@
    }
}

impl PrimeClient {
    /// A connection over which nothing was sent yet.
    pub fn new() -> (client: Self)
        ensures
            client@ == nothing_asked(),
    {
        PrimeClient { requests: Waiting::new() }
    }

    /// Makes a request that is to be sent and waited for: gives its name and
    /// the value to send.
    pub fn request(&mut self, kind: &str, fields: Json) -> (sent: Result<
        (String, Json),
        HarnessError,
    >)
        ensures
            match sent {
                Ok((id, line)) => {
                    &&& fields@ is Object
                    &&& id@ == next_name(old(self)@, ""@)
                    &&& line@ == request_line(fields@, id@, kind@)
                    &&& final(self)@ == asked(numbered(old(self)@), id@)
                },
                Err(error) => {
                    &&& !(fields@ is Object)
                    &&& error@ == ErrorView::Protocol("Prime RPC request fields must be an object"@)
                    &&& final(self)@ == numbered(old(self)@)
                },
            },
    {
        let id = self.requests.take_name("");
        if !fields.is_object() {
            return Err(protocol_error("Prime RPC request fields must be an object"));
        }
        let line = fields.set("id", Json::text(id.as_str())).set("type", Json::text(kind));
        self.requests.wait_for(id.as_str());
        Ok((id, line))
    }

    /// Takes back a request that could not be sent.
    pub fn unsent(&mut self, id: &str, kind: &str) -> (error: HarnessError)
        ensures
            final(self)@ == settled(old(self)@, id@),
            error@ == ErrorView::Protocol("Prime RPC stdin closed before "@ + kind@),
    {
        let _ = self.requests.settle(id);
        HarnessError::Protocol("Prime RPC stdin closed before ".to_owned().concat(kind))
    }

    /// Takes in a value that the agent sent.
    pub fn take_value(&mut self, value: Json) -> (incoming: Incoming)
        ensures
            (final(self)@, incoming@) == taken(old(self)@, value@),
    {
        if !text_is(value.field("type"), "response") {
            return Incoming::Message(value);
        }
        match value.field("id") {
            Some(id) => {
                if contains_name(&self.requests.waiting, id) {
                    let _ = self.requests.settle(id);
                    Incoming::Reply {
                        id: id.to_owned(),
                        reply: read_reply(&value, "Prime RPC request failed"),
                    }
                } else {
                    Incoming::Nothing
                }
            },
            None => Incoming::Nothing,
        }
    }

    /// Takes in a line that the agent sent.
    pub fn take_line(&mut self, line: &str) -> (incoming: Incoming)
        ensures
            (final(self)@, incoming@) == taken_line(old(self)@, line@),
    {
        if line.is_empty() {
            return Incoming::Nothing;
        }
        match wire::parse(line) {
            Ok(value) => self.take_value(value),
            Err(error) => Incoming::Failure(
                "Prime RPC sent invalid JSON: ".to_owned().concat(error.as_str()),
            ),
        }
    }

    /// Closes the connection: gives the names of the requests that fail with
    /// the reason, and the last message for the session.
    pub fn close(&mut self, reason: &str) -> (last: (Vec<String>, Json))
        ensures
            texts(last.0@) == old(self)@.waiting,
            last.1@ == closing(reason@),
            final(self)@ == given_up(old(self)@),
    {
        (self.requests.give_up(), closing_message(reason))
    }
}

/// Why there is nothing more to read: an error, or the end of the output.
pub fn stdout_reason(error: Option<&str>) -> (reason: String)
    ensures
        reason@ == stdout_failure(opt_str(error)),
{
    match error {
        Some(error) => "Prime RPC stdout failed: ".to_owned().concat(error),
        None => "Prime RPC process closed stdout".to_owned(),
    }
}

/// What a request came to. There is no reply where the transport was dropped
/// before one came.
pub fn answer(kind: &str, reply: Option<Result<Json, String>>) -> (answer: Result<
    Json,
    HarnessError,
>)
    ensures
        answer_view(answer) == answer_of(
            kind@,
            match reply {
                Some(reply) => Some(reply_view(reply)),
                None => None,
            },
        ),
{
    match reply {
        Some(Ok(data)) => Ok(data),
        Some(Err(error)) => Err(
            HarnessError::Protocol(
                "Prime RPC ".to_owned().concat(kind).concat(": ").concat(error.as_str()),
            ),
        ),
        None => Err(
            HarnessError::Protocol("Prime RPC closed during ".to_owned().concat(kind)),
        ),
    }
}

/// A reply completes the request that it names and no other, once, and is no
/// message for the session; any other value is a message for the session, as it
/// came, and completes nothing.
pub proof fn replies_and_messages_stay_apart(w: WaitingView, value: JsonView)
    ensures
        value.field("type"@) == Some("response"@) ==> !(taken(w, value).1 is Message),
        value.field("type"@) != Some("response"@) ==> taken(w, value) == (
            w,
            IncomingView::Message(value),
        ),
        taken(w, value).1 matches IncomingView::Reply { id, .. } ==> value.field("id"@) == Some(id)
            && w.waiting.contains(id) && taken(taken(w, value).0, value).1 is Nothing,
        forall|other: Seq<char>|
            value.field("id"@) != Some(other) ==> #[trigger] taken(
                w,
                value,
            ).0.waiting.contains(other) == w.waiting.contains(other),
{
    match value.field("id"@) {
        Some(id) => {
            lemma_without_name(w.waiting, id);
        },
        None => {},
    }
}

/// A closed connection waits for nothing, and answers no request any more.
pub proof fn a_closed_connection_answers_nothing(w: WaitingView, value: JsonView)
    ensures
        given_up(w).waiting.len() == 0,
        !(taken(given_up(w), value).1 is Reply),
{
}

} // verus!
