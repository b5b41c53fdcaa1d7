//! Requests to Prime's daemon, which keeps sessions beyond the life of a
//! program and says by itself when a turn is complete.

use vstd::prelude::*;

#[allow(unused_imports)]
use crate::client::answer_view;
#[allow(unused_imports)]
use crate::extension_ui::response_of;
use crate::ids::fresh_uuid;
#[allow(unused_imports)]
use crate::ids::is_uuid_text;
use crate::json::{text_or_else, Json, JsonNumber, JsonView, NumberView};
#[allow(unused_imports)]
use crate::json::{
    empty_object, jsons, lemma_array_model, lemma_get_set, opt_str, opt_text, text_or, texts,
};
use crate::names::{add_name, contains_name, drop_name};
#[allow(unused_imports)]
use crate::names::{lemma_with_name, lemma_without_name, with_name, without_name};
use crate::proto::{protocol_error, ErrorView, HarnessError};
#[allow(unused_imports)]
use crate::requests::{
    asked, closing, given_up, next_name, nothing_asked, numbered, reply_of, reply_view, settled,
    WaitingView,
};
use crate::requests::{closing_message, read_reply, Waiting};
use crate::text::same_text;
use crate::wire;
#[allow(unused_imports)]
use crate::wire::parsed;

verus! {

/// The oldest version of the protocol that has what the driver needs.
pub const OLDEST_VERSION: u64 = 7;

/// What is known of a daemon: the names under which this program and its
/// session go there, the sessions that are observed, and the requests that are
/// waited for.
pub struct DaemonView {
    pub client_id: Seq<char>,
    pub version: u64,
    pub root: Option<Seq<char>>,
    pub observed: Seq<Seq<char>>,
    pub requests: WaitingView,
}

/// Whether a list has a given text in it.
pub open spec fn lists_text(list: JsonView, text: Seq<char>) -> bool {
    match list.as_array() {
        Some(items) => items.contains(JsonView::Text(text)),
        None => false,
    }
}

/// The version of the protocol in a greeting.
pub open spec fn greeted_version(hello: JsonView) -> u64 {
    match hello.at("protocol"@).at("version"@).as_u64() {
        Some(version) => version,
        None => 0,
    }
}

/// Whether a greeting is one of a daemon that has what the driver needs.
pub open spec fn is_fit(hello: JsonView) -> bool {
    &&& hello.at("type"@).is_text("daemon_hello"@)
    &&& hello.at("protocol"@).at("name"@).is_text("prime-agent.daemon"@)
    &&& greeted_version(hello) >= OLDEST_VERSION
    &&& lists_text(hello.at("serverCapabilities"@), "rlm_quiescence_barrier"@)
}

/// The version of the protocol that a greeting offers.
pub open spec fn greeting(hello: JsonView) -> Result<u64, ErrorView> {
    if is_fit(hello) {
        Ok(greeted_version(hello))
    } else {
        Err(
            ErrorView::Protocol(
                "Prime daemon lacks the native RLM completion protocol; update Prime Agent"@,
            ),
        )
    }
}

/// The version of the protocol that a line with a greeting offers.
pub open spec fn greeting_line(line: Seq<char>) -> Result<u64, ErrorView> {
    match parsed(line) {
        Ok(hello) => greeting(hello),
        Err(error) => Err(ErrorView::Protocol("Invalid Prime daemon handshake: "@ + error)),
    }
}

/// The protocol, as every command names it.
pub open spec fn protocol_of(version: u64) -> JsonView {
    empty_object().set("name"@, JsonView::Text("prime-agent.daemon"@)).set(
        "version"@,
        JsonView::Number(NumberView::Unsigned(version)),
    )
}

/// A command as it is sent.
pub open spec fn envelope(d: DaemonView, id: Seq<char>, command: JsonView) -> JsonView {
    empty_object().set("type"@, JsonView::Text("command"@)).set("id"@, JsonView::Text(id)).set(
        "clientId"@,
        JsonView::Text(d.client_id),
    ).set("protocol"@, protocol_of(d.version)).set("command"@, command)
}

/// The word that a reply was received.
pub open spec fn acknowledgement(d: DaemonView, id: Seq<char>) -> JsonView {
    envelope(
        d,
        "ack-"@ + id,
        empty_object().set("type"@, JsonView::Text("ack_result"@)).set(
            "commandId"@,
            JsonView::Text(id),
        ),
    )
}

/// The fields of the request for a session.
pub open spec fn creation(cwd: Seq<char>, resume: Option<Seq<char>>) -> JsonView {
    let fields = empty_object().set("lifecycle"@, JsonView::Text("resident"@)).set(
        "config"@,
        empty_object().set("cwd"@, JsonView::Text(cwd)).set(
            "executionMode"@,
            JsonView::Text("rpc"@),
        ),
    );
    match resume {
        Some(path) => fields.set("sessionPath"@, JsonView::Text(path)),
        None => fields,
    }
}

/// The fields of the request for the events of the session.
pub open spec fn attachment(d: DaemonView, root: Seq<char>) -> JsonView {
    empty_object().set("activeSessionId"@, JsonView::Text(root)).set(
        "clientId"@,
        JsonView::Text(d.client_id),
    ).set("supportsExtensionUi"@, JsonView::Bool(true)).set(
        "capabilities"@,
        JsonView::Array(
            seq![
                JsonView::Text("attach_snapshot"@),
                JsonView::Text("event_sequence"@),
                JsonView::Text("extension_ui"@),
            ],
        ),
    )
}

/// The session that a request is on.
pub open spec fn target_of(d: DaemonView, fields: JsonView) -> Seq<char> {
    text_or(fields.field("activeSessionId"@), text_or(d.root, ""@))
}

/// What a kind of request is called by the daemon.
pub open spec fn daemon_kind(kind: Seq<char>) -> Seq<char> {
    if kind == "observe"@ {
        "attach"@
    } else if kind == "unobserve"@ {
        "detach"@
    } else if kind == "get_state"@ {
        "get_connection_state"@
    } else if kind == "get_session_summary"@ {
        "get_state"@
    } else {
        kind
    }
}

/// The fields of a request, as the daemon takes them.
pub open spec fn daemon_fields(d: DaemonView, kind: Seq<char>, fields: JsonView) -> JsonView {
    let named = fields.set("activeSessionId"@, JsonView::Text(target_of(d, fields)));
    if kind == "observe"@ {
        named.set("clientId"@, JsonView::Text(d.client_id)).set(
            "capabilities"@,
            JsonView::Array(
                seq![JsonView::Text("attach_snapshot"@), JsonView::Text("event_sequence"@)],
            ),
        )
    } else {
        named
    }
}

/// The sessions that are observed once a request is made.
pub open spec fn observing(d: DaemonView, kind: Seq<char>, target: Seq<char>) -> Seq<Seq<char>> {
    if kind == "observe"@ {
        with_name(d.observed, target)
    } else if kind == "unobserve"@ {
        without_name(d.observed, target)
    } else {
        d.observed
    }
}

/// The daemon once a command is made.
pub open spec fn commanded(d: DaemonView) -> DaemonView {
    DaemonView {
        requests: asked(numbered(d.requests), next_name(d.requests, "jj-"@)),
        ..d
    }
}

/// The command that is made next.
pub open spec fn command_of(d: DaemonView, kind: Seq<char>, fields: JsonView) -> JsonView {
    envelope(
        d,
        next_name(d.requests, "jj-"@),
        fields.set("type"@, JsonView::Text(kind)),
    )
}

/// What a command came to. There is no reply where the connection was dropped
/// before one came.
pub open spec fn result_of(
    kind: Seq<char>,
    reply: Option<Result<JsonView, Seq<char>>>,
) -> Result<JsonView, ErrorView> {
    match reply {
        Some(Ok(data)) => Ok(data),
        Some(Err(error)) => Err(ErrorView::Protocol("Prime daemon "@ + kind + ": "@ + error)),
        None => Err(ErrorView::Protocol("Prime daemon closed during "@ + kind)),
    }
}

/// What a request came to. An observation gives the messages up to then, and is
/// none where it failed.
pub open spec fn concluded(
    d: DaemonView,
    kind: Seq<char>,
    target: Seq<char>,
    result: Result<JsonView, ErrorView>,
) -> (DaemonView, Result<JsonView, ErrorView>) {
    if kind == "observe"@ {
        match result {
            Ok(data) => (
                d,
                Ok(empty_object().set("messages"@, data.at("snapshot"@).at("messages"@))),
            ),
            Err(error) => (
                DaemonView { observed: without_name(d.observed, target), ..d },
                Err(error),
            ),
        }
    } else {
        (d, result)
    }
}

/// A message of an observed session.
pub open spec fn observed_message(kind: Seq<char>, session: Seq<char>) -> JsonView {
    empty_object().set("type"@, JsonView::Text(kind)).set(
        "activeSessionId"@,
        JsonView::Text(session),
    )
}

/// A request of an extension, as the session takes it.
pub open spec fn extension_message(value: JsonView) -> JsonView {
    value.at("payload"@).set("type"@, JsonView::Text("extension_ui_request"@)).set(
        "id"@,
        value.at("id"@),
    ).set("method"@, value.at("method"@))
}

/// Whether a kind of message on the session is handed on as it came.
pub open spec fn is_session_news(kind: Seq<char>) -> bool {
    kind == "extension_error"@ || kind == "session_status"@ || kind == "session_replaced"@ || kind
        == "session_resynced"@ || kind == "session_attached"@ || kind == "session_detached"@ || kind
        == "side_question_event"@
}

/// Whether a kind of message on the daemon is handed on as it came.
pub open spec fn is_daemon_news(kind: Seq<char>) -> bool {
    kind == "heartbeats_changed"@ || kind == "roster_update"@ || kind == "daemon_closing"@
}

/// The messages for the session that a value which is no reply comes to.
pub open spec fn routed(d: DaemonView, value: JsonView) -> Seq<JsonView> {
    let session = value.at("activeSessionId"@).as_text();
    let own = session == d.root;
    let watched = session is Some && d.observed.contains(session->0);
    match value.at("type"@).as_text() {
        Some(kind) => if kind == "session_event"@ && own {
            match value.get("event"@) {
                Some(event) => seq![event],
                None => Seq::empty(),
            }
        } else if kind == "session_event"@ && watched {
            seq![
                observed_message("observed_session_event"@, session->0).set(
                    "event"@,
                    value.at("event"@),
                ),
            ]
        } else if kind == "session_closed"@ && own {
            seq![value, closing("Prime daemon session closed"@)]
        } else if kind == "session_closed"@ && watched {
            seq![observed_message("observed_session_closed"@, session->0)]
        } else if kind == "extension_ui_request"@ && own {
            seq![extension_message(value)]
        } else if is_session_news(kind) && own {
            seq![value]
        } else if is_daemon_news(kind) {
            seq![value]
        } else {
            Seq::empty()
        },
        None => Seq::empty(),
    }
}

/// What a value that the daemon sent comes to.
pub enum ArrivalView {
    /// The reply to a request that is waited for, and the word to send back.
    Reply { id: Seq<char>, reply: Result<JsonView, Seq<char>>, acknowledgement: JsonView },
    /// Messages for the session.
    Messages(Seq<JsonView>),
    /// The connection cannot be used any more.
    Failure(Seq<char>),
}

/// What a value that the daemon sent comes to.
pub open spec fn arrived(d: DaemonView, value: JsonView) -> (DaemonView, ArrivalView) {
    if value.at("type"@).is_text("response"@) {
        match value.at("id"@).as_text() {
            Some(id) => if d.requests.waiting.contains(id) {
                (
                    DaemonView { requests: settled(d.requests, id), ..d },
                    ArrivalView::Reply {
                        id,
                        reply: reply_of(value, "Prime daemon request failed"@),
                        acknowledgement: acknowledgement(d, id),
                    },
                )
            } else {
                (d, ArrivalView::Messages(Seq::empty()))
            },
            None => (d, ArrivalView::Messages(Seq::empty())),
        }
    } else {
        (d, ArrivalView::Messages(routed(d, value)))
    }
}

/// What a line that the daemon sent comes to.
pub open spec fn arrived_line(d: DaemonView, line: Seq<char>) -> (DaemonView, ArrivalView) {
    if line.len() == 0 {
        (d, ArrivalView::Messages(Seq::empty()))
    } else {
        match parsed(line) {
            Ok(value) => arrived(d, value),
            Err(error) => (
                d,
                ArrivalView::Failure("Prime daemon sent invalid JSON: "@ + error),
            ),
        }
    }
}

/// Why there is nothing more to read.
pub open spec fn connection_failure(error: Option<Seq<char>>) -> Seq<char> {
    match error {
        Some(error) => "Prime daemon connection failed: "@ + error,
        None => "Prime daemon connection closed"@,
    }
}

/// The answer to an extension, as the daemon takes it.
pub open spec fn relayed_answer(value: JsonView) -> JsonView {
    match value.at("confirmed"@).as_bool() {
        Some(confirmed) => empty_object().set("confirmed"@, JsonView::Bool(confirmed)),
        None => match value.at("value"@).as_text() {
            Some(answer) => empty_object().set("value"@, JsonView::Text(answer)),
            None => empty_object().set("cancelled"@, JsonView::Bool(true)),
        },
    }
}

/// The fields of the request that relays an answer to an extension.
pub open spec fn relayed(value: JsonView) -> Result<JsonView, ErrorView> {
    if !value.at("type"@).is_text("extension_ui_response"@) {
        Err(ErrorView::Protocol("Unsupported Prime daemon notification"@))
    } else {
        match value.at("id"@).as_text() {
            Some(id) => Ok(
                empty_object().set("requestId"@, JsonView::Text(id)).set(
                    "response"@,
                    relayed_answer(value),
                ),
            ),
            None => Err(ErrorView::Protocol("Prime extension UI response has no ID"@)),
        }
    }
}

/// What a value that the daemon sent comes to.
#[derive(Debug, PartialEq)]
pub enum Arrival {
    /// The reply to a request that is waited for, and the word to send back.
    Reply { id: String, reply: Result<Json, String>, acknowledgement: Json },
    /// Messages for the session.
    Messages(Vec<Json>),
    /// The connection cannot be used any more.
    Failure(String),
}

impl View for Arrival {
    type V = ArrivalView;

    open spec fn view(&self) -> ArrivalView {
        match self {
            Arrival::Reply { id, reply, acknowledgement } => ArrivalView::Reply {
                id: id@,
                reply: reply_view(*reply),
                acknowledgement: acknowledgement@,
            },
            Arrival::Messages(list) => ArrivalView::Messages(jsons(list@)),
            Arrival::Failure(reason) => ArrivalView::Failure(reason@),
        }
    }
}

/// The list without values.
fn no_jsons() -> (list: Vec<Json>)
    ensures
        jsons(list@) == Seq::<JsonView>::empty(),
{
    let list: Vec<Json> = Vec::new();
    proof {
        assert(jsons(list@) =~= Seq::<JsonView>::empty());
    }
    list
}

/// The list of one value.
fn one_json(value: Json) -> (list: Vec<Json>)
    ensures
        jsons(list@) == seq![value@],
{
    let mut list: Vec<Json> = Vec::new();
    list.push(value);
    proof {
        assert(jsons(list@) =~= seq![value@]);
    }
    list
}

/// The list of two values.
fn two_jsons(first: Json, second: Json) -> (list: Vec<Json>)
    ensures
        jsons(list@) == seq![first@, second@],
{
    let mut list: Vec<Json> = Vec::new();
    list.push(first);
    list.push(second);
    proof {
        assert(jsons(list@) =~= seq![first@, second@]);
    }
    list
}

/// Whether a list has a given text in it.
fn has_text(list: &Json, text: &str) -> (has: bool)
    ensures
        has == lists_text(list@, text@),
{
    let items = match list.as_array() {
        Some(items) => items,
        None => {
            return false;
        },
    };
    let ghost all = jsons(items@);
    let mut i: usize = 0;
    while i < items.len()
        invariant
            i <= items@.len(),
            all == jsons(items@),
            list@.as_array() == Some(all),
            forall|k: int| 0 <= k < i ==> #[trigger] all[k] != JsonView::Text(text@),
        decreases items@.len() - i,
    {
        proof {
            assert(all[i as int] == items@[i as int]@);
        }
        if items[i].is_text(text) {
            proof {
                assert(all[i as int] == JsonView::Text(text@));
            }
            return true;
        }
        i = i + 1;
    }
    false
}

/// The version of the protocol that a greeting offers.
pub fn check_hello(hello: &Json) -> (version: Result<u64, HarnessError>)
    ensures
        match version {
            Ok(version) => greeting(hello@) == Ok::<u64, ErrorView>(version),
            Err(error) => greeting(hello@) == Err::<u64, ErrorView>(error@),
        },
{
    let version: u64 = match hello.at("protocol").at("version").as_u64() {
        Some(version) => version,
        None => 0,
    };
    if hello.at("type").is_text("daemon_hello") && hello.at("protocol").at("name").is_text(
        "prime-agent.daemon",
    ) && version >= OLDEST_VERSION && has_text(
        hello.at("serverCapabilities"),
        "rlm_quiescence_barrier",
    ) {
        Ok(version)
    } else {
        Err(
            protocol_error(
                "Prime daemon lacks the native RLM completion protocol; update Prime Agent",
            ),
        )
    }
}

/// The version of the protocol that a line with a greeting offers.
pub fn read_hello(line: &str) -> (version: Result<u64, HarnessError>)
    ensures
        match version {
            Ok(version) => greeting_line(line@) == Ok::<u64, ErrorView>(version),
            Err(error) => greeting_line(line@) == Err::<u64, ErrorView>(error@),
        },
{
    match wire::parse(line) {
        Ok(hello) => check_hello(&hello),
        Err(error) => Err(
            HarnessError::Protocol(
                "Invalid Prime daemon handshake: ".to_owned().concat(error.as_str()),
            ),
        ),
    }
}

/// The fields of the request for a session: a new one, or one that a file keeps.
pub fn creation_fields(cwd: &str, resume: Option<&str>) -> (fields: Json)
    ensures
        fields@ == creation(cwd@, opt_str(resume)),
{
    let config = Json::object().set("cwd", Json::text(cwd)).set("executionMode", Json::text("rpc"));
    let fields = Json::object().set("lifecycle", Json::text("resident")).set("config", config);
    match resume {
        Some(path) => fields.set("sessionPath", Json::text(path)),
        None => fields,
    }
}

/// Whether a session to which the program could not attach has to be removed:
/// one that was made for this run would be left behind.
pub fn kills_unattached(resumed: bool) -> (kills: bool)
    ensures
        kills == !resumed,
{
    !resumed
}

/// Why there is nothing more to read: an error, or the end of the connection.
pub fn connection_reason(error: Option<&str>) -> (reason: String)
    ensures
        reason@ == connection_failure(opt_str(error)),
{
    match error {
        Some(error) => "Prime daemon connection failed: ".to_owned().concat(error),
        None => "Prime daemon connection closed".to_owned(),
    }
}

/// What a command came to. There is no reply where the connection was dropped
/// before one came.
pub fn command_result(kind: &str, reply: Option<Result<Json, String>>) -> (result: Result<
    Json,
    HarnessError,
>)
    ensures
        answer_view(result) == result_of(
            kind@,
            match reply {
                Some(reply) => Some(reply_view(reply)),
                None => None,
            },
        ),
{
    match reply {
        Some(Ok(data)) => Ok(data),
        Some(Err(error)) => Err(
            HarnessError::Protocol(
                "Prime daemon ".to_owned().concat(kind).concat(": ").concat(error.as_str()),
            ),
        ),
        None => Err(
            HarnessError::Protocol("Prime daemon closed during ".to_owned().concat(kind)),
        ),
    }
}

/// The fields of the request that relays an answer to an extension.
pub fn relay_answer(value: &Json) -> (fields: Result<Json, HarnessError>)
    ensures
        answer_view(fields) == relayed(value@),
{
    if !value.at("type").is_text("extension_ui_response") {
        return Err(protocol_error("Unsupported Prime daemon notification"));
    }
    let id = match value.at("id").as_text() {
        Some(id) => id,
        None => {
            return Err(protocol_error("Prime extension UI response has no ID"));
        },
    };
    let response = match value.at("confirmed").as_bool() {
        Some(confirmed) => Json::object().set("confirmed", Json::Bool(confirmed)),
        None => match value.at("value").as_text() {
            Some(answer) => Json::object().set("value", Json::text(answer)),
            None => Json::object().set("cancelled", Json::Bool(true)),
        },
    };
    Ok(Json::object().set("requestId", Json::text(id)).set("response", response))
}

/// Two texts, as a JSON list.
fn two_texts(first: &str, second: &str) -> (list: Json)
    ensures
        list@ == JsonView::Array(seq![JsonView::Text(first@), JsonView::Text(second@)]),
{
    let items = two_jsons(Json::text(first), Json::text(second));
    proof {
        lemma_array_model(items);
    }
    Json::Array(items)
}

/// A command that is to be sent and waited for: its name, what the daemon calls
/// it, the session it is on, and the value to send.
#[derive(Debug, PartialEq)]
pub struct Outgoing {
    pub id: String,
    pub kind: String,
    pub target: String,
    pub message: Json,
}

/// The connection to a daemon.
pub struct DaemonClient {
    pub client_id: String,
    pub version: u64,
    pub root: Option<String>,
    pub observed: Vec<String>,
    pub requests: Waiting,
}

impl View for DaemonClient {
    type V = DaemonView;

    open spec fn view(&self) -> DaemonView {
        DaemonView {
            client_id: self.client_id@,
            version: self.version,
            root: opt_text(self.root),
            observed: texts(self.observed@),
            requests: self.requests@,
        }
    }
}

/// A daemon that was greeted.
pub open spec fn greeted(client_id: Seq<char>, version: u64) -> DaemonView {
    DaemonView {
        client_id,
        version,
        root: None,
        observed: Seq::empty(),
        requests: nothing_asked(),
    }
}

impl DaemonClient {
    /// A connection to a daemon that was greeted, under a given name.
    pub fn new_as(client_id: String, version: u64) -> (client: Self)
        ensures
            client@ == greeted(client_id@, version),
    {
        let observed: Vec<String> = Vec::new();
        proof {
            assert(texts(observed@) =~= Seq::<Seq<char>>::empty());
        }
        DaemonClient { client_id, version, root: None, observed, requests: Waiting::new() }
    }

    /// A connection to a daemon that was greeted, under a fresh name.
    pub fn new(version: u64) -> (client: Self)
        ensures
            exists|id: Seq<char>|
                is_uuid_text(id) && client@ == #[trigger] greeted("jjzeron:"@ + id, version),
    {
        let id = fresh_uuid();
        let client = Self::new_as("jjzeron:".to_owned().concat(id.as_str()), version);
        proof {
            assert(client@ == greeted("jjzeron:"@ + id@, version));
        }
        client
    }

    /// Takes in which session the daemon made.
    pub fn created(&mut self, data: &Json) -> (result: Result<(), HarnessError>)
        ensures
            match result {
                Ok(()) => {
                    &&& data@.at("activeSessionId"@).as_text() is Some
                    &&& final(self)@ == (DaemonView {
                        root: data@.at("activeSessionId"@).as_text(),
                        ..old(self)@
                    })
                },
                Err(error) => {
                    &&& data@.at("activeSessionId"@).as_text() is None
                    &&& error@ == ErrorView::Protocol(
                        "Prime daemon create returned no activeSessionId"@,
                    )
                    &&& final(self)@ == old(self)@
                },
            },
    {
        match data.at("activeSessionId").as_text() {
            Some(root) => {
                self.root = Some(root.to_owned());
                Ok(())
            },
            None => Err(protocol_error("Prime daemon create returned no activeSessionId")),
        }
    }

    /// The fields of the request for the events of the session.
    pub fn attachment_fields(&self, root: &str) -> (fields: Json)
        ensures
            fields@ == attachment(self@, root@),
    {
        let mut items = two_jsons(Json::text("attach_snapshot"), Json::text("event_sequence"));
        let ghost first = items@;
        items.push(Json::text("extension_ui"));
        proof {
            assert(jsons(items@) =~= jsons(first).push(JsonView::Text("extension_ui"@)));
            lemma_array_model(items);
            assert(jsons(items@) =~= seq![
                JsonView::Text("attach_snapshot"@),
                JsonView::Text("event_sequence"@),
                JsonView::Text("extension_ui"@),
            ]);
        }
        Json::object().set("activeSessionId", Json::text(root)).set(
            "clientId",
            Json::text(self.client_id.as_str()),
        ).set("supportsExtensionUi", Json::Bool(true)).set("capabilities", Json::Array(items))
    }

    /// A command as it is sent.
    fn wrap(&self, id: &str, command: Json) -> (message: Json)
        ensures
            message@ == envelope(self@, id@, command@),
    {
        let protocol = Json::object().set("name", Json::text("prime-agent.daemon")).set(
            "version",
            Json::Number(JsonNumber::Unsigned(self.version)),
        );
        Json::object().set("type", Json::text("command")).set("id", Json::text(id)).set(
            "clientId",
            Json::text(self.client_id.as_str()),
        ).set("protocol", protocol).set("command", command)
    }

    /// The word that a reply was received.
    fn acknowledge(&self, id: &str) -> (message: Json)
        ensures
            message@ == acknowledgement(self@, id@),
    {
        let command = Json::object().set("type", Json::text("ack_result")).set(
            "commandId",
            Json::text(id),
        );
        self.wrap("ack-".to_owned().concat(id).as_str(), command)
    }

    /// Makes a command that is to be sent and waited for, as the daemon knows
    /// it: gives its name and the value to send.
    pub fn request_raw(&mut self, kind: &str, fields: Json) -> (sent: Result<
        (String, Json),
        HarnessError,
    >)
        ensures
            match sent {
                Ok((id, message)) => {
                    &&& fields@ is Object
                    &&& id@ == next_name(old(self)@.requests, "jj-"@)
                    &&& message@ == command_of(old(self)@, kind@, fields@)
                    &&& final(self)@ == commanded(old(self)@)
                },
                Err(error) => {
                    &&& !(fields@ is Object)
                    &&& error@ == ErrorView::Protocol(
                        "Prime daemon request fields must be an object"@,
                    )
                    &&& final(self)@ == (DaemonView {
                        requests: numbered(old(self)@.requests),
                        ..old(self)@
                    })
                },
            },
    {
        let id = self.requests.take_name("jj-");
        if !fields.is_object() {
            return Err(protocol_error("Prime daemon request fields must be an object"));
        }
        let command = fields.set("type", Json::text(kind));
        let message = self.wrap(id.as_str(), command);
        self.requests.wait_for(id.as_str());
        Ok((id, message))
    }

    /// Makes a request that is to be sent and waited for. It is on the session
    /// unless it names another.
    pub fn request(&mut self, kind: &str, fields: Json) -> (sent: Result<Outgoing, HarnessError>)
        ensures
            match sent {
                Ok(out) => {
                    let target = target_of(old(self)@, fields@);
                    let d = DaemonView {
                        observed: observing(old(self)@, kind@, target),
                        ..old(self)@
                    };
                    &&& old(self)@.root is Some
                    &&& fields@ is Object
                    &&& out.id@ == next_name(d.requests, "jj-"@)
                    &&& out.kind@ == daemon_kind(kind@)
                    &&& out.target@ == target
                    &&& out.message@ == command_of(
                        d,
                        daemon_kind(kind@),
                        daemon_fields(d, kind@, fields@),
                    )
                    &&& final(self)@ == commanded(d)
                },
                Err(error) => {
                    &&& final(self)@ == old(self)@
                    &&& if old(self)@.root is None {
                        error@ == ErrorView::Protocol("Prime daemon session has no active ID"@)
                    } else {
                        !(fields@ is Object) && error@ == ErrorView::Protocol(
                            "Prime daemon request fields must be an object"@,
                        )
                    }
                },
            },
    {
        let root = match &self.root {
            Some(root) => root.as_str(),
            None => {
                return Err(protocol_error("Prime daemon session has no active ID"));
            },
        };
        if !fields.is_object() {
            return Err(protocol_error("Prime daemon request fields must be an object"));
        }
        let target = text_or_else(fields.field("activeSessionId"), root).to_owned();
        let named = fields.set("activeSessionId", Json::text(target.as_str()));
        let (wire_kind, complete) = if same_text(kind, "observe") {
            add_name(&mut self.observed, target.as_str());
            let complete = named.set("clientId", Json::text(self.client_id.as_str())).set(
                "capabilities",
                two_texts("attach_snapshot", "event_sequence"),
            );
            ("attach", complete)
        } else if same_text(kind, "unobserve") {
            drop_name(&mut self.observed, target.as_str());
            ("detach", named)
        } else if same_text(kind, "get_state") {
            ("get_connection_state", named)
        } else if same_text(kind, "get_session_summary") {
            ("get_state", named)
        } else {
            (kind, named)
        };
        match self.request_raw(wire_kind, complete) {
            Ok((id, message)) => Ok(
                Outgoing { id, kind: wire_kind.to_owned(), target, message },
            ),
            Err(error) => Err(error),
        }
    }

    /// Takes back a command that could not be sent.
    pub fn unsent(&mut self, id: &str) -> (error: HarnessError)
        ensures
            final(self)@ == (DaemonView {
                requests: settled(old(self)@.requests, id@),
                ..old(self)@
            }),
            error@ == ErrorView::Protocol("Prime daemon socket closed"@),
    {
        let _ = self.requests.settle(id);
        protocol_error("Prime daemon socket closed")
    }

    /// Takes in what the command behind a request came to, and tells what the
    /// request came to.
    pub fn conclude(&mut self, kind: &str, target: &str, result: Result<Json, HarnessError>) -> (
    answer: Result<Json, HarnessError>)
        ensures
            (final(self)@, answer_view(answer)) == concluded(
                old(self)@,
                kind@,
                target@,
                answer_view(result),
            ),
    {
        if !same_text(kind, "observe") {
            return result;
        }
        match result {
            Ok(data) => Ok(
                Json::object().set("messages", data.at("snapshot").at("messages").clone()),
            ),
            Err(error) => {
                drop_name(&mut self.observed, target);
                Err(error)
            },
        }
    }

    /// The messages for the session that a value which is no reply comes to.
    fn route(&self, value: Json) -> (list: Vec<Json>)
        ensures
            jsons(list@) == routed(self@, value@),
    {
        let kind = match value.at("type").as_text() {
            Some(kind) => kind,
            None => {
                return no_jsons();
            },
        };
        let session = value.at("activeSessionId").as_text();
        let own = match (session, &self.root) {
            (Some(session), Some(root)) => same_text(session, root.as_str()),
            (None, None) => true,
            _ => false,
        };
        let watched = match session {
            Some(session) => contains_name(&self.observed, session),
            None => false,
        };
        if same_text(kind, "session_event") && own {
            match value.get("event") {
                Some(event) => one_json(event.clone()),
                None => no_jsons(),
            }
        } else if same_text(kind, "session_event") && watched {
            one_json(
                observed_event("observed_session_event", text_or_else(session, "")).set(
                    "event",
                    value.at("event").clone(),
                ),
            )
        } else if same_text(kind, "session_closed") && own {
            two_jsons(value.clone(), closing_message("Prime daemon session closed"))
        } else if same_text(kind, "session_closed") && watched {
            one_json(observed_event("observed_session_closed", text_or_else(session, "")))
        } else if same_text(kind, "extension_ui_request") && own {
            one_json(
                value.at("payload").clone().set("type", Json::text("extension_ui_request")).set(
                    "id",
                    value.at("id").clone(),
                ).set("method", value.at("method").clone()),
            )
        } else if session_news(kind) && own {
            one_json(value.clone())
        } else if daemon_news(kind) {
            one_json(value.clone())
        } else {
            no_jsons()
        }
    }

    /// Takes in a value that the daemon sent.
    pub fn take_value(&mut self, value: Json) -> (arrival: Arrival)
        ensures
            (final(self)@, arrival@) == arrived(old(self)@, value@),
    {
        if !value.at("type").is_text("response") {
            return Arrival::Messages(self.route(value));
        }
        match value.at("id").as_text() {
            Some(id) => {
                if contains_name(&self.requests.waiting, id) {
                    let acknowledgement = self.acknowledge(id);
                    let _ = self.requests.settle(id);
                    Arrival::Reply {
                        id: id.to_owned(),
                        reply: read_reply(&value, "Prime daemon request failed"),
                        acknowledgement,
                    }
                } else {
                    Arrival::Messages(no_jsons())
                }
            },
            None => Arrival::Messages(no_jsons()),
        }
    }

    /// Takes in a line that the daemon sent.
    pub fn take_line(&mut self, line: &str) -> (arrival: Arrival)
        ensures
            (final(self)@, arrival@) == arrived_line(old(self)@, line@),
    {
        if line.is_empty() {
            return Arrival::Messages(no_jsons());
        }
        match wire::parse(line) {
            Ok(value) => self.take_value(value),
            Err(error) => Arrival::Failure(
                "Prime daemon sent invalid JSON: ".to_owned().concat(error.as_str()),
            ),
        }
    }

    /// Closes the connection: gives the names of the requests that fail with
    /// the reason, and the last message for the session.
    pub fn close(&mut self, reason: &str) -> (last: (Vec<String>, Json))
        ensures
            texts(last.0@) == old(self)@.requests.waiting,
            last.1@ == closing(reason@),
            final(self)@ == (DaemonView {
                requests: given_up(old(self)@.requests),
                ..old(self)@
            }),
    {
        (self.requests.give_up(), closing_message(reason))
    }
}

/// A message of an observed session.
fn observed_event(kind: &str, session: &str) -> (message: Json)
    ensures
        message@ == observed_message(kind@, session@),
{
    Json::object().set("type", Json::text(kind)).set("activeSessionId", Json::text(session))
}

/// Whether a kind of message on the session is handed on as it came.
fn session_news(kind: &str) -> (news: bool)
    ensures
        news == is_session_news(kind@),
{
    same_text(kind, "extension_error") || same_text(kind, "session_status") || same_text(
        kind,
        "session_replaced",
    ) || same_text(kind, "session_resynced") || same_text(kind, "session_attached") || same_text(
        kind,
        "session_detached",
    ) || same_text(kind, "side_question_event")
}

/// Whether a kind of message on the daemon is handed on as it came.
fn daemon_news(kind: &str) -> (news: bool)
    ensures
        news == is_daemon_news(kind@),
{
    same_text(kind, "heartbeats_changed") || same_text(kind, "roster_update") || same_text(
        kind,
        "daemon_closing",
    )
}

/// A session that is neither the program's own nor observed is not heard.
pub proof fn foreign_sessions_are_not_heard(d: DaemonView, value: JsonView)
    requires
        value.at("activeSessionId"@).as_text() != d.root,
        value.at("activeSessionId"@).as_text() matches Some(id) ==> !d.observed.contains(id),
        value.at("type"@).as_text() matches Some(kind) ==> !is_daemon_news(kind),
    ensures
        routed(d, value).len() == 0,
{
}

/// The events of the session arrive as they came, one for one.
pub proof fn own_events_arrive_as_they_came(d: DaemonView, value: JsonView, event: JsonView)
    requires
        value.at("type"@) == JsonView::Text("session_event"@),
        value.at("activeSessionId"@).as_text() == d.root,
        value.get("event"@) == Some(event),
    ensures
        arrived(d, value) == (d, ArrivalView::Messages(seq![event])),
{
    reveal_strlit("session_event");
    reveal_strlit("response");
    assert("session_event"@.len() != "response"@.len());
}

/// A reply completes the request that it names and no other, once, and is
/// acknowledged by that name; it is no message for the session.
pub proof fn replies_are_acknowledged(d: DaemonView, value: JsonView)
    requires
        value.at("type"@) == JsonView::Text("response"@),
    ensures
        arrived(d, value).1 matches ArrivalView::Messages(list) ==> list.len() == 0 && arrived(
            d,
            value,
        ).0 == d,
        arrived(d, value).1 matches ArrivalView::Reply { id, acknowledgement: word, .. } ==> {
            &&& value.at("id"@) == JsonView::Text(id)
            &&& d.requests.waiting.contains(id)
            &&& word == acknowledgement(d, id)
            &&& arrived(arrived(d, value).0, value).1 is Messages
            &&& forall|other: Seq<char>|
                other != id ==> #[trigger] arrived(d, value).0.requests.waiting.contains(other)
                    == d.requests.waiting.contains(other)
        },
{
    match value.at("id"@).as_text() {
        Some(id) => {
            lemma_without_name(d.requests.waiting, id);
        },
        None => {},
    }
}

/// A session is observed from the request on, until the observation fails or is
/// given up; the others are not touched.
pub proof fn an_observation_lasts_until_it_is_given_up(
    d: DaemonView,
    target: Seq<char>,
    other: Seq<char>,
    error: ErrorView,
)
    requires
        other != target,
    ensures
        observing(d, "observe"@, target).contains(target),
        !observing(d, "unobserve"@, target).contains(target),
        !concluded(d, "observe"@, target, Err(error)).0.observed.contains(target),
        observing(d, "observe"@, target).contains(other) == d.observed.contains(other),
        observing(d, "unobserve"@, target).contains(other) == d.observed.contains(other),
        concluded(d, "observe"@, target, Err(error)).0.observed.contains(other)
            == d.observed.contains(other),
{
    reveal_strlit("observe");
    reveal_strlit("unobserve");
    assert("observe"@.len() != "unobserve"@.len());
    lemma_with_name(d.observed, target);
    lemma_without_name(d.observed, target);
}

/// The user's answer to an extension reaches it through the daemon as it was
/// given.
pub proof fn an_answer_is_relayed_as_given(
    method: Seq<char>,
    id: Seq<char>,
    answer: Option<Seq<char>>,
)
    ensures
        relayed(response_of(method, id, answer)) == Ok::<JsonView, ErrorView>(
            empty_object().set("requestId"@, JsonView::Text(id)).set(
                "response"@,
                match answer {
                    Some(value) => if method == "confirm"@ {
                        empty_object().set("confirmed"@, JsonView::Bool(value == "Yes"@))
                    } else {
                        empty_object().set("value"@, JsonView::Text(value))
                    },
                    None => empty_object().set("cancelled"@, JsonView::Bool(true)),
                },
            ),
        ),
{
    broadcast use lemma_get_set;

    reveal_strlit("type");
    reveal_strlit("id");
    reveal_strlit("confirmed");
    reveal_strlit("value");
    reveal_strlit("cancelled");
    assert("type"@.len() == 4);
    assert("id"@.len() == 2);
    assert("confirmed"@.len() == 9);
    assert("value"@.len() == 5);
    assert("cancelled"@.len() == 9);
    assert("confirmed"@[1] == 'o');
    assert("cancelled"@[1] == 'a');
    assert(empty_object().get("confirmed"@) is None);
    assert(empty_object().get("value"@) is None);
    let head = empty_object().set("type"@, JsonView::Text("extension_ui_response"@)).set(
        "id"@,
        JsonView::Text(id),
    );
    let value = response_of(method, id, answer);
    assert(head.get("confirmed"@) is None);
    assert(head.get("value"@) is None);
    assert(head.get("id"@) == Some(JsonView::Text(id)));
    assert(head.get("type"@) == Some(JsonView::Text("extension_ui_response"@)));
    assert(value.get("id"@) == Some(JsonView::Text(id)));
    assert(value.get("type"@) == Some(JsonView::Text("extension_ui_response"@)));
}

} // verus!
