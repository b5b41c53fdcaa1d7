//! What holds of every command to a daemon and of every value that it sends.

use vstd::prelude::*;

#[allow(unused_imports)]
use crate::daemon::{
    check_hello, command_result, connection_reason, creation_fields, daemon_fields, envelope,
    kills_unattached, observing, protocol_of, read_hello, relay_answer, Arrival, DaemonClient,
    DaemonView, Outgoing,
};
#[allow(unused_imports)]
use crate::event_laws::says;
#[allow(unused_imports)]
use crate::json::{empty_object, jsons, lemma_get_set, Json, JsonView, NumberView};
#[allow(unused_imports)]
use crate::names::{lemma_with_name, lemma_without_name};
#[allow(unused_imports)]
use crate::proto::{ErrorView, HarnessError};
#[allow(unused_imports)]
use crate::text::decimal;
#[allow(unused_imports)]
use crate::wire::parsed;

verus! {

/// Whether a greeting is one of a daemon that can be used: it names the protocol
/// in version 7 or later, and the wait for the rest of the children.
pub open spec fn is_usable(hello: JsonView) -> bool {
    &&& says(hello, "type"@, "daemon_hello"@)
    &&& says(hello.at("protocol"@), "name"@, "prime-agent.daemon"@)
    &&& hello.at("protocol"@).get("version"@) matches Some(
        JsonView::Number(NumberView::Unsigned(version)),
    ) && version >= 7
    &&& hello.get("serverCapabilities"@) matches Some(JsonView::Array(list)) && list.contains(
        JsonView::Text("rlm_quiescence_barrier"@),
    )
}

/// A daemon is used if and only if its greeting shows that it can be, in the
/// version that it names; another has to be brought up to date.
pub proof fn a_usable_daemon_is_used(hello: Json, version: Result<u64, HarnessError>)
    requires
        call_ensures(check_hello, (&hello,), version),
    ensures
        version is Ok <==> is_usable(hello@),
        version matches Ok(version) ==> hello@.at("protocol"@).get("version"@) == Some(
            JsonView::Number(NumberView::Unsigned(version)),
        ),
        version matches Err(error) ==> error@ == ErrorView::Protocol(
            "Prime daemon lacks the native RLM completion protocol; update Prime Agent"@,
        ),
{
}

/// The first line of a daemon is its greeting; one that is no JSON is an error
/// that says so.
pub proof fn the_first_line_is_the_greeting(
    line: &str,
    version: Result<u64, HarnessError>,
    hello: Json,
    greeted: Result<u64, HarnessError>,
)
    requires
        call_ensures(read_hello, (line,), version),
        call_ensures(check_hello, (&hello,), greeted),
    ensures
        parsed(line@) == Ok::<JsonView, Seq<char>>(hello@) ==> (version matches Ok(v)
            ==> greeted matches Ok(w) && v == w) && (version matches Err(e) ==> greeted matches Err(f)
            && e@ == f@),
        parsed(line@) matches Err(text) ==> version is Err && version->Err_0@
            == ErrorView::Protocol("Invalid Prime daemon handshake: "@ + text),
{
}

/// A session is asked for that stays, in a directory, to be spoken to over the
/// protocol; with the file of an earlier one if and only if that is resumed.
pub proof fn a_session_is_asked_for(cwd: &str, resume: Option<&str>, fields: Json)
    requires
        call_ensures(creation_fields, (cwd, resume), fields),
    ensures
        says(fields@, "lifecycle"@, "resident"@),
        says(fields@.at("config"@), "cwd"@, cwd@),
        says(fields@.at("config"@), "executionMode"@, "rpc"@),
        resume matches Some(path) ==> says(fields@, "sessionPath"@, path@),
        resume is None ==> fields@.get("sessionPath"@) is None,
{
    broadcast use lemma_get_set;

    reveal_strlit("lifecycle");
    reveal_strlit("config");
    reveal_strlit("cwd");
    reveal_strlit("executionMode");
    reveal_strlit("sessionPath");
    assert("lifecycle"@.len() == 9);
    assert("config"@.len() == 6);
    assert("cwd"@.len() == 3);
    assert("executionMode"@.len() == 13);
    assert("sessionPath"@.len() == 11);
    assert(empty_object().get("sessionPath"@) is None);
    let inner = empty_object().set("cwd"@, JsonView::Text(cwd@));
    assert(inner is Object);
    let a = empty_object().set("lifecycle"@, JsonView::Text("resident"@));
    assert(a is Object);
    let b = a.set("config"@, inner.set("executionMode"@, JsonView::Text("rpc"@)));
    assert(b is Object);
}

/// A session that was made for a run and could not be attached to is removed; an
/// earlier one that was resumed is not.
pub proof fn a_session_of_ones_own_is_removed(resumed: bool, kills: bool)
    requires
        call_ensures(kills_unattached, (resumed,), kills),
    ensures
        kills <==> !resumed,
{
}

/// The events of a session are asked for under the name of this program, which
/// takes snapshots, numbered events and the questions of extensions.
pub proof fn a_session_is_attached_to(client: DaemonClient, root: &str, fields: Json)
    requires
        call_ensures(DaemonClient::attachment_fields, (&client, root), fields),
    ensures
        says(fields@, "activeSessionId"@, root@),
        says(fields@, "clientId"@, client.client_id@),
        fields@.get("supportsExtensionUi"@) == Some(JsonView::Bool(true)),
        fields@.get("capabilities"@) == Some(
            JsonView::Array(
                seq![
                    JsonView::Text("attach_snapshot"@),
                    JsonView::Text("event_sequence"@),
                    JsonView::Text("extension_ui"@),
                ],
            ),
        ),
{
    broadcast use lemma_get_set;

    reveal_strlit("activeSessionId");
    reveal_strlit("clientId");
    reveal_strlit("supportsExtensionUi");
    reveal_strlit("capabilities");
    assert("activeSessionId"@.len() == 15);
    assert("clientId"@.len() == 8);
    assert("supportsExtensionUi"@.len() == 19);
    assert("capabilities"@.len() == 12);
    let a = empty_object().set("activeSessionId"@, JsonView::Text(root@));
    assert(a is Object);
    let b = a.set("clientId"@, JsonView::Text(client.client_id@));
    assert(b is Object);
    let c = b.set("supportsExtensionUi"@, JsonView::Bool(true));
    assert(c is Object);
}

/// The session that a daemon made is the one that its reply names; a reply that
/// names none is an error.
pub proof fn the_session_is_the_one_that_was_made(
    client: &mut DaemonClient,
    data: Json,
    result: Result<(), HarnessError>,
)
    requires
        call_ensures(DaemonClient::created, (client, &data), result),
    ensures
        match data@.get("activeSessionId"@) {
            Some(JsonView::Text(root)) => result is Ok && final(client)@.root == Some(root),
            _ => result is Err && result->Err_0@ == ErrorView::Protocol(
                "Prime daemon create returned no activeSessionId"@,
            ) && final(client)@ == old(client)@,
        },
        final(client)@.observed == old(client)@.observed,
        final(client)@.requests == old(client)@.requests,
        final(client)@.client_id == old(client)@.client_id,
{
}

/// A new connection goes under its name, in the version that was greeted, with
/// no session, and nothing observed or waited for.
pub proof fn a_new_connection_is_bare(client_id: String, version: u64, client: DaemonClient)
    requires
        call_ensures(DaemonClient::new_as, (client_id, version), client),
    ensures
        client@.client_id == client_id@,
        client@.version == version,
        client@.root is None,
        client@.observed.len() == 0,
        client@.requests.waiting.len() == 0,
        client@.requests.next == 0,
{
}

/// A command is wrapped with its name, the name of this program and the
/// protocol, and has all of its fields and its kind.
pub open spec fn wraps(
    message: JsonView,
    d: DaemonView,
    id: Seq<char>,
    kind: Seq<char>,
    fields: JsonView,
    other: Seq<char>,
) -> bool {
    &&& says(message, "type"@, "command"@)
    &&& says(message, "id"@, id)
    &&& says(message, "clientId"@, d.client_id)
    &&& says(message.at("protocol"@), "name"@, "prime-agent.daemon"@)
    &&& message.at("protocol"@).get("version"@) == Some(
        JsonView::Number(NumberView::Unsigned(d.version)),
    )
    &&& says(message.at("command"@), "type"@, kind)
    &&& other != "type"@ ==> message.at("command"@).get(other) == fields.get(other)
}

proof fn lemma_wraps(
    d: DaemonView,
    id: Seq<char>,
    kind: Seq<char>,
    fields: JsonView,
    other: Seq<char>,
)
    requires
        fields is Object,
    ensures
        wraps(
            envelope(d, id, fields.set("type"@, JsonView::Text(kind))),
            d,
            id,
            kind,
            fields,
            other,
        ),
{
    broadcast use lemma_get_set;

    reveal_strlit("type");
    reveal_strlit("id");
    reveal_strlit("clientId");
    reveal_strlit("protocol");
    reveal_strlit("command");
    reveal_strlit("name");
    reveal_strlit("version");
    assert("type"@.len() == 4);
    assert("id"@.len() == 2);
    assert("clientId"@.len() == 8);
    assert("protocol"@.len() == 8);
    assert("command"@.len() == 7);
    assert("name"@.len() == 4);
    assert("version"@.len() == 7);
    assert("type"@[0] == 't');
    assert("name"@[0] == 'n');
    assert("clientId"@[0] == 'c');
    assert("protocol"@[0] == 'p');
    assert("command"@[0] == 'c');
    assert("version"@[0] == 'v');
    let a = empty_object().set("type"@, JsonView::Text("command"@));
    assert(a is Object);
    let b = a.set("id"@, JsonView::Text(id));
    assert(b is Object);
    let c = b.set("clientId"@, JsonView::Text(d.client_id));
    assert(c is Object);
    let e = c.set("protocol"@, protocol_of(d.version));
    assert(e is Object);
    let p = empty_object().set("name"@, JsonView::Text("prime-agent.daemon"@));
    assert(p is Object);
    assert(fields.set("type"@, JsonView::Text(kind)) is Object);
}

/// A command is sent under the next number, wrapped, and waited for; it is
/// refused if and only if its fields are no object.
pub proof fn a_command_is_sent_wrapped(
    client: &mut DaemonClient,
    kind: &str,
    fields: Json,
    sent: Result<(String, Json), HarnessError>,
    other: Seq<char>,
)
    requires
        call_ensures(DaemonClient::request_raw, (client, kind, fields), sent),
    ensures
        sent is Ok <==> fields@ is Object,
        sent matches Ok((id, message)) ==> {
            &&& id@ == "jj-"@ + decimal(old(client)@.requests.next as nat)
            &&& wraps(message@, old(client)@, id@, kind@, fields@, other)
            &&& final(client)@.requests.waiting.contains(id@)
            &&& final(client)@.observed == old(client)@.observed
            &&& final(client)@.root == old(client)@.root
        },
        sent matches Err(error) ==> error@ == ErrorView::Protocol(
            "Prime daemon request fields must be an object"@,
        ) && final(client)@.requests.waiting == old(client)@.requests.waiting,
{
    match sent {
        Ok((id, message)) => {
            lemma_wraps(old(client)@, id@, kind@, fields@, other);
            lemma_with_name(old(client)@.requests.waiting, id@);
        },
        Err(_) => {},
    }
}

/// What a kind of request is called by a daemon: an observation attaches, giving
/// it up detaches, the state is that of the connection, and the summary is the
/// state; any other goes by its own name.
pub open spec fn is_called(kind: Seq<char>, name: Seq<char>) -> bool {
    name == if kind == "observe"@ {
        "attach"@
    } else if kind == "unobserve"@ {
        "detach"@
    } else if kind == "get_state"@ {
        "get_connection_state"@
    } else if kind == "get_session_summary"@ {
        "get_state"@
    } else {
        kind
    }
}

/// A request goes to the session that it names, or else to the program's own,
/// under the daemon's name for it, with all of its fields. An observation is in
/// force from then on, and one that is given up is not; no other changes. A
/// request is refused if and only if there is no session or its fields are no
/// object.
pub proof fn a_request_goes_to_its_session(
    client: &mut DaemonClient,
    kind: &str,
    fields: Json,
    sent: Result<Outgoing, HarnessError>,
    other: Seq<char>,
)
    requires
        call_ensures(DaemonClient::request, (client, kind, fields), sent),
        other != "type"@,
        other != "activeSessionId"@,
        other != "clientId"@,
        other != "capabilities"@,
    ensures
        sent is Ok <==> old(client)@.root is Some && fields@ is Object,
        sent matches Ok(out) ==> {
            &&& out.target@ == match fields@.get("activeSessionId"@) {
                Some(JsonView::Text(key)) => key,
                _ => old(client)@.root->0,
            }
            &&& is_called(kind@, out.kind@)
            &&& out.id@ == "jj-"@ + decimal(old(client)@.requests.next as nat)
            &&& says(out.message@, "type"@, "command"@)
            &&& says(out.message@, "id"@, out.id@)
            &&& says(out.message@, "clientId"@, old(client)@.client_id)
            &&& says(out.message@.at("command"@), "type"@, out.kind@)
            &&& says(out.message@.at("command"@), "activeSessionId"@, out.target@)
            &&& out.message@.at("command"@).get(other) == fields@.get(other)
            &&& kind@ == "observe"@ ==> says(
                out.message@.at("command"@),
                "clientId"@,
                old(client)@.client_id,
            ) && out.message@.at("command"@).get("capabilities"@) == Some(
                JsonView::Array(
                    seq![JsonView::Text("attach_snapshot"@), JsonView::Text("event_sequence"@)],
                ),
            )
            &&& final(client)@.requests.waiting.contains(out.id@)
            &&& final(client)@.root == old(client)@.root
            &&& forall|name: Seq<char>| #[trigger]
                final(client)@.observed.contains(name) <==> if name == out.target@ && kind@
                    == "observe"@ {
                    true
                } else if name == out.target@ && kind@ == "unobserve"@ {
                    false
                } else {
                    old(client)@.observed.contains(name)
                }
        },
        sent matches Err(error) ==> final(client)@ == old(client)@ && error@
            == ErrorView::Protocol(
            if old(client)@.root is None {
                "Prime daemon session has no active ID"@
            } else {
                "Prime daemon request fields must be an object"@
            },
        ),
{
    broadcast use lemma_get_set;

    match sent {
        Ok(out) => {
            reveal_strlit("observe");
            reveal_strlit("unobserve");
            reveal_strlit("get_state");
            reveal_strlit("get_session_summary");
            assert("observe"@.len() == 7);
            assert("unobserve"@.len() == 9);
            assert("get_state"@.len() == 9);
            assert("get_session_summary"@.len() == 19);
            assert("unobserve"@[0] == 'u');
            assert("get_state"@[0] == 'g');
            reveal_strlit("type");
            reveal_strlit("activeSessionId");
            reveal_strlit("clientId");
            reveal_strlit("capabilities");
            assert("type"@.len() == 4);
            assert("activeSessionId"@.len() == 15);
            assert("clientId"@.len() == 8);
            assert("capabilities"@.len() == 12);
            let d = old(client)@;
            let named = fields@.set("activeSessionId"@, JsonView::Text(out.target@));
            assert(named is Object);
            let whole = daemon_fields(
                DaemonView {
                    observed: observing(d, kind@, out.target@),
                    ..d
                },
                kind@,
                fields@,
            );
            let marked = named.set("clientId"@, JsonView::Text(d.client_id));
            assert(marked is Object);
            assert(whole is Object);
            let e = DaemonView { observed: observing(d, kind@, out.target@), ..d };
            lemma_wraps(e, out.id@, out.kind@, whole, "activeSessionId"@);
            lemma_wraps(e, out.id@, out.kind@, whole, "clientId"@);
            lemma_wraps(e, out.id@, out.kind@, whole, "capabilities"@);
            lemma_wraps(e, out.id@, out.kind@, whole, other);
            lemma_with_name(d.requests.waiting, out.id@);
            lemma_with_name(d.observed, out.target@);
            lemma_without_name(d.observed, out.target@);
        },
        Err(_) => {},
    }
}

/// What a command came to: its data, or an error that names the command and the
/// reason, or that the connection was closed during it.
pub proof fn a_command_comes_to_its_reply(
    kind: &str,
    reply: Option<Result<Json, String>>,
    result: Result<Json, HarnessError>,
)
    requires
        call_ensures(command_result, (kind, reply), result),
    ensures
        reply matches Some(Ok(data)) ==> result is Ok && result->Ok_0@ == data@,
        reply matches Some(Err(error)) ==> result is Err && result->Err_0@ == ErrorView::Protocol(
            "Prime daemon "@ + kind@ + ": "@ + error@,
        ),
        reply is None ==> result is Err && result->Err_0@ == ErrorView::Protocol(
            "Prime daemon closed during "@ + kind@,
        ),
{
}

/// An observation that succeeds gives the messages of the snapshot; one that
/// fails is in force no more. Any other request comes to what its command came
/// to.
pub proof fn an_observation_gives_the_messages_so_far(
    client: &mut DaemonClient,
    kind: &str,
    target: &str,
    result: Result<Json, HarnessError>,
    answer: Result<Json, HarnessError>,
)
    requires
        call_ensures(DaemonClient::conclude, (client, kind, target, result), answer),
    ensures
        kind@ == "observe"@ ==> {
            &&& result matches Ok(data) ==> answer is Ok && answer->Ok_0@.get("messages"@) == Some(
                data@.at("snapshot"@).at("messages"@),
            ) && final(client)@ == old(client)@
            &&& result matches Err(error) ==> answer is Err && answer->Err_0@ == error@
                && !final(client)@.observed.contains(target@)
        },
        kind@ != "observe"@ ==> {
            &&& final(client)@ == old(client)@
            &&& result matches Ok(data) ==> answer is Ok && answer->Ok_0@ == data@
            &&& result matches Err(error) ==> answer is Err && answer->Err_0@ == error@
        },
{
    broadcast use lemma_get_set;

    lemma_without_name(old(client)@.observed, target@);
}

/// A command that could not be sent is waited for no more.
pub proof fn an_unsent_command_is_taken_back(
    client: &mut DaemonClient,
    id: &str,
    error: HarnessError,
)
    requires
        call_ensures(DaemonClient::unsent, (client, id), error),
    ensures
        !final(client)@.requests.waiting.contains(id@),
        error@ == ErrorView::Protocol("Prime daemon socket closed"@),
{
    lemma_without_name(old(client)@.requests.waiting, id@);
}

/// The reason for the end of a connection is the error of reading it, or that it
/// was closed.
pub proof fn the_end_of_the_connection_is_explained(error: Option<&str>, reason: String)
    requires
        call_ensures(connection_reason, (error,), reason),
    ensures
        error matches Some(error) ==> reason@ == "Prime daemon connection failed: "@ + error@,
        error is None ==> reason@ == "Prime daemon connection closed"@,
{
}

/// An answer to an extension is relayed under the name of its question, as a
/// confirmation, as the text that was given, or as cancelled; nothing else is
/// relayed.
pub proof fn an_answer_is_relayed(value: Json, fields: Result<Json, HarnessError>)
    requires
        call_ensures(relay_answer, (&value,), fields),
    ensures
        fields is Ok <==> says(value@, "type"@, "extension_ui_response"@) && (value@.get("id"@)
            matches Some(JsonView::Text(_))),
        fields matches Ok(fields) ==> {
            &&& fields@.get("requestId"@) == value@.get("id"@)
            &&& match (value@.get("confirmed"@), value@.get("value"@)) {
                (Some(JsonView::Bool(confirmed)), _) => fields@.at("response"@).get("confirmed"@)
                    == Some(JsonView::Bool(confirmed)),
                (_, Some(JsonView::Text(text))) => says(fields@.at("response"@), "value"@, text),
                _ => fields@.at("response"@).get("cancelled"@) == Some(JsonView::Bool(true)),
            }
        },
        fields matches Err(error) ==> error@ == ErrorView::Protocol(
            if says(value@, "type"@, "extension_ui_response"@) {
                "Prime extension UI response has no ID"@
            } else {
                "Unsupported Prime daemon notification"@
            },
        ),
{
    broadcast use lemma_get_set;

    reveal_strlit("requestId");
    reveal_strlit("response");
    assert("requestId"@.len() == 9);
    assert("response"@.len() == 8);
    match value@.get("id"@) {
        Some(JsonView::Text(id)) => {
            assert(empty_object().set("requestId"@, JsonView::Text(id)) is Object);
        },
        _ => {},
    }
}

/// Whether a value is on the program's own session.
pub open spec fn is_own(d: DaemonView, value: JsonView) -> bool {
    d.root == match value.get("activeSessionId"@) {
        Some(JsonView::Text(key)) => Some(key),
        _ => None,
    }
}

/// Whether a value is on a session, not the program's own, that is observed.
pub open spec fn is_observed(d: DaemonView, value: JsonView, key: Seq<char>) -> bool {
    !is_own(d, value) && says(value, "activeSessionId"@, key) && d.observed.contains(key)
}

/// Whether the messages that a value comes to are these.
pub open spec fn brings(arrival: Arrival, list: Seq<JsonView>) -> bool {
    arrival matches Arrival::Messages(found) && jsons(found@) == list
}

proof fn lemma_kinds()
    ensures
        "response"@ != "session_event"@,
        "response"@ != "session_closed"@,
        "response"@ != "extension_ui_request"@,
        "response"@ != "extension_error"@,
        "response"@ != "session_status"@,
        "response"@ != "session_replaced"@,
        "response"@ != "session_resynced"@,
        "response"@ != "session_attached"@,
        "response"@ != "session_detached"@,
        "response"@ != "side_question_event"@,
        "response"@ != "heartbeats_changed"@,
        "response"@ != "roster_update"@,
        "response"@ != "daemon_closing"@,
        "session_event"@ != "session_closed"@,
        "session_event"@ != "extension_ui_request"@,
        "session_event"@ != "extension_error"@,
        "session_event"@ != "session_status"@,
        "session_event"@ != "session_replaced"@,
        "session_event"@ != "session_resynced"@,
        "session_event"@ != "session_attached"@,
        "session_event"@ != "session_detached"@,
        "session_event"@ != "side_question_event"@,
        "session_event"@ != "heartbeats_changed"@,
        "session_event"@ != "roster_update"@,
        "session_event"@ != "daemon_closing"@,
        "session_closed"@ != "extension_ui_request"@,
        "session_closed"@ != "extension_error"@,
        "session_closed"@ != "session_status"@,
        "session_closed"@ != "session_replaced"@,
        "session_closed"@ != "session_resynced"@,
        "session_closed"@ != "session_attached"@,
        "session_closed"@ != "session_detached"@,
        "session_closed"@ != "side_question_event"@,
        "session_closed"@ != "heartbeats_changed"@,
        "session_closed"@ != "roster_update"@,
        "session_closed"@ != "daemon_closing"@,
        "extension_ui_request"@ != "extension_error"@,
        "extension_ui_request"@ != "session_status"@,
        "extension_ui_request"@ != "session_replaced"@,
        "extension_ui_request"@ != "session_resynced"@,
        "extension_ui_request"@ != "session_attached"@,
        "extension_ui_request"@ != "session_detached"@,
        "extension_ui_request"@ != "side_question_event"@,
        "extension_ui_request"@ != "heartbeats_changed"@,
        "extension_ui_request"@ != "roster_update"@,
        "extension_ui_request"@ != "daemon_closing"@,
        "extension_error"@ != "session_status"@,
        "extension_error"@ != "session_replaced"@,
        "extension_error"@ != "session_resynced"@,
        "extension_error"@ != "session_attached"@,
        "extension_error"@ != "session_detached"@,
        "extension_error"@ != "side_question_event"@,
        "extension_error"@ != "heartbeats_changed"@,
        "extension_error"@ != "roster_update"@,
        "extension_error"@ != "daemon_closing"@,
        "session_status"@ != "session_replaced"@,
        "session_status"@ != "session_resynced"@,
        "session_status"@ != "session_attached"@,
        "session_status"@ != "session_detached"@,
        "session_status"@ != "side_question_event"@,
        "session_status"@ != "heartbeats_changed"@,
        "session_status"@ != "roster_update"@,
        "session_status"@ != "daemon_closing"@,
        "session_replaced"@ != "session_resynced"@,
        "session_replaced"@ != "session_attached"@,
        "session_replaced"@ != "session_detached"@,
        "session_replaced"@ != "side_question_event"@,
        "session_replaced"@ != "heartbeats_changed"@,
        "session_replaced"@ != "roster_update"@,
        "session_replaced"@ != "daemon_closing"@,
        "session_resynced"@ != "session_attached"@,
        "session_resynced"@ != "session_detached"@,
        "session_resynced"@ != "side_question_event"@,
        "session_resynced"@ != "heartbeats_changed"@,
        "session_resynced"@ != "roster_update"@,
        "session_resynced"@ != "daemon_closing"@,
        "session_attached"@ != "session_detached"@,
        "session_attached"@ != "side_question_event"@,
        "session_attached"@ != "heartbeats_changed"@,
        "session_attached"@ != "roster_update"@,
        "session_attached"@ != "daemon_closing"@,
        "session_detached"@ != "side_question_event"@,
        "session_detached"@ != "heartbeats_changed"@,
        "session_detached"@ != "roster_update"@,
        "session_detached"@ != "daemon_closing"@,
        "side_question_event"@ != "heartbeats_changed"@,
        "side_question_event"@ != "roster_update"@,
        "side_question_event"@ != "daemon_closing"@,
        "heartbeats_changed"@ != "roster_update"@,
        "heartbeats_changed"@ != "daemon_closing"@,
        "roster_update"@ != "daemon_closing"@,
{
    reveal_strlit("response");
    reveal_strlit("session_event");
    reveal_strlit("session_closed");
    reveal_strlit("extension_ui_request");
    reveal_strlit("extension_error");
    reveal_strlit("session_status");
    reveal_strlit("session_replaced");
    reveal_strlit("session_resynced");
    reveal_strlit("session_attached");
    reveal_strlit("session_detached");
    reveal_strlit("side_question_event");
    reveal_strlit("heartbeats_changed");
    reveal_strlit("roster_update");
    reveal_strlit("daemon_closing");
    assert("response"@.len() == 8);
    assert("session_event"@.len() == 13);
    assert("session_closed"@.len() == 14);
    assert("extension_ui_request"@.len() == 20);
    assert("extension_error"@.len() == 15);
    assert("session_status"@.len() == 14);
    assert("session_replaced"@.len() == 16);
    assert("session_resynced"@.len() == 16);
    assert("session_attached"@.len() == 16);
    assert("session_detached"@.len() == 16);
    assert("side_question_event"@.len() == 19);
    assert("heartbeats_changed"@.len() == 18);
    assert("roster_update"@.len() == 13);
    assert("daemon_closing"@.len() == 14);
    assert("session_event"@[0] == 's');
    assert("roster_update"@[0] == 'r');
    assert("session_closed"@[8] == 'c');
    assert("session_status"@[8] == 's');
    assert("session_closed"@[0] == 's');
    assert("daemon_closing"@[0] == 'd');
    assert("session_status"@[0] == 's');
    assert("session_replaced"@[10] == 'p');
    assert("session_resynced"@[10] == 's');
    assert("session_replaced"@[8] == 'r');
    assert("session_attached"@[8] == 'a');
    assert("session_detached"@[8] == 'd');
    assert("session_resynced"@[8] == 'r');
}

/// An event of the program's own session is handed on as it is; one of an
/// observed session is handed on with the session that it is of.
pub proof fn an_event_of_a_session_is_handed_on(
    client: &mut DaemonClient,
    value: Json,
    arrival: Arrival,
    key: Seq<char>,
)
    requires
        call_ensures(DaemonClient::take_value, (client, value), arrival),
        says(value@, "type"@, "session_event"@),
    ensures
        final(client)@ == old(client)@,
        is_own(old(client)@, value@) ==> match value@.get("event"@) {
            Some(event) => brings(arrival, seq![event]),
            None => brings(arrival, Seq::empty()),
        },
        is_observed(old(client)@, value@, key) ==> (arrival matches Arrival::Messages(found)
            && found@.len() == 1 && says(found@[0]@, "type"@, "observed_session_event"@) && says(
            found@[0]@,
            "activeSessionId"@,
            key,
        ) && found@[0]@.get("event"@) == Some(value@.at("event"@))),
{
    broadcast use lemma_get_set;

    lemma_kinds();
    reveal_strlit("type");
    reveal_strlit("activeSessionId");
    reveal_strlit("event");
    assert("type"@.len() == 4);
    assert("activeSessionId"@.len() == 15);
    assert("event"@.len() == 5);
    let kind = JsonView::Text("observed_session_event"@);
    assert(empty_object().set("type"@, kind) is Object);
    assert(empty_object().set("type"@, kind).set("activeSessionId"@, JsonView::Text(key))
        is Object);
    match arrival {
        Arrival::Messages(found) => {
            assert(jsons(found@).len() == found@.len());
            if found@.len() > 0 {
                assert(jsons(found@)[0] == found@[0]@);
            }
        },
        _ => {},
    }
}

/// The close of the program's own session is handed on, and then ends the
/// session; that of an observed session is handed on with the session that it
/// is of.
pub proof fn the_close_of_a_session_is_handed_on(
    client: &mut DaemonClient,
    value: Json,
    arrival: Arrival,
    key: Seq<char>,
)
    requires
        call_ensures(DaemonClient::take_value, (client, value), arrival),
        says(value@, "type"@, "session_closed"@),
    ensures
        final(client)@ == old(client)@,
        is_own(old(client)@, value@) ==> (arrival matches Arrival::Messages(found) && found@.len()
            == 2 && found@[0]@ == value@ && says(found@[1]@, "type"@, "_transport_closed"@) && says(
            found@[1]@,
            "error"@,
            "Prime daemon session closed"@,
        )),
        is_observed(old(client)@, value@, key) ==> (arrival matches Arrival::Messages(found)
            && found@.len() == 1 && says(found@[0]@, "type"@, "observed_session_closed"@) && says(
            found@[0]@,
            "activeSessionId"@,
            key,
        )),
{
    broadcast use lemma_get_set;

    lemma_kinds();
    reveal_strlit("type");
    reveal_strlit("activeSessionId");
    reveal_strlit("error");
    assert("type"@.len() == 4);
    assert("activeSessionId"@.len() == 15);
    assert("error"@.len() == 5);
    let kind = JsonView::Text("observed_session_closed"@);
    assert(empty_object().set("type"@, kind) is Object);
    assert(empty_object().set("type"@, JsonView::Text("_transport_closed"@)) is Object);
    match arrival {
        Arrival::Messages(found) => {
            assert(jsons(found@).len() == found@.len());
            if found@.len() > 0 {
                assert(jsons(found@)[0] == found@[0]@);
            }
            if found@.len() > 1 {
                assert(jsons(found@)[1] == found@[1]@);
            }
        },
        _ => {},
    }
}

/// A question of an extension of the program's own session is handed on with its
/// name, its method and all that it says.
pub proof fn a_question_of_an_extension_is_handed_on(
    client: &mut DaemonClient,
    value: Json,
    arrival: Arrival,
    other: Seq<char>,
)
    requires
        call_ensures(DaemonClient::take_value, (client, value), arrival),
        says(value@, "type"@, "extension_ui_request"@),
        is_own(old(client)@, value@),
        value@.at("payload"@) is Object,
        other != "type"@,
        other != "id"@,
        other != "method"@,
    ensures
        final(client)@ == old(client)@,
        arrival matches Arrival::Messages(found) && found@.len() == 1 && says(
            found@[0]@,
            "type"@,
            "extension_ui_request"@,
        ) && found@[0]@.get("id"@) == Some(value@.at("id"@)) && found@[0]@.get("method"@) == Some(
            value@.at("method"@),
        ) && found@[0]@.get(other) == value@.at("payload"@).get(other),
{
    broadcast use lemma_get_set;

    lemma_kinds();
    reveal_strlit("type");
    reveal_strlit("id");
    reveal_strlit("method");
    assert("type"@.len() == 4);
    assert("id"@.len() == 2);
    assert("method"@.len() == 6);
    let a = value@.at("payload"@).set("type"@, JsonView::Text("extension_ui_request"@));
    assert(a is Object);
    assert(a.set("id"@, value@.at("id"@)) is Object);
    match arrival {
        Arrival::Messages(found) => {
            assert(jsons(found@).len() == found@.len());
            assert(jsons(found@)[0] == found@[0]@);
        },
        _ => {},
    }
}

/// News of the program's own session is handed on as it came: errors of
/// extensions, its status, that it was replaced, read anew, attached or
/// detached, and what comes of a question on the side.
pub proof fn news_of_the_session_is_handed_on(
    client: &mut DaemonClient,
    value: Json,
    arrival: Arrival,
)
    requires
        call_ensures(DaemonClient::take_value, (client, value), arrival),
        is_own(old(client)@, value@),
        says(value@, "type"@, "extension_error"@) || says(value@, "type"@, "session_status"@)
            || says(value@, "type"@, "session_replaced"@) || says(
            value@,
            "type"@,
            "session_resynced"@,
        ) || says(value@, "type"@, "session_attached"@) || says(
            value@,
            "type"@,
            "session_detached"@,
        ) || says(value@, "type"@, "side_question_event"@),
    ensures
        final(client)@ == old(client)@,
        brings(arrival, seq![value@]),
{
    lemma_kinds();
}

/// News of the daemon is handed on as it came, whatever session it is on: that
/// its heartbeats or its roster changed, and that it closes.
pub proof fn news_of_the_daemon_is_handed_on(
    client: &mut DaemonClient,
    value: Json,
    arrival: Arrival,
)
    requires
        call_ensures(DaemonClient::take_value, (client, value), arrival),
        says(value@, "type"@, "heartbeats_changed"@) || says(value@, "type"@, "roster_update"@)
            || says(value@, "type"@, "daemon_closing"@),
    ensures
        final(client)@ == old(client)@,
        brings(arrival, seq![value@]),
{
    lemma_kinds();
}

/// Anything else that is no response is not handed on: what is on a session that
/// is neither the program's own nor observed, what observed sessions tell but
/// for their events and their close, and values of other kinds.
pub proof fn nothing_else_is_handed_on(client: &mut DaemonClient, value: Json, arrival: Arrival)
    requires
        call_ensures(DaemonClient::take_value, (client, value), arrival),
        !says(value@, "type"@, "response"@),
        !says(value@, "type"@, "heartbeats_changed"@),
        !says(value@, "type"@, "roster_update"@),
        !says(value@, "type"@, "daemon_closing"@),
        says(value@, "type"@, "session_event"@) || says(value@, "type"@, "session_closed"@)
            ==> !is_own(old(client)@, value@) && forall|key: Seq<char>|
            !is_observed(old(client)@, value@, key),
        says(value@, "type"@, "extension_ui_request"@) || says(
            value@,
            "type"@,
            "extension_error"@,
        ) || says(value@, "type"@, "session_status"@) || says(
            value@,
            "type"@,
            "session_replaced"@,
        ) || says(value@, "type"@, "session_resynced"@) || says(
            value@,
            "type"@,
            "session_attached"@,
        ) || says(value@, "type"@, "session_detached"@) || says(
            value@,
            "type"@,
            "side_question_event"@,
        ) ==> !is_own(old(client)@, value@),
    ensures
        final(client)@ == old(client)@,
        brings(arrival, Seq::empty()),
{
    lemma_kinds();
    match value@.get("activeSessionId"@) {
        Some(JsonView::Text(key)) => {
            assert(says(value@, "activeSessionId"@, key));
            assert(is_observed(old(client)@, value@, key) <==> !is_own(old(client)@, value@)
                && old(client)@.observed.contains(key));
        },
        _ => {},
    }
}

/// A response to a command that is waited for is the reply to it, and is
/// acknowledged by the name of the command, under the name of this program. Any
/// other response is nothing.
pub proof fn a_response_is_a_reply_and_is_acknowledged(
    client: &mut DaemonClient,
    value: Json,
    arrival: Arrival,
)
    requires
        call_ensures(DaemonClient::take_value, (client, value), arrival),
        says(value@, "type"@, "response"@),
    ensures
        match value@.get("id"@) {
            Some(JsonView::Text(id)) => if old(client)@.requests.waiting.contains(id) {
                arrival matches Arrival::Reply { id: name, reply, acknowledgement: word } && name@
                    == id && (reply is Ok <==> value@.get("success"@) == Some(JsonView::Bool(true)))
                    && (reply matches Ok(data) ==> data@ == value@.at("data"@)) && (reply
                    matches Err(error) ==> error@ == match value@.get("error"@) {
                    Some(JsonView::Text(text)) => text,
                    _ => "Prime daemon request failed"@,
                }) && says(word@, "type"@, "command"@) && says(word@, "id"@, "ack-"@ + id) && says(
                    word@,
                    "clientId"@,
                    old(client)@.client_id,
                ) && says(word@.at("command"@), "type"@, "ack_result"@) && says(
                    word@.at("command"@),
                    "commandId"@,
                    id,
                ) && !final(client)@.requests.waiting.contains(id)
            } else {
                brings(arrival, Seq::empty()) && final(client)@ == old(client)@
            },
            _ => brings(arrival, Seq::empty()) && final(client)@ == old(client)@,
        },
        final(client)@.root == old(client)@.root,
        final(client)@.observed == old(client)@.observed,
{
    broadcast use lemma_get_set;

    match value@.get("id"@) {
        Some(JsonView::Text(id)) => {
            reveal_strlit("type");
            reveal_strlit("id");
            reveal_strlit("clientId");
            reveal_strlit("protocol");
            reveal_strlit("command");
            reveal_strlit("commandId");
            assert("type"@.len() == 4);
            assert("id"@.len() == 2);
            assert("clientId"@.len() == 8);
            assert("protocol"@.len() == 8);
            assert("command"@.len() == 7);
            assert("commandId"@.len() == 9);
            assert("clientId"@[0] == 'c');
            assert("protocol"@[0] == 'p');
            let d = old(client)@;
            let word = empty_object().set("type"@, JsonView::Text("ack_result"@));
            assert(word is Object);
            let a = empty_object().set("type"@, JsonView::Text("command"@));
            assert(a is Object);
            let b = a.set("id"@, JsonView::Text("ack-"@ + id));
            assert(b is Object);
            let c = b.set("clientId"@, JsonView::Text(d.client_id));
            assert(c is Object);
            assert(c.set("protocol"@, protocol_of(d.version)) is Object);
            lemma_without_name(d.requests.waiting, id);
        },
        _ => {},
    }
}

} // verus!
