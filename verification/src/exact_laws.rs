//! Nothing is sent but what is said, and nothing changes but what has to.

use vstd::prelude::*;

#[allow(unused_imports)]
use crate::client::PrimeClient;
#[allow(unused_imports)]
use crate::daemon::{
    attachment, creation_fields, daemon_fields, envelope, observing, protocol_of, relay_answer,
    relayed_answer, Arrival, DaemonClient, DaemonView, Outgoing,
};
#[allow(unused_imports)]
use crate::daemon_call_laws::is_observed;
#[allow(unused_imports)]
use crate::event_laws::{lemma_kinds, says};
#[allow(unused_imports)]
use crate::events::{EventMapper, MapperView};
#[allow(unused_imports)]
use crate::extension_ui::answer_request;
#[allow(unused_imports)]
use crate::json::{empty_object, jsons, lemma_get_set, Json, JsonView};
#[allow(unused_imports)]
use crate::piece_laws::{lemma_other_names, other_names};
#[allow(unused_imports)]
use crate::proto::{events, AgentEvent, EventView, HarnessError, UserInputAnswer};
#[allow(unused_imports)]
use crate::requests::{closing_message, WaitingView};
#[allow(unused_imports)]
use crate::rollout::{portions_do_not_matter, RolloutImages};
#[allow(unused_imports)]
use crate::session::lifecycle;
#[allow(unused_imports)]
use crate::session_call_laws::number_after;
#[allow(unused_imports)]
use crate::setup::goal_event;
#[allow(unused_imports)]
use crate::text::decimal_text;

verus! {

/// Whether a value is an object with so many fields.
pub open spec fn has_fields(value: JsonView, count: nat) -> bool {
    value matches JsonView::Object(fields) && fields.len() == count
}

proof fn lemma_one_more(value: JsonView, key: Seq<char>, held: JsonView, count: nat)
    requires
        has_fields(value, count),
        value.get(key) is None,
    ensures
        has_fields(value.set(key, held), count + 1),
{
}

/// A session is asked for with what it needs, and nothing more.
pub proof fn a_session_is_asked_for_with_nothing_more(
    cwd: &str,
    resume: Option<&str>,
    fields: Json,
)
    requires
        call_ensures(creation_fields, (cwd, resume), fields),
    ensures
        has_fields(
            fields@,
            if resume is Some {
                3
            } else {
                2
            },
        ),
        has_fields(fields@.at("config"@), 2),
{
    broadcast use lemma_get_set;

    reveal_strlit("lifecycle");
    reveal_strlit("config");
    reveal_strlit("cwd");
    reveal_strlit("executionMode");
    reveal_strlit("sessionPath");
    assert("lifecycle"@.len() == 9);
    assert("config"@.len() == 6);
    assert("cwd"@.len() == 3);
    assert("executionMode"@.len() == 13);
    assert("sessionPath"@.len() == 11);
    let inner = empty_object().set("cwd"@, JsonView::Text(cwd@));
    lemma_one_more(empty_object(), "cwd"@, JsonView::Text(cwd@), 0);
    lemma_one_more(inner, "executionMode"@, JsonView::Text("rpc"@), 1);
    let config = inner.set("executionMode"@, JsonView::Text("rpc"@));
    let a = empty_object().set("lifecycle"@, JsonView::Text("resident"@));
    lemma_one_more(empty_object(), "lifecycle"@, JsonView::Text("resident"@), 0);
    lemma_one_more(a, "config"@, config, 1);
    let b = a.set("config"@, config);
    match resume {
        Some(path) => {
            lemma_one_more(b, "sessionPath"@, JsonView::Text(path@), 2);
        },
        None => {},
    }
}

/// A session is attached to with nothing more than what it takes.
pub proof fn a_session_is_attached_to_with_nothing_more(
    client: DaemonClient,
    root: &str,
    fields: Json,
)
    requires
        call_ensures(DaemonClient::attachment_fields, (&client, root), fields),
    ensures
        has_fields(fields@, 4),
{
    broadcast use lemma_get_set;

    reveal_strlit("activeSessionId");
    reveal_strlit("clientId");
    reveal_strlit("supportsExtensionUi");
    reveal_strlit("capabilities");
    assert("activeSessionId"@.len() == 15);
    assert("clientId"@.len() == 8);
    assert("supportsExtensionUi"@.len() == 19);
    assert("capabilities"@.len() == 12);
    let a = empty_object().set("activeSessionId"@, JsonView::Text(root@));
    lemma_one_more(empty_object(), "activeSessionId"@, JsonView::Text(root@), 0);
    let b = a.set("clientId"@, JsonView::Text(client.client_id@));
    lemma_one_more(a, "clientId"@, JsonView::Text(client.client_id@), 1);
    let c = b.set("supportsExtensionUi"@, JsonView::Bool(true));
    lemma_one_more(b, "supportsExtensionUi"@, JsonView::Bool(true), 2);
    let list = attachment(client@, root@).at("capabilities"@);
    lemma_one_more(c, "capabilities"@, list, 3);
    assert(fields@ == c.set("capabilities"@, list));
}

/// An answer is relayed as one thing, and nothing more.
pub proof fn an_answer_is_relayed_as_one_thing(value: Json, fields: Result<Json, HarnessError>)
    requires
        call_ensures(relay_answer, (&value,), fields),
        fields is Ok,
    ensures
        has_fields(fields->Ok_0@, 2),
        has_fields(fields->Ok_0@.at("response"@), 1),
{
    broadcast use lemma_get_set;

    reveal_strlit("requestId");
    reveal_strlit("response");
    assert("requestId"@.len() == 9);
    assert("response"@.len() == 8);
    let id = value@.at("id"@);
    lemma_one_more(empty_object(), "requestId"@, id, 0);
    lemma_one_more(
        empty_object().set("requestId"@, id),
        "response"@,
        relayed_answer(value@),
        1,
    );
    lemma_one_more(empty_object(), "confirmed"@, value@.at("confirmed"@), 0);
    lemma_one_more(empty_object(), "value"@, value@.at("value"@), 0);
    lemma_one_more(empty_object(), "cancelled"@, JsonView::Bool(true), 0);
    assert(empty_object().set("requestId"@, id) is Object);
}

/// The answer to an extension says one thing, under the name of the question.
pub proof fn an_answer_says_one_thing(
    method: &str,
    id: &str,
    answers: Vec<UserInputAnswer>,
    response: Json,
)
    requires
        call_ensures(answer_request, (method, id, &answers), response),
    ensures
        has_fields(response@, 3),
{
    broadcast use lemma_get_set;

    reveal_strlit("type");
    reveal_strlit("id");
    reveal_strlit("confirmed");
    reveal_strlit("value");
    reveal_strlit("cancelled");
    assert("type"@.len() == 4);
    assert("id"@.len() == 2);
    assert("confirmed"@.len() == 9);
    assert("value"@.len() == 5);
    assert("cancelled"@.len() == 9);
    assert("confirmed"@[1] == 'o');
    assert("cancelled"@[1] == 'a');
    let kind = JsonView::Text("extension_ui_response"@);
    let a = empty_object().set("type"@, kind);
    lemma_one_more(empty_object(), "type"@, kind, 0);
    let b = a.set("id"@, JsonView::Text(id@));
    lemma_one_more(a, "id"@, JsonView::Text(id@), 1);
    assert(empty_object().get("confirmed"@) is None);
    assert(empty_object().get("value"@) is None);
    assert(empty_object().get("cancelled"@) is None);
    lemma_one_more(b, "confirmed"@, response@.at("confirmed"@), 2);
    lemma_one_more(b, "value"@, response@.at("value"@), 2);
    lemma_one_more(b, "cancelled"@, JsonView::Bool(true), 2);
}

/// The goal of a session is told with nothing more than its source.
pub proof fn the_goal_is_told_with_nothing_more(state: Json, event: AgentEvent)
    requires
        call_ensures(goal_event, (&state,), event),
    ensures
        event@ matches EventView::PrimeEvent { event: told } && has_fields(told, 3),
{
    broadcast use lemma_get_set;

    reveal_strlit("type");
    reveal_strlit("goal");
    reveal_strlit("source");
    assert("type"@.len() == 4);
    assert("goal"@.len() == 4);
    assert("source"@.len() == 6);
    assert("type"@[0] == 't');
    assert("goal"@[0] == 'g');
    let a = empty_object().set("type"@, JsonView::Text("goal_update"@));
    lemma_one_more(empty_object(), "type"@, JsonView::Text("goal_update"@), 0);
    let b = a.set("goal"@, state@.at("goal"@));
    lemma_one_more(a, "goal"@, state@.at("goal"@), 1);
    lemma_one_more(b, "source"@, JsonView::Text("get_state"@), 2);
}

/// The word of a close says that it is one, and why, and nothing more.
pub proof fn the_word_of_a_close_says_nothing_more(reason: &str, message: Json)
    requires
        call_ensures(closing_message, (reason,), message),
    ensures
        has_fields(message@, 2),
{
    broadcast use lemma_get_set;

    reveal_strlit("type");
    reveal_strlit("error");
    assert("type"@.len() == 4);
    assert("error"@.len() == 5);
    let kind = JsonView::Text("_transport_closed"@);
    lemma_one_more(empty_object(), "type"@, kind, 0);
    lemma_one_more(empty_object().set("type"@, kind), "error"@, JsonView::Text(reason@), 1);
}

proof fn lemma_envelope(d: DaemonView, id: Seq<char>, command: JsonView)
    ensures
        has_fields(envelope(d, id, command), 5),
        has_fields(envelope(d, id, command).at("protocol"@), 2),
        envelope(d, id, command).at("command"@) == command,
{
    broadcast use lemma_get_set;

    reveal_strlit("type");
    reveal_strlit("id");
    reveal_strlit("clientId");
    reveal_strlit("protocol");
    reveal_strlit("command");
    reveal_strlit("name");
    reveal_strlit("version");
    assert("type"@.len() == 4);
    assert("id"@.len() == 2);
    assert("clientId"@.len() == 8);
    assert("protocol"@.len() == 8);
    assert("command"@.len() == 7);
    assert("name"@.len() == 4);
    assert("version"@.len() == 7);
    assert("type"@[0] == 't');
    assert("name"@[0] == 'n');
    assert("clientId"@[0] == 'c');
    assert("protocol"@[0] == 'p');
    assert("command"@[0] == 'c');
    assert("version"@[0] == 'v');
    let a = empty_object().set("type"@, JsonView::Text("command"@));
    lemma_one_more(empty_object(), "type"@, JsonView::Text("command"@), 0);
    let b = a.set("id"@, JsonView::Text(id));
    lemma_one_more(a, "id"@, JsonView::Text(id), 1);
    let c = b.set("clientId"@, JsonView::Text(d.client_id));
    lemma_one_more(b, "clientId"@, JsonView::Text(d.client_id), 2);
    let e = c.set("protocol"@, protocol_of(d.version));
    lemma_one_more(c, "protocol"@, protocol_of(d.version), 3);
    lemma_one_more(e, "command"@, command, 4);
    let name = JsonView::Text("prime-agent.daemon"@);
    lemma_one_more(empty_object(), "name"@, name, 0);
    let p = empty_object().set("name"@, name);
    lemma_one_more(p, "version"@, protocol_of(d.version).at("version"@), 1);
    assert(p is Object);
}

/// A request to a process is named by its number, and is waited for from then on
/// along with the others; nothing else changes. One that is refused takes a
/// number too.
pub proof fn a_request_is_numbered(
    client: &mut PrimeClient,
    kind: &str,
    fields: Json,
    sent: Result<(String, Json), HarnessError>,
    number: u64,
    digits: String,
)
    requires
        call_ensures(PrimeClient::request, (client, kind, fields), sent),
        call_ensures(decimal_text, (number,), digits),
        number == old(client)@.next,
    ensures
        final(client)@.next == number_after(number),
        sent matches Ok((id, line)) ==> id@ == digits@ && final(client)@.waiting
            == if old(client)@.waiting.contains(digits@) {
            old(client)@.waiting
        } else {
            old(client)@.waiting.push(digits@)
        },
        sent is Err ==> final(client)@.waiting == old(client)@.waiting,
{
    reveal_strlit("");
    assert(""@ + digits@ =~= digits@);
}

/// The requests that are waited for once one more of a name is.
pub open spec fn waits_too(before: WaitingView, after: WaitingView, name: Seq<char>) -> bool {
    &&& after.next == number_after(before.next)
    &&& after.waiting == if before.waiting.contains(name) {
        before.waiting
    } else {
        before.waiting.push(name)
    }
}

/// A command to a daemon is waited for along with the others, and nothing else
/// changes; it is sent with nothing more than its wrapping.
pub proof fn a_command_changes_nothing_else(
    client: &mut DaemonClient,
    kind: &str,
    fields: Json,
    sent: Result<(String, Json), HarnessError>,
)
    requires
        call_ensures(DaemonClient::request_raw, (client, kind, fields), sent),
    ensures
        final(client)@ == (DaemonView { requests: final(client)@.requests, ..old(client)@ }),
        sent matches Ok((id, message)) ==> has_fields(message@, 5) && has_fields(
            message@.at("protocol"@),
            2,
        ) && waits_too(old(client)@.requests, final(client)@.requests, id@),
        sent is Err ==> final(client)@.requests.waiting == old(client)@.requests.waiting
            && final(client)@.requests.next == number_after(old(client)@.requests.next),
{
    match sent {
        Ok((id, message)) => {
            lemma_envelope(old(client)@, id@, fields@.set("type"@, JsonView::Text(kind@)));
        },
        Err(_) => {},
    }
}

/// A request to a daemon is waited for along with the others. Of the rest only
/// what is observed may change, and the order of what is observed does not. A
/// request that is no observation is sent with its own fields.
pub proof fn a_request_changes_nothing_else(
    client: &mut DaemonClient,
    kind: &str,
    fields: Json,
    sent: Result<Outgoing, HarnessError>,
    key: Seq<char>,
)
    requires
        call_ensures(DaemonClient::request, (client, kind, fields), sent),
        sent is Ok,
    ensures
        ({
            let out = sent->Ok_0;
            let before = old(client)@;
            &&& final(client)@ == (DaemonView {
                requests: final(client)@.requests,
                observed: final(client)@.observed,
                ..before
            })
            &&& waits_too(before.requests, final(client)@.requests, out.id@)
            &&& has_fields(out.message@, 5)
            &&& final(client)@.observed == if kind@ == "observe"@ {
                if before.observed.contains(out.target@) {
                    before.observed
                } else {
                    before.observed.push(out.target@)
                }
            } else if kind@ == "unobserve"@ {
                other_names(before.observed, out.target@)
            } else {
                before.observed
            }
            &&& kind@ != "observe"@ && key != "type"@ && key != "activeSessionId"@
                ==> out.message@.at("command"@).get(key) == fields@.get(key)
        }),
{
    broadcast use lemma_get_set;

    reveal_strlit("observe");
    reveal_strlit("unobserve");
    reveal_strlit("type");
    reveal_strlit("activeSessionId");
    assert("observe"@.len() == 7);
    assert("unobserve"@.len() == 9);
    assert("type"@.len() == 4);
    assert("activeSessionId"@.len() == 15);
    let out = sent->Ok_0;
    lemma_other_names(old(client)@.observed, out.target@);
    let d = DaemonView {
        observed: observing(old(client)@, kind@, out.target@),
        ..old(client)@
    };
    let whole = daemon_fields(d, kind@, fields@);
    lemma_envelope(d, out.id@, whole.set("type"@, JsonView::Text(out.kind@)));
    assert(fields@.set("activeSessionId"@, JsonView::Text(out.target@)) is Object);
    assert(whole is Object);
}

/// A session that was made is taken in, and nothing else changes.
pub proof fn a_made_session_changes_nothing_else(
    client: &mut DaemonClient,
    data: Json,
    result: Result<(), HarnessError>,
)
    requires
        call_ensures(DaemonClient::created, (client, &data), result),
    ensures
        final(client)@ == (DaemonView { root: final(client)@.root, ..old(client)@ }),
{
}

/// A command that could not be sent is waited for no more, and nothing else
/// changes.
pub proof fn an_unsent_command_changes_nothing_else(
    client: &mut DaemonClient,
    id: &str,
    error: HarnessError,
)
    requires
        call_ensures(DaemonClient::unsent, (client, id), error),
    ensures
        final(client)@ == (DaemonView {
            requests: WaitingView {
                waiting: other_names(old(client)@.requests.waiting, id@),
                ..old(client)@.requests
            },
            ..old(client)@
        }),
{
    lemma_other_names(old(client)@.requests.waiting, id@);
}

/// An observation that fails is given up, and no other; one that succeeds gives
/// its messages, and nothing more.
pub proof fn a_failed_observation_changes_nothing_else(
    client: &mut DaemonClient,
    kind: &str,
    target: &str,
    result: Result<Json, HarnessError>,
    answer: Result<Json, HarnessError>,
)
    requires
        call_ensures(DaemonClient::conclude, (client, kind, target, result), answer),
        kind@ == "observe"@,
    ensures
        result is Err ==> final(client)@ == (DaemonView {
            observed: other_names(old(client)@.observed, target@),
            ..old(client)@
        }),
        answer matches Ok(data) ==> has_fields(data@, 1),
{
    lemma_other_names(old(client)@.observed, target@);
    match result {
        Ok(data) => {
            lemma_one_more(empty_object(), "messages"@, data@.at("snapshot"@).at("messages"@), 0);
        },
        Err(_) => {},
    }
}

/// A reply of a daemon settles its command, and nothing else changes; the word
/// that it was received says nothing more.
pub proof fn a_reply_changes_nothing_else(
    client: &mut DaemonClient,
    value: Json,
    arrival: Arrival,
    id: Seq<char>,
)
    requires
        call_ensures(DaemonClient::take_value, (client, value), arrival),
        says(value@, "type"@, "response"@),
        says(value@, "id"@, id),
        old(client)@.requests.waiting.contains(id),
    ensures
        final(client)@ == (DaemonView {
            requests: WaitingView {
                waiting: other_names(old(client)@.requests.waiting, id),
                ..old(client)@.requests
            },
            ..old(client)@
        }),
        arrival matches Arrival::Reply { acknowledgement: word, .. } && has_fields(word@, 5)
            && has_fields(word@.at("command"@), 2),
{
    broadcast use lemma_get_set;

    reveal_strlit("type");
    reveal_strlit("commandId");
    assert("type"@.len() == 4);
    assert("commandId"@.len() == 9);
    lemma_other_names(old(client)@.requests.waiting, id);
    let kind = JsonView::Text("ack_result"@);
    lemma_one_more(empty_object(), "type"@, kind, 0);
    let a = empty_object().set("type"@, kind);
    lemma_one_more(a, "commandId"@, JsonView::Text(id), 1);
    lemma_envelope(old(client)@, "ack-"@ + id, a.set("commandId"@, JsonView::Text(id)));
}

/// What is handed on of an observed session says what it is and where it comes
/// from, with the event, if it is one, and nothing more.
pub proof fn what_is_observed_is_handed_on_with_nothing_more(
    client: &mut DaemonClient,
    value: Json,
    arrival: Arrival,
    key: Seq<char>,
)
    requires
        call_ensures(DaemonClient::take_value, (client, value), arrival),
        is_observed(old(client)@, value@, key),
        says(value@, "type"@, "session_event"@) || says(value@, "type"@, "session_closed"@),
    ensures
        arrival matches Arrival::Messages(found) && found@.len() == 1 && has_fields(
            found@[0]@,
            if says(value@, "type"@, "session_event"@) {
                3
            } else {
                2
            },
        ),
{
    broadcast use lemma_get_set;

    reveal_strlit("session_event");
    reveal_strlit("session_closed");
    reveal_strlit("response");
    reveal_strlit("type");
    reveal_strlit("activeSessionId");
    reveal_strlit("event");
    assert("session_event"@.len() == 13);
    assert("session_closed"@.len() == 14);
    assert("response"@.len() == 8);
    assert("type"@.len() == 4);
    assert("activeSessionId"@.len() == 15);
    assert("event"@.len() == 5);
    let a = JsonView::Text("observed_session_event"@);
    let b = JsonView::Text("observed_session_closed"@);
    lemma_one_more(empty_object(), "type"@, a, 0);
    lemma_one_more(empty_object(), "type"@, b, 0);
    let c = empty_object().set("type"@, a);
    let d = empty_object().set("type"@, b);
    lemma_one_more(c, "activeSessionId"@, JsonView::Text(key), 1);
    lemma_one_more(d, "activeSessionId"@, JsonView::Text(key), 1);
    let e = c.set("activeSessionId"@, JsonView::Text(key));
    lemma_one_more(e, "event"@, value@.at("event"@), 2);
    match arrival {
        Arrival::Messages(found) => {
            assert(jsons(found@).len() == found@.len());
            if found@.len() > 0 {
                assert(jsons(found@)[0] == found@[0]@);
            }
        },
        _ => {},
    }
}

/// What the mapper remembers changes in one thing at most.
pub proof fn a_mapper_changes_in_one_thing(
    mapper: &mut EventMapper,
    event: Json,
    found: Vec<AgentEvent>,
)
    requires
        call_ensures(EventMapper::map, (mapper, &event), found),
    ensures
        says(event@, "type"@, "message_end"@) ==> final(mapper)@ == (MapperView {
            failure: final(mapper)@.failure,
            ..old(mapper)@
        }),
        says(event@, "type"@, "bash_output"@) || says(event@, "type"@, "bash_end"@) ==> final(mapper)@
            == (MapperView { active_bash: final(mapper)@.active_bash, ..old(mapper)@ }),
        says(event@, "type"@, "bash_start"@) ==> final(mapper)@.failure == old(mapper)@.failure,
{
    lemma_kinds();
}

/// How a rollout is cut up by the times at which it is read does not matter: in
/// two portions or in one, it shows the same pictures, in order, and is left
/// with the same beginning of a line; and it fails in the one way if it fails in
/// the other.
pub proof fn a_rollout_can_be_read_in_portions(
    one: &mut RolloutImages,
    first: Vec<u8>,
    shown: Result<Vec<AgentEvent>, HarnessError>,
    two: &mut RolloutImages,
    second: Vec<u8>,
    more: Result<Vec<AgentEvent>, HarnessError>,
    three: &mut RolloutImages,
    both: Vec<u8>,
    all: Result<Vec<AgentEvent>, HarnessError>,
)
    requires
        call_ensures(RolloutImages::take_appended, (one, first), shown),
        call_ensures(RolloutImages::take_appended, (two, second), more),
        call_ensures(RolloutImages::take_appended, (three, both), all),
        old(two)@ == final(one)@,
        old(three)@ == old(one)@,
        both@ == first@ + second@,
    ensures
        all is Ok <==> shown is Ok && more is Ok,
        all is Ok ==> events(all->Ok_0@) == events(shown->Ok_0@) + events(more->Ok_0@)
            && final(three)@.pending == final(two)@.pending,
        final(three)@.path == old(one)@.path,
        final(one)@.path == old(one)@.path,
{
    portions_do_not_matter(old(one)@.pending, first@, second@);
}

} // verus!
