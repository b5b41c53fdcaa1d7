//! What holds of the pieces that events, requests and names are made of.

use vstd::prelude::*;
#[allow(unused_imports)]
use vstd::utf8::encode_utf8;

#[allow(unused_imports)]
use crate::actions::{actions, emit_all, show_all, Action, ActionView};
#[allow(unused_imports)]
use crate::client::{Incoming, PrimeClient};
#[allow(unused_imports)]
use crate::daemon::{Arrival, DaemonClient, DaemonView};
#[allow(unused_imports)]
use crate::event_laws::{
    is_call, is_cut, is_output, lemma_capped, lemma_is_call, lemma_is_output, lemma_joined_text,
    lemma_kinds, lemma_one_replayed, on_lines, says, texts_in,
};
#[allow(unused_imports)]
use crate::events::{
    append_bounded, cap_text, join_text_blocks, message_text, replay_messages, result_text,
    tool_result_events, typed_tool, EventMapper,
};
#[allow(unused_imports)]
use crate::ids::is_uuid_text;
#[allow(unused_imports)]
use crate::json::{
    copy_text, field_position, jsons, lemma_position, opt_str, opt_text, pairs, text_is,
    text_or_else, texts, Json, JsonView,
};
#[allow(unused_imports)]
use crate::names::{add_name, contains_name, drop_name, without_name};
#[allow(unused_imports)]
use crate::proto::{
    done_event, events, protocol_error, AgentEvent, DoneStatus, ErrorView, EventView, HarnessError,
    ToolCall,
};
#[allow(unused_imports)]
use crate::requests::{closing_message, read_reply, reply_view, Waiting, WaitingView};
#[allow(unused_imports)]
use crate::session_call_laws::{lemma_visible, number_after, visible};
#[allow(unused_imports)]
use crate::text::{byte_len, decimal_text, fit, lemma_encode_concat, lemma_fit};
#[allow(unused_imports)]
use crate::wire::parse;

verus! {

/// A text is shown whole up to 16 KiB, and else cut with a note.
pub proof fn a_text_is_cut_at_the_limit(text: &str, short: String)
    requires
        call_ensures(cap_text, (text,), short),
    ensures
        is_cut(text@, short@),
{
    lemma_capped(text@);
}

/// An output takes in as much of a chunk as there is room for below the limit of
/// 16 KiB, and is marked as cut if that is not all of it.
pub proof fn an_output_grows_up_to_the_limit(
    output: &mut String,
    chunk: &str,
    truncated: &mut bool,
    done: (),
)
    requires
        call_ensures(append_bounded, (output, chunk, truncated), done),
        encode_utf8(old(output)@).len() <= 16384,
    ensures
        ({
            let all = old(output)@ + chunk@;
            &&& encode_utf8(all).len() <= 16384 ==> final(output)@ == all && *final(truncated)
                == *old(truncated)
            &&& encode_utf8(all).len() > 16384 ==> {
                &&& *final(truncated)
                &&& old(output)@.is_prefix_of(final(output)@)
                &&& final(output)@.is_prefix_of(all)
                &&& final(output)@.len() < all.len()
                &&& encode_utf8(final(output)@).len() <= 16384
                &&& encode_utf8(all.take(final(output)@.len() as int + 1)).len() > 16384
            }
        }),
{
    let before = old(output)@;
    let room = (16384 - byte_len(before)) as nat;
    lemma_encode_concat(before, chunk@);
    lemma_fit(chunk@, room);
    let n = fit(chunk@, room) as int;
    lemma_encode_concat(before, chunk@.take(n));
    if n < chunk@.len() {
        lemma_encode_concat(before, chunk@.take(n + 1));
        assert((before + chunk@).take(before.len() + n + 1) =~= before + chunk@.take(n + 1));
    } else {
        assert(chunk@.take(n) =~= chunk@);
    }
}

/// An output that has reached the limit takes in nothing, and is marked as cut by
/// any chunk.
pub proof fn a_full_output_takes_in_nothing(
    output: &mut String,
    chunk: &str,
    truncated: &mut bool,
    done: (),
)
    requires
        call_ensures(append_bounded, (output, chunk, truncated), done),
        encode_utf8(old(output)@).len() >= 16384,
    ensures
        final(output)@ == old(output)@,
        *final(truncated) == (*old(truncated) || chunk@.len() > 0),
{
    lemma_fit(chunk@, 0);
    let n = fit(chunk@, 0) as int;
    if n > 0 {
        lemma_encode_concat(chunk@.take(1), chunk@.subrange(1, n));
        assert(chunk@.take(1) + chunk@.subrange(1, n) =~= chunk@.take(n));
    }
    assert(chunk@.take(0) =~= Seq::<char>::empty());
    if chunk@.len() > 0 {
        lemma_encode_concat(chunk@.take(1), chunk@.skip(1));
        assert(chunk@.take(1) + chunk@.skip(1) =~= chunk@);
        assert(encode_utf8(chunk@.take(1)).len() > 0);
    } else {
        assert(chunk@ =~= Seq::<char>::empty());
    }
    assert(old(output)@ + Seq::<char>::empty() =~= old(output)@);
}

/// The text of a message is the text itself, or that of its text blocks by
/// lines; there is none where it is empty.
pub proof fn the_text_of_a_message_is_that_of_its_blocks(
    blocks: Vec<Json>,
    joined: Option<String>,
    content: Json,
    text: Option<String>,
)
    requires
        call_ensures(join_text_blocks, (&blocks,), joined),
        call_ensures(message_text, (&content,), text),
    ensures
        texts_in(jsons(blocks@)).len() == 0 ==> joined is None,
        texts_in(jsons(blocks@)).len() > 0 ==> opt_text(joined) == Some(
            on_lines(texts_in(jsons(blocks@))),
        ),
        opt_text(text) == match content@ {
            JsonView::Text(own) => if own.len() > 0 {
                Some(own)
            } else {
                None
            },
            JsonView::Array(list) => if texts_in(list).len() > 0 {
                Some(on_lines(texts_in(list)))
            } else {
                None
            },
            _ => None,
        },
{
    lemma_joined_text(jsons(blocks@));
    match content@ {
        JsonView::Array(list) => {
            lemma_joined_text(list);
        },
        _ => {},
    }
}

/// The result of a tool is told with its text, as an error if it is said to be
/// one, and then its pictures: those of its content, or of the result itself
/// where it has none.
pub proof fn a_result_is_told_before_its_pictures(
    id: &str,
    result: Json,
    is_error: bool,
    found: Vec<AgentEvent>,
    text: Option<String>,
    content: Json,
    pictures: Vec<AgentEvent>,
)
    requires
        call_ensures(tool_result_events, (id, &result, is_error), found),
        call_ensures(result_text, (&result,), text),
        call_ensures(crate::tool_images::events, (id, &content), pictures),
        content@ == match result@.get("content"@) {
            Some(content) => content,
            None => result@,
        },
    ensures
        is_output(result@, opt_text(text)),
        events(found@) == seq![
            EventView::ToolResult { id: id@, is_error, output: opt_text(text), diff: None },
        ] + events(pictures@),
{
    lemma_is_output(result@);
}

/// A tool that ends is told as its result, whole.
pub proof fn a_tool_that_ends_tells_its_whole_result(
    mapper: &mut EventMapper,
    event: Json,
    found: Vec<AgentEvent>,
    id: &str,
    result: Json,
    is_error: bool,
    whole: Vec<AgentEvent>,
)
    requires
        call_ensures(EventMapper::map, (mapper, &event), found),
        call_ensures(tool_result_events, (id, &result, is_error), whole),
        says(event@, "type"@, "tool_execution_end"@),
        says(event@, "toolCallId"@, id@),
        result@ == event@.at("result"@),
        is_error == (event@.get("isError"@) == Some(JsonView::Bool(true))),
    ensures
        events(found@) == events(whole@),
{
    lemma_kinds();
}

/// A stored tool result is told as a result, whole.
pub proof fn a_stored_result_tells_its_whole_result(
    messages: Vec<Json>,
    found: Vec<AgentEvent>,
    id: &str,
    result: Json,
    is_error: bool,
    whole: Vec<AgentEvent>,
)
    requires
        call_ensures(replay_messages, (&messages,), found),
        call_ensures(tool_result_events, (id, &result, is_error), whole),
        messages@.len() == 1,
        says(messages@[0]@, "role"@, "toolResult"@),
        says(messages@[0]@, "toolCallId"@, id@),
        result@ == messages@[0]@.at("content"@),
        is_error == (messages@[0]@.get("isError"@) == Some(JsonView::Bool(true))),
    ensures
        events(found@) == events(whole@),
{
    lemma_one_replayed(messages@);
    reveal_strlit("toolResult");
    reveal_strlit("user");
    reveal_strlit("assistant");
    assert("toolResult"@.len() == 10);
    assert("user"@.len() == 4);
    assert("assistant"@.len() == 9);
}

/// A tool call is the one that its name and its arguments give.
pub proof fn a_tool_is_called_by_its_name(name: &str, args: Json, call: ToolCall)
    requires
        call_ensures(typed_tool, (name, &args), call),
    ensures
        is_call(Some(JsonView::Text(name@)), args@, call@),
{
    lemma_is_call(Some(JsonView::Text(name@)), args@);
}

/// Shell output without a text changes nothing.
pub proof fn shell_output_without_a_text_is_passed_over(
    mapper: &mut EventMapper,
    event: Json,
    found: Vec<AgentEvent>,
)
    requires
        call_ensures(EventMapper::map, (mapper, &event), found),
        says(event@, "type"@, "bash_output"@),
        !(event@.get("chunk"@) matches Some(JsonView::Text(_))),
    ensures
        final(mapper)@ == old(mapper)@,
        found@.len() == 0,
{
    lemma_kinds();
    assert(events(found@).len() == found@.len());
}

/// A new mapper remembers no failure and no shell run, and tells of none.
pub proof fn a_new_mapper_remembers_nothing(
    mapper: EventMapper,
    other: EventMapper,
    failure: Option<&str>,
)
    requires
        call_ensures(EventMapper::new, (), mapper),
        call_ensures(EventMapper::failure, (&other,), failure),
    ensures
        mapper.failure is None,
        mapper.active_bash is None,
        mapper@.next_bash_id == 0,
        opt_str(failure) == opt_text(other.failure),
{
}

/// The list of events that an engine is handed: all of them, in order, or all
/// but the user's own messages.
pub proof fn events_are_handed_on_in_order(
    list: Vec<AgentEvent>,
    all: Vec<Action>,
    shown: Vec<Action>,
)
    requires
        call_ensures(emit_all, (list,), all),
        call_ensures(show_all, (list,), shown),
    ensures
        all@.len() == list@.len(),
        forall|k: int|
            0 <= k < list@.len() ==> (#[trigger] actions(all@)[k]) == ActionView::Emit(list@[k]@),
        actions(shown@) == visible(events(list@)),
{
    lemma_visible(events(list@));
    assert(actions(all@).len() == all@.len());
    assert(events(list@).len() == list@.len());
    assert forall|k: int| 0 <= k < list@.len() implies (#[trigger] actions(all@)[k])
        == ActionView::Emit(list@[k]@) by {
        assert(events(list@)[k] == list@[k]@);
    }
}

/// The end of a turn and the error of a protocol are what they are made of.
pub proof fn ends_and_errors_are_what_they_are_made_of(
    status: DoneStatus,
    error: Option<String>,
    session_id: Option<String>,
    event: AgentEvent,
    message: &str,
    refused: HarnessError,
)
    requires
        call_ensures(done_event, (status, error, session_id), event),
        call_ensures(protocol_error, (message,), refused),
    ensures
        event@ == (EventView::Done {
            status,
            result: None,
            error: opt_text(error),
            session_id: opt_text(session_id),
        }),
        refused@ == ErrorView::Protocol(message@),
{
}

/// The value under a key is that of the first field of that key, or null, and
/// the text under it is that value, if it is a text.
pub proof fn a_field_is_read_by_its_key(
    value: Json,
    key: &str,
    at: &Json,
    text: Option<&str>,
)
    requires
        call_ensures(Json::at, (&value, key), at),
        call_ensures(Json::field, (&value, key), text),
    ensures
        at@ == match value@.get(key@) {
            Some(inner) => inner,
            None => JsonView::Null,
        },
        opt_str(text) == match value@.get(key@) {
            Some(JsonView::Text(inner)) => Some(inner),
            _ => None,
        },
{
}

/// The place of a field is that of the first with its key, or behind all.
pub proof fn a_field_stands_where_its_key_is_first(
    fields: Vec<(String, Json)>,
    key: &str,
    at: usize,
)
    requires
        call_ensures(field_position, (&fields, key), at),
    ensures
        at <= fields@.len(),
        at < fields@.len() ==> fields@[at as int].0@ == key@,
        forall|k: int| 0 <= k < at ==> (#[trigger] fields@[k]).0@ != key@,
{
    let all = pairs(fields@);
    lemma_position(all, key@);
    assert(all.len() == fields@.len());
    if at < fields@.len() {
        assert(all[at as int].0 == fields@[at as int].0@);
    }
    assert forall|k: int| 0 <= k < at implies (#[trigger] fields@[k]).0@ != key@ by {
        assert(all[k].0 == fields@[k].0@);
    }
}

/// A text that may be missing is copied as it is, replaced only where it is
/// missing, and is another one only where it is there.
pub proof fn a_missing_text_is_replaced(
    text: Option<&str>,
    other: &str,
    copy: Option<String>,
    chosen: &str,
    same: bool,
)
    requires
        call_ensures(copy_text, (text,), copy),
        call_ensures(text_or_else, (text, other), chosen),
        call_ensures(text_is, (text, other), same),
    ensures
        opt_text(copy) == opt_str(text),
        text matches Some(text) ==> chosen@ == text@ && (same <==> text@ == other@),
        text is None ==> chosen@ == other@ && !same,
{
}

/// A name that is added is in the list once more only where it was not, at the
/// end; one that is dropped is not; the others stay, in order.
pub proof fn names_are_added_and_dropped_alone(
    list: &mut Vec<String>,
    name: &str,
    done: (),
    found: bool,
)
    requires
        call_ensures(add_name, (list, name), done),
        call_ensures(contains_name, (&*old(list), name), found),
    ensures
        found <==> exists|i: int| 0 <= i < old(list)@.len() && (#[trigger] old(list)@[i])@ == name@,
        found ==> texts(final(list)@) == texts(old(list)@),
        !found ==> texts(final(list)@) == texts(old(list)@).push(name@),
{
    let all = texts(old(list)@);
    assert(all.len() == old(list)@.len());
    if found {
        let i = choose|i: int| 0 <= i < all.len() && all[i] == name@;
        assert(old(list)@[i]@ == name@);
    }
    if exists|i: int| 0 <= i < old(list)@.len() && (#[trigger] old(list)@[i])@ == name@ {
        let i = choose|i: int| 0 <= i < old(list)@.len() && (#[trigger] old(list)@[i])@ == name@;
        assert(all[i] == name@);
    }
}

/// The names of a list other than one, in order.
pub open spec fn other_names(list: Seq<Seq<char>>, name: Seq<char>) -> Seq<Seq<char>> {
    list.filter(|other: Seq<char>| other != name)
}

/// A list without a name is the list of the others.
pub proof fn lemma_other_names(list: Seq<Seq<char>>, name: Seq<char>)
    ensures
        without_name(list, name) == other_names(list, name),
    decreases list.len(),
{
    reveal(Seq::filter);
    if list.len() > 0 {
        lemma_other_names(list.drop_last(), name);
    }
}

/// A name that is dropped is no more in the list; the others stay, in order.
pub proof fn a_dropped_name_leaves_the_others(list: &mut Vec<String>, name: &str, done: ())
    requires
        call_ensures(drop_name, (list, name), done),
    ensures
        texts(final(list)@) == other_names(texts(old(list)@), name@),
{
    lemma_other_names(texts(old(list)@), name@);
}

/// Requests are named by a prefix and a number that counts up, and nothing is
/// waited for until it is asked.
pub proof fn requests_are_named_by_number(
    fresh: Waiting,
    waiting: &mut Waiting,
    prefix: &str,
    name: String,
    number: u64,
    digits: String,
)
    requires
        call_ensures(Waiting::new, (), fresh),
        call_ensures(Waiting::take_name, (waiting, prefix), name),
        call_ensures(decimal_text, (number,), digits),
        number == old(waiting)@.next,
    ensures
        fresh@.next == 0 && fresh@.waiting.len() == 0,
        name@ == prefix@ + digits@,
        final(waiting)@ == (WaitingView {
            next: number_after(old(waiting)@.next),
            waiting: old(waiting)@.waiting,
        }),
{
}

/// A request that is made is waited for from then on.
pub proof fn a_request_is_waited_for(waiting: &mut Waiting, name: &str, done: ())
    requires
        call_ensures(Waiting::wait_for, (waiting, name), done),
    ensures
        final(waiting)@.next == old(waiting)@.next,
        old(waiting)@.waiting.contains(name@) ==> final(waiting)@.waiting == old(waiting)@.waiting,
        !old(waiting)@.waiting.contains(name@) ==> final(waiting)@.waiting
            == old(waiting)@.waiting.push(name@),
{
}

/// A request that is settled is waited for no more, and it is told whether it
/// was; the others are waited for as before.
pub proof fn a_settled_request_is_waited_for_no_more(waiting: &mut Waiting, name: &str, was: bool)
    requires
        call_ensures(Waiting::settle, (waiting, name), was),
    ensures
        was <==> old(waiting)@.waiting.contains(name@),
        final(waiting)@.next == old(waiting)@.next,
        final(waiting)@.waiting == other_names(old(waiting)@.waiting, name@),
{
    lemma_other_names(old(waiting)@.waiting, name@);
}

/// What is given up is all that was waited for; then nothing is.
pub proof fn all_requests_are_given_up(waiting: &mut Waiting, names: Vec<String>)
    requires
        call_ensures(Waiting::give_up, (waiting,), names),
    ensures
        texts(names@) == old(waiting)@.waiting,
        final(waiting)@.waiting.len() == 0,
        final(waiting)@.next == old(waiting)@.next,
{
}

/// A new client waits for nothing. One whose request could not be sent does not
/// wait for it, and says so.
pub proof fn an_unsent_request_is_taken_back(
    fresh: PrimeClient,
    client: &mut PrimeClient,
    id: &str,
    kind: &str,
    error: HarnessError,
)
    requires
        call_ensures(PrimeClient::new, (), fresh),
        call_ensures(PrimeClient::unsent, (client, id, kind), error),
    ensures
        fresh@.next == 0 && fresh@.waiting.len() == 0,
        final(client)@.waiting == other_names(old(client)@.waiting, id@),
        final(client)@.next == old(client)@.next,
        error@ == ErrorView::Protocol("Prime RPC stdin closed before "@ + kind@),
{
    lemma_other_names(old(client)@.waiting, id@);
}

/// The reply to a request is read as any reply is, and settles the request.
pub proof fn a_reply_settles_its_request(
    client: &mut PrimeClient,
    value: Json,
    incoming: Incoming,
    id: Seq<char>,
    default: &str,
    read: Result<Json, String>,
)
    requires
        call_ensures(PrimeClient::take_value, (client, value), incoming),
        call_ensures(read_reply, (&value, default), read),
        says(value@, "type"@, "response"@),
        says(value@, "id"@, id),
        default@ == "Prime RPC request failed"@,
    ensures
        old(client)@.waiting.contains(id) ==> (incoming matches Incoming::Reply { id: name, reply }
            && name@ == id && reply_view(reply) == reply_view(read)),
        final(client)@.next == old(client)@.next,
        old(client)@.waiting.contains(id) ==> final(client)@.waiting == other_names(
            old(client)@.waiting,
            id,
        ),
        !old(client)@.waiting.contains(id) ==> final(client)@.waiting == old(client)@.waiting,
{
    lemma_other_names(old(client)@.waiting, id);
}

/// A line of a process is taken in as the value that it holds. An empty line is
/// nothing, and one that holds no value ends the transport with the reason.
pub proof fn a_line_is_taken_in_as_its_value(
    one: &mut PrimeClient,
    line: &str,
    incoming: Incoming,
    read: Result<Json, String>,
    other: &mut PrimeClient,
    value: Json,
    taken: Incoming,
)
    requires
        call_ensures(PrimeClient::take_line, (one, line), incoming),
        call_ensures(parse, (line,), read),
        call_ensures(PrimeClient::take_value, (other, value), taken),
        old(other)@ == old(one)@,
        read matches Ok(read) ==> read@ == value@,
    ensures
        line@.len() == 0 ==> incoming is Nothing && final(one)@ == old(one)@,
        line@.len() > 0 && read is Ok ==> incoming@ == taken@ && final(one)@ == final(other)@,
        line@.len() > 0 && read is Err ==> (incoming matches Incoming::Failure(reason) && reason@
            == "Prime RPC sent invalid JSON: "@ + read->Err_0@) && final(one)@ == old(one)@,
{
}

/// A client that is closed gives up all that it waited for, and tells the
/// session that the transport is closed, and why.
pub proof fn a_closed_client_gives_up_its_requests(
    client: &mut PrimeClient,
    reason: &str,
    last: (Vec<String>, Json),
    word: Json,
)
    requires
        call_ensures(PrimeClient::close, (client, reason), last),
        call_ensures(closing_message, (reason,), word),
    ensures
        texts(last.0@) == old(client)@.waiting,
        last.1@ == word@,
        final(client)@.waiting.len() == 0,
        final(client)@.next == old(client)@.next,
{
}

/// A line of a daemon is taken in as the value that it holds. An empty line is
/// nothing, and one that holds no value ends the connection with the reason.
pub proof fn a_line_of_a_daemon_is_taken_in_as_its_value(
    one: &mut DaemonClient,
    line: &str,
    arrival: Arrival,
    read: Result<Json, String>,
    other: &mut DaemonClient,
    value: Json,
    taken: Arrival,
)
    requires
        call_ensures(DaemonClient::take_line, (one, line), arrival),
        call_ensures(parse, (line,), read),
        call_ensures(DaemonClient::take_value, (other, value), taken),
        old(other)@ == old(one)@,
        read matches Ok(read) ==> read@ == value@,
    ensures
        line@.len() == 0 ==> (arrival matches Arrival::Messages(list) && list@.len() == 0)
            && final(one)@ == old(one)@,
        line@.len() > 0 && read is Ok ==> arrival@ == taken@ && final(one)@ == final(other)@,
        line@.len() > 0 && read is Err ==> (arrival matches Arrival::Failure(reason) && reason@
            == "Prime daemon sent invalid JSON: "@ + read->Err_0@) && final(one)@ == old(one)@,
{
    match arrival {
        Arrival::Messages(list) => {
            assert(jsons(list@).len() == list@.len());
        },
        _ => {},
    }
}

/// A connection that is closed gives up all that it waited for, and tells the
/// session that the transport is closed, and why; the rest stays.
pub proof fn a_closed_connection_gives_up_its_requests(
    client: &mut DaemonClient,
    reason: &str,
    last: (Vec<String>, Json),
    word: Json,
)
    requires
        call_ensures(DaemonClient::close, (client, reason), last),
        call_ensures(closing_message, (reason,), word),
    ensures
        texts(last.0@) == old(client)@.requests.waiting,
        last.1@ == word@,
        final(client)@ == (DaemonView {
            requests: WaitingView { waiting: Seq::empty(), ..old(client)@.requests },
            ..old(client)@
        }),
{
}

/// A connection goes under a fresh name of this program.
pub proof fn a_connection_has_a_fresh_name(version: u64, client: DaemonClient)
    requires
        call_ensures(DaemonClient::new, (version,), client),
    ensures
        client@.version == version,
        client@.root is None,
        client@.observed.len() == 0,
        client@.requests.waiting.len() == 0,
        exists|id: Seq<char>| #[trigger]
            is_uuid_text(id) && client@.client_id == "jjzeron:"@ + id,
{
}

} // verus!
