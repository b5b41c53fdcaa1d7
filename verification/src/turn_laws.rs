//! What holds of every account of how a turn ended and how full the context is.

use vstd::prelude::*;

#[allow(unused_imports)]
use crate::json::{opt_text, Json, JsonView, NumberView};
#[allow(unused_imports)]
use crate::proto::{AgentEvent, DoneStatus, ErrorView, EventView, HarnessError};
#[allow(unused_imports)]
use crate::turn::{context_usage, last_verdict, tell_end, terminal_result, usage_event, verdict};

verus! {

/// Whether a message of a transcript is one of the assistant.
pub open spec fn is_assistants(message: JsonView) -> bool {
    message.get("role"@) == Some(JsonView::Text("assistant"@))
}

/// Whether a message of a transcript is the result of a command of the session.
pub open spec fn is_command_result(message: JsonView) -> bool {
    message.get("customType"@) == Some(JsonView::Text("session_slash_command_result"@))
}

proof fn lemma_last_word(messages: Seq<JsonView>, k: int)
    requires
        0 <= k < messages.len(),
        is_assistants(messages[k]) || is_command_result(messages[k]),
        forall|j: int|
            k < j < messages.len() ==> !is_assistants(#[trigger] messages[j]) && !is_command_result(
                messages[j],
            ),
    ensures
        verdict(messages[k]) is Some,
        last_verdict(messages) == verdict(messages[k])->0,
    decreases messages.len(),
{
    if k < messages.len() - 1 {
        let before = messages.drop_last();
        assert forall|j: int| k < j < before.len() implies !is_assistants(#[trigger] before[j])
            && !is_command_result(before[j]) by {
            assert(before[j] == messages[j]);
        }
        assert(!is_assistants(messages[messages.len() - 1]));
        lemma_last_word(before, k);
    }
}

proof fn lemma_no_word(messages: Seq<JsonView>)
    requires
        forall|j: int|
            0 <= j < messages.len() ==> !is_assistants(#[trigger] messages[j])
                && !is_command_result(messages[j]),
    ensures
        last_verdict(messages) == (DoneStatus::Completed, None::<Seq<char>>),
    decreases messages.len(),
{
    if messages.len() > 0 {
        let before = messages.drop_last();
        assert forall|j: int| 0 <= j < before.len() implies !is_assistants(#[trigger] before[j])
            && !is_command_result(before[j]) by {
            assert(before[j] == messages[j]);
        }
        assert(!is_assistants(messages[messages.len() - 1]));
        lemma_no_word(before);
    }
}

/// How a turn ended rests on the last message of the transcript that is one of
/// the assistant or the result of a command, and on nothing before or after it.
/// A message of the assistant that stopped with an error ends the turn with that
/// error; one that was aborted interrupts it; any other completes it, whatever
/// failed before.
pub proof fn the_last_answer_decides_how_a_turn_ended(
    data: Json,
    messages: Seq<JsonView>,
    k: int,
    end: Result<(DoneStatus, Option<String>), HarnessError>,
)
    requires
        call_ensures(terminal_result, (&data,), end),
        data@.get("messages"@) == Some(JsonView::Array(messages)),
        0 <= k < messages.len(),
        is_assistants(messages[k]),
        forall|j: int|
            k < j < messages.len() ==> !is_assistants(#[trigger] messages[j]) && !is_command_result(
                messages[j],
            ),
    ensures
        end is Ok,
        messages[k].get("stopReason"@) == Some(JsonView::Text("error"@)) ==> {
            &&& end->Ok_0.0 == DoneStatus::Errored
            &&& end->Ok_0.1 is Some
            &&& end->Ok_0.1->0@ == match messages[k].get("errorMessage"@) {
                Some(JsonView::Text(text)) => text,
                _ => "Prime model request failed"@,
            }
        },
        messages[k].get("stopReason"@) == Some(JsonView::Text("aborted"@)) ==> end->Ok_0.0
            == DoneStatus::Interrupted && end->Ok_0.1 is None,
        messages[k].get("stopReason"@) != Some(JsonView::Text("error"@)) && messages[k].get(
            "stopReason"@,
        ) != Some(JsonView::Text("aborted"@)) ==> end->Ok_0.0 == DoneStatus::Completed
            && end->Ok_0.1 is None,
{
    lemma_last_word(messages, k);
    reveal_strlit("error");
    reveal_strlit("aborted");
    assert("error"@.len() == 5);
    assert("aborted"@.len() == 7);
}

/// The result of a command, where it is the last word of the transcript, ends
/// the turn with the command's error if it says that the command did not
/// succeed, and completes it otherwise.
pub proof fn a_command_result_decides_how_a_turn_ended(
    data: Json,
    messages: Seq<JsonView>,
    k: int,
    end: Result<(DoneStatus, Option<String>), HarnessError>,
)
    requires
        call_ensures(terminal_result, (&data,), end),
        data@.get("messages"@) == Some(JsonView::Array(messages)),
        0 <= k < messages.len(),
        !is_assistants(messages[k]) && is_command_result(messages[k]),
        forall|j: int|
            k < j < messages.len() ==> !is_assistants(#[trigger] messages[j]) && !is_command_result(
                messages[j],
            ),
    ensures
        end is Ok,
        messages[k].at("details"@).get("success"@) == Some(JsonView::Bool(false)) ==> {
            &&& end->Ok_0.0 == DoneStatus::Errored
            &&& end->Ok_0.1 is Some
            &&& end->Ok_0.1->0@ == match messages[k].at("details"@).get("error"@) {
                Some(JsonView::Text(text)) => text,
                _ => "Prime command failed"@,
            }
        },
        messages[k].at("details"@).get("success"@) != Some(JsonView::Bool(false))
            ==> end->Ok_0.0 == DoneStatus::Completed && end->Ok_0.1 is None,
{
    lemma_last_word(messages, k);
}

/// A transcript without a word on how the turn ended completes it; without a
/// transcript there is an error.
pub proof fn a_silent_transcript_completes_the_turn(
    data: Json,
    end: Result<(DoneStatus, Option<String>), HarnessError>,
)
    requires
        call_ensures(terminal_result, (&data,), end),
    ensures
        !(data@.get("messages"@) matches Some(JsonView::Array(_))) ==> end is Err && end->Err_0@
            == ErrorView::Protocol("Prime daemon returned no terminal transcript"@),
        data@.get("messages"@) matches Some(JsonView::Array(messages)) && (forall|j: int|
            0 <= j < messages.len() ==> !is_assistants(#[trigger] messages[j])
                && !is_command_result(messages[j])) ==> end is Ok && end->Ok_0.0
            == DoneStatus::Completed && end->Ok_0.1 is None,
{
    match data@.get("messages"@) {
        Some(JsonView::Array(messages)) => {
            if forall|j: int|
                0 <= j < messages.len() ==> !is_assistants(#[trigger] messages[j])
                    && !is_command_result(messages[j]) {
                lemma_no_word(messages);
            }
        },
        _ => {},
    }
}

/// The end that a transcript gives is told as it is, and the want of one is told
/// as an error with its text.
pub proof fn an_end_is_told_as_it_is(
    outcome: Result<(DoneStatus, Option<String>), String>,
    end: (DoneStatus, Option<String>),
)
    requires
        call_ensures(tell_end, (outcome,), end),
    ensures
        outcome matches Ok(known) ==> end.0 == known.0 && opt_text(end.1) == opt_text(known.1),
        outcome matches Err(text) ==> end.0 == DoneStatus::Errored && opt_text(end.1) == Some(
            text@,
        ),
{
}

/// Statistics that name a context window tell its size and the tokens in it;
/// where the tokens are not known, the size alone. Statistics without a context
/// tell that neither is known.
pub proof fn statistics_tell_how_full_the_context_is(
    stats: Json,
    or_clear: bool,
    event: Option<AgentEvent>,
)
    requires
        call_ensures(usage_event, (Some(&stats), or_clear), event),
        stats@ is Object,
    ensures
        stats@.get("contextUsage"@) is None || stats@.get("contextUsage"@) == Some(JsonView::Null)
            ==> event is Some && event->0@ == (EventView::ContextUsageSnapshot {
            tokens: None,
            window: None,
        }),
        match (
            stats@.at("contextUsage"@).get("contextWindow"@),
            stats@.at("contextUsage"@).get("tokens"@),
        ) {
            (
                Some(JsonView::Number(NumberView::Unsigned(window))),
                Some(JsonView::Number(NumberView::Unsigned(tokens))),
            ) => window > 0 ==> event is Some && event->0@ == (EventView::ContextUsageSnapshot {
                tokens: Some(tokens),
                window: Some(window),
            }),
            (Some(JsonView::Number(NumberView::Unsigned(window))), None) => window > 0
                ==> event is Some && event->0@ == (EventView::ContextUsageSnapshot {
                tokens: None,
                window: Some(window),
            }),
            (
                Some(JsonView::Number(NumberView::Unsigned(window))),
                Some(JsonView::Null),
            ) => window > 0 ==> event is Some && event->0@ == (EventView::ContextUsageSnapshot {
                tokens: None,
                window: Some(window),
            }),
            _ => true,
        },
{
}

/// Statistics that make no sense, or none at all, tell nothing, unless the
/// context is to be declared unknown.
pub proof fn senseless_statistics_tell_nothing(
    stats: Option<&Json>,
    or_clear: bool,
    event: Option<AgentEvent>,
)
    requires
        call_ensures(usage_event, (stats, or_clear), event),
        stats is None || !(stats->0@ is Object) || (stats->0@.get("contextUsage"@) matches Some(usage)
            && usage != JsonView::Null && (match usage.get("contextWindow"@) {
            Some(JsonView::Number(NumberView::Unsigned(window))) => window == 0 || (match usage.get(
                "tokens"@,
            ) {
                None => false,
                Some(JsonView::Null) => false,
                Some(JsonView::Number(NumberView::Unsigned(_))) => false,
                Some(_) => true,
            }),
            _ => true,
        })),
    ensures
        or_clear ==> event is Some && event->0@ == (EventView::ContextUsageSnapshot {
            tokens: None,
            window: None,
        }),
        !or_clear ==> event is None,
{
}

/// The tokens and the size of the context are read as they are given.
pub proof fn a_context_is_read_as_given(
    stats: Json,
    tokens: u64,
    window: u64,
    usage: Option<(Option<u64>, Option<u64>)>,
)
    requires
        call_ensures(context_usage, (&stats,), usage),
        stats@.at("contextUsage"@).get("contextWindow"@) == Some(
            JsonView::Number(NumberView::Unsigned(window)),
        ),
        stats@.at("contextUsage"@).get("tokens"@) == Some(
            JsonView::Number(NumberView::Unsigned(tokens)),
        ),
        window > 0,
    ensures
        usage == Some((Some(tokens), Some(window))),
{
}

} // verus!
