//! How a turn ended and how full the context is, by Prime's own account.

use vstd::prelude::*;

use crate::json::{text_or_else, Json, JsonView};
#[allow(unused_imports)]
use crate::json::{jsons, opt_text, text_or};
use crate::proto::{protocol_error, AgentEvent, DoneStatus, ErrorView, EventView, HarnessError};

verus! {

/// How a message of the transcript says that the turn ended, if it does.
pub open spec fn verdict(message: JsonView) -> Option<(DoneStatus, Option<Seq<char>>)> {
    if message.at("role"@).is_text("assistant"@) {
        Some(
            if message.at("stopReason"@).is_text("error"@) {
                (
                    DoneStatus::Errored,
                    Some(
                        text_or(
                            message.at("errorMessage"@).as_text(),
                            "Prime model request failed"@,
                        ),
                    ),
                )
            } else if message.at("stopReason"@).is_text("aborted"@) {
                (DoneStatus::Interrupted, None)
            } else {
                (DoneStatus::Completed, None)
            },
        )
    } else if message.at("customType"@).is_text("session_slash_command_result"@) {
        Some(
            if message.at("details"@).at("success"@) == JsonView::Bool(false) {
                (
                    DoneStatus::Errored,
                    Some(
                        text_or(
                            message.at("details"@).at("error"@).as_text(),
                            "Prime command failed"@,
                        ),
                    ),
                )
            } else {
                (DoneStatus::Completed, None)
            },
        )
    } else {
        None
    }
}

/// How a transcript says that the turn ended: its last message that says so
/// decides.
pub open spec fn last_verdict(messages: Seq<JsonView>) -> (DoneStatus, Option<Seq<char>>)
    decreases messages.len(),
{
    if messages.len() == 0 {
        (DoneStatus::Completed, None)
    } else {
        match verdict(messages.last()) {
            Some(end) => end,
            None => last_verdict(messages.drop_last()),
        }
    }
}

/// How a turn ended, by the data that hold the transcript.
pub open spec fn turn_end(data: JsonView) -> Result<(DoneStatus, Option<Seq<char>>), ErrorView> {
    match data.at("messages"@) {
        JsonView::Array(messages) => Ok(last_verdict(messages)),
        _ => Err(ErrorView::Protocol("Prime daemon returned no terminal transcript"@)),
    }
}

/// How full the context is: the tokens in it and its size, where known. None
/// where the data make no sense.
pub open spec fn usage_of(stats: JsonView) -> Option<(Option<u64>, Option<u64>)> {
    let usage = stats.at("contextUsage"@);
    if !(stats is Object) {
        None
    } else if usage == JsonView::Null {
        Some((None, None))
    } else {
        let window = usage.at("contextWindow"@).as_u64();
        let tokens = usage.at("tokens"@).as_u64();
        if window is Some && window->0 > 0 && (usage.at("tokens"@) == JsonView::Null || tokens is Some) {
            Some((tokens, window))
        } else {
            None
        }
    }
}

/// The event that says how full the context is, if any. Where the data make no
/// sense, or there are none, the context is declared unknown if that is asked
/// for.
pub open spec fn usage_event_of(stats: Option<JsonView>, or_clear: bool) -> Option<EventView> {
    let usage = match stats {
        Some(stats) => usage_of(stats),
        None => None,
    };
    match usage {
        Some((tokens, window)) => Some(EventView::ContextUsageSnapshot { tokens, window }),
        None => if or_clear {
            Some(EventView::ContextUsageSnapshot { tokens: None, window: None })
        } else {
            None
        },
    }
}

/// How a message of the transcript says that the turn ended, if it does.
fn read_verdict(message: &Json) -> (end: Option<(DoneStatus, Option<String>)>)
    ensures
        match end {
            Some((status, error)) => verdict(message@) == Some((status, opt_text(error))),
            None => verdict(message@) is None,
        },
{
    if message.at("role").is_text("assistant") {
        if message.at("stopReason").is_text("error") {
            let error = text_or_else(
                message.at("errorMessage").as_text(),
                "Prime model request failed",
            );
            Some((DoneStatus::Errored, Some(error.to_owned())))
        } else if message.at("stopReason").is_text("aborted") {
            Some((DoneStatus::Interrupted, None))
        } else {
            Some((DoneStatus::Completed, None))
        }
    } else if message.at("customType").is_text("session_slash_command_result") {
        if message.at("details").at("success").as_bool() == Some(false) {
            let error = text_or_else(
                message.at("details").at("error").as_text(),
                "Prime command failed",
            );
            Some((DoneStatus::Errored, Some(error.to_owned())))
        } else {
            Some((DoneStatus::Completed, None))
        }
    } else {
        None
    }
}

/// How a turn ended, by the data that hold the transcript.
pub fn terminal_result(data: &Json) -> (end: Result<(DoneStatus, Option<String>), HarnessError>)
    ensures
        match end {
            Ok((status, error)) => turn_end(data@) == Ok::<
                (DoneStatus, Option<Seq<char>>),
                ErrorView,
            >((status, opt_text(error))),
            Err(error) => turn_end(data@) == Err::<(DoneStatus, Option<Seq<char>>), ErrorView>(
                error@,
            ),
        },
{
    let messages = match data.at("messages").as_array() {
        Some(messages) => messages,
        None => {
            return Err(protocol_error("Prime daemon returned no terminal transcript"));
        },
    };
    let ghost all = jsons(messages@);
    let mut i: usize = messages.len();
    proof {
        assert(all.take(i as int) =~= all);
    }
    while i > 0
        invariant
            i <= messages@.len(),
            all == jsons(messages@),
            turn_end(data@) == Ok::<(DoneStatus, Option<Seq<char>>), ErrorView>(
                last_verdict(all.take(i as int)),
            ),
        decreases i,
    {
        proof {
            assert(all.take(i as int).drop_last() =~= all.take(i - 1));
            assert(all.take(i as int).last() == messages@[i - 1]@);
        }
        i = i - 1;
        match read_verdict(&messages[i]) {
            Some(end) => {
                return Ok(end);
            },
            None => {},
        }
    }
    Ok((DoneStatus::Completed, None))
}

/// How the end of a turn is told. One that cannot be read is an error.
pub open spec fn told_end(outcome: Result<(DoneStatus, Option<Seq<char>>), Seq<char>>) -> (
    DoneStatus,
    Option<Seq<char>>,
) {
    match outcome {
        Ok(end) => end,
        Err(error) => (DoneStatus::Errored, Some(error)),
    }
}

/// How the end of a turn is told: as the transcript has it, or as an error with
/// the given text where the transcript could not be had or read.
pub fn tell_end(outcome: Result<(DoneStatus, Option<String>), String>) -> (end: (
    DoneStatus,
    Option<String>,
))
    ensures
        (end.0, opt_text(end.1)) == told_end(
            match outcome {
                Ok((status, error)) => Ok((status, opt_text(error))),
                Err(error) => Err(error@),
            },
        ),
{
    match outcome {
        Ok(end) => end,
        Err(error) => (DoneStatus::Errored, Some(error)),
    }
}

/// How full the context is, by the statistics of the session.
pub fn context_usage(stats: &Json) -> (usage: Option<(Option<u64>, Option<u64>)>)
    ensures
        usage == usage_of(stats@),
{
    if !stats.is_object() {
        return None;
    }
    let usage = stats.at("contextUsage");
    if usage.is_null() {
        return Some((None, None));
    }
    let tokens = usage.at("tokens").as_u64();
    match usage.at("contextWindow").as_u64() {
        Some(window) => if window > 0 && (usage.at("tokens").is_null() || tokens.is_some()) {
            Some((tokens, Some(window)))
        } else {
            None
        },
        None => None,
    }
}

/// The event that says how full the context is, if any.
pub fn usage_event(stats: Option<&Json>, or_clear: bool) -> (event: Option<AgentEvent>)
    ensures
        match event {
            Some(event) => usage_event_of(
                match stats {
                    Some(stats) => Some(stats@),
                    None => None,
                },
                or_clear,
            ) == Some(event@),
            None => usage_event_of(
                match stats {
                    Some(stats) => Some(stats@),
                    None => None,
                },
                or_clear,
            ) is None,
        },
{
    let usage = match stats {
        Some(stats) => context_usage(stats),
        None => None,
    };
    match usage {
        Some((tokens, window)) => Some(AgentEvent::ContextUsageSnapshot { tokens, window }),
        None => if or_clear {
            Some(AgentEvent::ContextUsageSnapshot { tokens: None, window: None })
        } else {
            None
        },
    }
}

} // verus!
