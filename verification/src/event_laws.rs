//! What holds of every native event and every stored message.

use vstd::prelude::*;
#[allow(unused_imports)]
use vstd::utf8::encode_utf8;

#[allow(unused_imports)]
use crate::counter::following;
#[allow(unused_imports)]
use crate::events::{
    block_text, block_texts, capped, joined_text, lines_text, output_text, replay_messages,
    replayed, replayed_block, replayed_message, tool_call, EventMapper,
};
#[allow(unused_imports)]
use crate::json::{jsons, Json, JsonView, NumberView};
#[allow(unused_imports)]
use crate::lists::lemma_joined_concat;
#[allow(unused_imports)]
use crate::proto::{events, AgentEvent, CallView, EventView};
#[allow(unused_imports)]
use crate::text::{byte_len, decimal, fit, lemma_encode_concat, lemma_fit};

verus! {

/// Whether a value has a field with a given text.
pub open spec fn says(value: JsonView, key: Seq<char>, text: Seq<char>) -> bool {
    value.get(key) == Some(JsonView::Text(text))
}

/// Whether a text is another one as it is shown: whole where it keeps to the
/// limit of 16 KiB, and else as much of its start as does, with a note.
pub open spec fn is_cut(text: Seq<char>, out: Seq<char>) -> bool {
    if encode_utf8(text).len() <= 16384 {
        out == text
    } else {
        exists|n: int|
            0 <= n < text.len() && out == #[trigger] text.take(n) + "\n… [truncated]"@
                && encode_utf8(text.take(n)).len() <= 16384 && encode_utf8(text.take(n + 1)).len()
                > 16384
    }
}

/// The texts of the text blocks among some blocks, without the empty ones.
pub open spec fn texts_in(blocks: Seq<JsonView>) -> Seq<Seq<char>>
    decreases blocks.len(),
{
    if blocks.len() == 0 {
        Seq::empty()
    } else {
        let before = texts_in(blocks.drop_last());
        match blocks.last().get("text"@) {
            Some(JsonView::Text(text)) => if says(blocks.last(), "type"@, "text"@) && text.len()
                > 0 {
                before.push(text)
            } else {
                before
            },
            _ => before,
        }
    }
}

/// Texts, each on a line of its own.
pub open spec fn on_lines(list: Seq<Seq<char>>) -> Seq<char>
    decreases list.len(),
{
    if list.len() == 0 {
        Seq::empty()
    } else if list.len() == 1 {
        list[0]
    } else {
        on_lines(list.drop_last()).push('\n') + list.last()
    }
}

/// The kinds of events are told apart by their names.
pub proof fn lemma_kinds()
    ensures
        "extension_error"@ != "message_start"@,
        "extension_error"@ != "message_update"@,
        "extension_error"@ != "message_end"@,
        "extension_error"@ != "tool_execution_start"@,
        "extension_error"@ != "tool_execution_end"@,
        "extension_error"@ != "bash_start"@,
        "extension_error"@ != "bash_output"@,
        "extension_error"@ != "bash_end"@,
        "message_start"@ != "message_update"@,
        "message_start"@ != "message_end"@,
        "message_start"@ != "tool_execution_start"@,
        "message_start"@ != "tool_execution_end"@,
        "message_start"@ != "bash_start"@,
        "message_start"@ != "bash_output"@,
        "message_start"@ != "bash_end"@,
        "message_update"@ != "message_end"@,
        "message_update"@ != "tool_execution_start"@,
        "message_update"@ != "tool_execution_end"@,
        "message_update"@ != "bash_start"@,
        "message_update"@ != "bash_output"@,
        "message_update"@ != "bash_end"@,
        "message_end"@ != "tool_execution_start"@,
        "message_end"@ != "tool_execution_end"@,
        "message_end"@ != "bash_start"@,
        "message_end"@ != "bash_output"@,
        "message_end"@ != "bash_end"@,
        "tool_execution_start"@ != "tool_execution_end"@,
        "tool_execution_start"@ != "bash_start"@,
        "tool_execution_start"@ != "bash_output"@,
        "tool_execution_start"@ != "bash_end"@,
        "tool_execution_end"@ != "bash_start"@,
        "tool_execution_end"@ != "bash_output"@,
        "tool_execution_end"@ != "bash_end"@,
        "bash_start"@ != "bash_output"@,
        "bash_start"@ != "bash_end"@,
        "bash_output"@ != "bash_end"@,
{
    reveal_strlit("extension_error");
    reveal_strlit("message_start");
    reveal_strlit("message_update");
    reveal_strlit("message_end");
    reveal_strlit("tool_execution_start");
    reveal_strlit("tool_execution_end");
    reveal_strlit("bash_start");
    reveal_strlit("bash_output");
    reveal_strlit("bash_end");
    assert("extension_error"@.len() == 15);
    assert("message_start"@.len() == 13);
    assert("message_update"@.len() == 14);
    assert("message_end"@.len() == 11);
    assert("tool_execution_start"@.len() == 20);
    assert("tool_execution_end"@.len() == 18);
    assert("bash_start"@.len() == 10);
    assert("bash_output"@.len() == 11);
    assert("bash_end"@.len() == 8);
    assert("message_end"@[0] == 'm');
    assert("bash_output"@[0] == 'b');
}

/// A text that is cut is the text as it is shown.
pub proof fn lemma_capped(text: Seq<char>)
    ensures
        is_cut(text, capped(text)),
{
    if byte_len(text) > 16384 {
        lemma_fit(text, 16384);
        let n = fit(text, 16384) as int;
        assert(capped(text) == text.take(n) + "\n… [truncated]"@);
    }
}

proof fn lemma_texts(blocks: Seq<JsonView>)
    ensures
        block_texts(blocks) == texts_in(blocks),
    decreases blocks.len(),
{
    let all = blocks.map_values(|block: JsonView| block_text(block));
    if blocks.len() > 0 {
        let before = blocks.drop_last();
        lemma_texts(before);
        assert(all.drop_last() =~= before.map_values(
            |block: JsonView| block_text(block),
        ));
        assert(all.last() == block_text(blocks.last()));
    }
}

proof fn lemma_lines(list: Seq<Seq<char>>)
    ensures
        lines_text(list) == on_lines(list),
    decreases list.len(),
{
    if list.len() > 1 {
        lemma_lines(list.drop_last());
        reveal_strlit("\n");
        let before = on_lines(list.drop_last());
        assert(before + "\n"@ + list.last() =~= before.push('\n') + list.last());
    }
}

/// The text of some blocks is that of their texts, by lines.
pub proof fn lemma_joined_text(blocks: Seq<JsonView>)
    ensures
        texts_in(blocks).len() == 0 ==> joined_text(blocks) is None,
        texts_in(blocks).len() > 0 ==> joined_text(blocks) == Some(on_lines(texts_in(blocks))),
{
    lemma_texts(blocks);
    lemma_lines(block_texts(blocks));
}

/// What the assistant says and thinks is shown as it comes in, increment for
/// increment; nothing else of an update is.
pub proof fn an_increment_is_shown(mapper: &mut EventMapper, event: Json, found: Vec<AgentEvent>)
    requires
        call_ensures(EventMapper::map, (mapper, &event), found),
        says(event@, "type"@, "message_update"@),
    ensures
        final(mapper)@ == old(mapper)@,
        match event@.at("assistantMessageEvent"@).get("delta"@) {
            Some(JsonView::Text(text)) => {
                &&& text.len() > 0 && says(
                    event@.at("assistantMessageEvent"@),
                    "type"@,
                    "text_delta"@,
                ) ==> events(found@) == seq![EventView::TextDelta { text }]
                &&& text.len() > 0 && says(
                    event@.at("assistantMessageEvent"@),
                    "type"@,
                    "thinking_delta"@,
                ) ==> events(found@) == seq![EventView::ReasoningDelta { text }]
                &&& text.len() == 0 ==> found@.len() == 0
            },
            _ => found@.len() == 0,
        },
        !says(event@.at("assistantMessageEvent"@), "type"@, "text_delta"@) && !says(
            event@.at("assistantMessageEvent"@),
            "type"@,
            "thinking_delta"@,
        ) ==> found@.len() == 0,
{
    lemma_kinds();
    reveal_strlit("text_delta");
    reveal_strlit("thinking_delta");
    assert("text_delta"@.len() == 10);
    assert("thinking_delta"@.len() == 14);
    assert(events(found@).len() == found@.len());
}

/// A message of the user's that starts is shown with its text, be that given as
/// a text or as blocks; one of anybody else's is not.
pub proof fn a_message_of_the_user_is_shown(
    mapper: &mut EventMapper,
    event: Json,
    found: Vec<AgentEvent>,
)
    requires
        call_ensures(EventMapper::map, (mapper, &event), found),
        says(event@, "type"@, "message_start"@),
    ensures
        final(mapper)@ == old(mapper)@,
        !says(event@.at("message"@), "role"@, "user"@) ==> found@.len() == 0,
        says(event@.at("message"@), "role"@, "user"@) ==> match event@.at("message"@).get(
            "content"@,
        ) {
            Some(JsonView::Text(text)) => if text.len() > 0 {
                events(found@) == seq![EventView::UserMessage { text }]
            } else {
                found@.len() == 0
            },
            Some(JsonView::Array(blocks)) => if texts_in(blocks).len() > 0 {
                events(found@) == seq![EventView::UserMessage { text: on_lines(texts_in(blocks)) }]
            } else {
                found@.len() == 0
            },
            _ => found@.len() == 0,
        },
{
    lemma_kinds();
    match event@.at("message"@).get("content"@) {
        Some(JsonView::Array(blocks)) => {
            lemma_joined_text(blocks);
        },
        _ => {},
    }
    assert(events(found@).len() == found@.len());
}

/// The end of a message of the assistant shows nothing. It is remembered as a
/// failure, with its error, if and only if it stopped with one.
pub proof fn the_end_of_an_answer_is_remembered(
    mapper: &mut EventMapper,
    event: Json,
    found: Vec<AgentEvent>,
)
    requires
        call_ensures(EventMapper::map, (mapper, &event), found),
        says(event@, "type"@, "message_end"@),
    ensures
        found@.len() == 0,
        !says(event@.at("message"@), "role"@, "assistant"@) ==> final(mapper)@ == old(mapper)@,
        says(event@.at("message"@), "role"@, "assistant"@) ==> {
            &&& final(mapper)@.active_bash == old(mapper)@.active_bash
            &&& !says(event@.at("message"@), "stopReason"@, "error"@) ==> final(mapper)@.failure
                is None
            &&& says(event@.at("message"@), "stopReason"@, "error"@) ==> final(mapper)@.failure
                == Some(
                match event@.at("message"@).get("errorMessage"@) {
                    Some(JsonView::Text(text)) => if text.len() > 0 {
                        text
                    } else {
                        "Prime model request failed"@
                    },
                    _ => "Prime model request failed"@,
                },
            )
        },
{
    lemma_kinds();
    assert(events(found@).len() == found@.len());
}

/// A tool call in the terms of the engine: code and shell commands are run,
/// anything else is called by its name with its arguments.
pub open spec fn is_call(name: Option<JsonView>, args: JsonView, call: CallView) -> bool {
    match name {
        Some(JsonView::Text(name)) => if name == "ipython"@ {
            call == (CallView::Exec {
                command: match args.get("code"@) {
                    Some(JsonView::Text(code)) => code,
                    _ => Seq::empty(),
                },
            })
        } else if name == "bash"@ {
            call == (CallView::Exec {
                command: match args.get("command"@) {
                    Some(JsonView::Text(command)) => command,
                    _ => Seq::empty(),
                },
            })
        } else {
            call == (CallView::Unknown {
                name,
                input: if args is Null {
                    None
                } else {
                    Some(args)
                },
            })
        },
        _ => call == (CallView::Unknown {
            name: "tool"@,
            input: if args is Null {
                None
            } else {
                Some(args)
            },
        }),
    }
}

/// A tool call is the one that its name and its arguments give.
pub proof fn lemma_is_call(name: Option<JsonView>, args: JsonView)
    ensures
        is_call(
            name,
            args,
            tool_call(
                match name {
                    Some(JsonView::Text(name)) => name,
                    _ => "tool"@,
                },
                args,
            ),
        ),
{
    reveal_strlit("tool");
    reveal_strlit("ipython");
    reveal_strlit("bash");
    reveal_strlit("");
    assert("tool"@.len() == 4);
    assert("ipython"@.len() == 7);
    assert("bash"@.len() == 4);
    assert(""@.len() == 0);
    assert("tool"@[0] == 't');
    assert("bash"@[0] == 'b');
    assert(""@ =~= Seq::<char>::empty());
}

/// A tool that starts is shown under its name, with what it is called with; one
/// without a name is not.
pub proof fn a_tool_that_starts_is_shown(
    mapper: &mut EventMapper,
    event: Json,
    found: Vec<AgentEvent>,
)
    requires
        call_ensures(EventMapper::map, (mapper, &event), found),
        says(event@, "type"@, "tool_execution_start"@),
    ensures
        final(mapper)@ == old(mapper)@,
        match event@.get("toolCallId"@) {
            Some(JsonView::Text(id)) => found@.len() == 1 && (found@[0]@ matches EventView::ToolCall {
                id: shown,
                call,
            } && shown == id && is_call(event@.get("toolName"@), event@.at("args"@), call)),
            _ => found@.len() == 0,
        },
{
    lemma_kinds();
    lemma_is_call(event@.get("toolName"@), event@.at("args"@));
    assert(events(found@).len() == found@.len());
    if found@.len() > 0 {
        assert(events(found@)[0] == found@[0]@);
    }
}

/// The text that a tool's result shows: the result itself, or its output, or its
/// text blocks by lines, cut where it is too long; none where it is empty.
pub open spec fn is_output(result: JsonView, output: Option<Seq<char>>) -> bool {
    match (result, result.get("output"@)) {
        (JsonView::Text(text), _) => if text.len() > 0 {
            output is Some && is_cut(text, output->0)
        } else {
            output is None
        },
        (_, Some(JsonView::Text(text))) => if text.len() > 0 {
            output is Some && is_cut(text, output->0)
        } else {
            output is None
        },
        (JsonView::Array(blocks), _) => if texts_in(blocks).len() > 0 {
            output is Some && is_cut(on_lines(texts_in(blocks)), output->0)
        } else {
            output is None
        },
        _ => match result.get("content"@) {
            Some(JsonView::Array(blocks)) => if texts_in(blocks).len() > 0 {
                output is Some && is_cut(on_lines(texts_in(blocks)), output->0)
            } else {
                output is None
            },
            _ => output is None,
        },
    }
}

/// The output of a result is the text that it shows.
pub proof fn lemma_is_output(result: JsonView)
    ensures
        is_output(result, output_text(result)),
{
    match result {
        JsonView::Text(text) => {
            lemma_capped(text);
        },
        JsonView::Array(blocks) => {
            lemma_joined_text(blocks);
            lemma_capped(on_lines(texts_in(blocks)));
        },
        _ => {
            match result.get("output"@) {
                Some(JsonView::Text(text)) => {
                    lemma_capped(text);
                },
                _ => {},
            }
            match result.get("content"@) {
                Some(JsonView::Array(blocks)) => {
                    lemma_joined_text(blocks);
                    lemma_capped(on_lines(texts_in(blocks)));
                },
                _ => {},
            }
        },
    }
}

/// A tool that ends is shown first with its result: under its name, as an error
/// if and only if it is marked as one, and with the text of the result.
pub proof fn a_tool_that_ends_shows_its_result(
    mapper: &mut EventMapper,
    event: Json,
    found: Vec<AgentEvent>,
)
    requires
        call_ensures(EventMapper::map, (mapper, &event), found),
        says(event@, "type"@, "tool_execution_end"@),
    ensures
        final(mapper)@ == old(mapper)@,
        match event@.get("toolCallId"@) {
            Some(JsonView::Text(id)) => found@.len() > 0 && (found@[0]@ matches EventView::ToolResult {
                id: shown,
                is_error,
                output,
                diff,
            } && shown == id && (is_error <==> event@.get("isError"@) == Some(JsonView::Bool(true)))
                && is_output(event@.at("result"@), output) && diff is None),
            _ => found@.len() == 0,
        },
{
    lemma_kinds();
    lemma_is_output(event@.at("result"@));
    assert(events(found@).len() == found@.len());
    if found@.len() > 0 {
        assert(events(found@)[0] == found@[0]@);
    }
}

/// A shell run that starts is shown with its command, under a name of its own,
/// and is under way with no output yet.
pub proof fn a_shell_run_starts(mapper: &mut EventMapper, event: Json, found: Vec<AgentEvent>)
    requires
        call_ensures(EventMapper::map, (mapper, &event), found),
        says(event@, "type"@, "bash_start"@),
    ensures
        final(mapper)@.active_bash is Some,
        events(found@) == seq![
            EventView::ToolCall {
                id: final(mapper)@.active_bash->0.id,
                call: CallView::Exec {
                    command: match event@.get("command"@) {
                        Some(JsonView::Text(command)) => command,
                        _ => Seq::empty(),
                    },
                },
            },
        ],
        final(mapper)@.active_bash->0.id == "prime-bash-"@ + (match event@.get("runId"@) {
            Some(JsonView::Text(id)) => id,
            _ => decimal(final(mapper)@.next_bash_id as nat),
        }),
        final(mapper)@.next_bash_id == following(old(mapper)@.next_bash_id),
        final(mapper)@.active_bash->0.output.len() == 0,
        !final(mapper)@.active_bash->0.truncated,
        final(mapper)@.failure == old(mapper)@.failure,
{
    lemma_kinds();
    reveal_strlit("");
    assert(""@ =~= Seq::<char>::empty());
}

/// What a shell run puts out is added to its output, whole where there is room
/// for it below the limit of 16 KiB; else as much of its start as there is room
/// for, and the run is marked as cut.
pub proof fn the_output_of_a_shell_run_is_collected(
    mapper: &mut EventMapper,
    event: Json,
    found: Vec<AgentEvent>,
    chunk: Seq<char>,
)
    requires
        call_ensures(EventMapper::map, (mapper, &event), found),
        says(event@, "type"@, "bash_output"@),
        says(event@, "chunk"@, chunk),
        old(mapper)@.active_bash is Some,
        encode_utf8(old(mapper)@.active_bash->0.output).len() <= 16384,
    ensures
        found@.len() == 0,
        final(mapper)@.active_bash is Some,
        final(mapper)@.active_bash->0.id == old(mapper)@.active_bash->0.id,
        final(mapper)@.failure == old(mapper)@.failure,
        final(mapper)@.next_bash_id == old(mapper)@.next_bash_id,
        encode_utf8(old(mapper)@.active_bash->0.output + chunk).len() <= 16384 ==> {
            &&& final(mapper)@.active_bash->0.output == old(mapper)@.active_bash->0.output + chunk
            &&& final(mapper)@.active_bash->0.truncated == old(mapper)@.active_bash->0.truncated
        },
        encode_utf8(old(mapper)@.active_bash->0.output + chunk).len() > 16384 ==> {
            &&& final(mapper)@.active_bash->0.truncated
            &&& old(mapper)@.active_bash->0.output.is_prefix_of(
                final(mapper)@.active_bash->0.output,
            )
            &&& final(mapper)@.active_bash->0.output.is_prefix_of(
                old(mapper)@.active_bash->0.output + chunk,
            )
            &&& encode_utf8(final(mapper)@.active_bash->0.output).len() <= 16384
            &&& final(mapper)@.active_bash->0.output.len() < (old(mapper)@.active_bash->0.output
                + chunk).len()
            &&& encode_utf8(
                (old(mapper)@.active_bash->0.output + chunk).take(
                    final(mapper)@.active_bash->0.output.len() as int + 1,
                ),
            ).len() > 16384
        },
{
    lemma_kinds();
    let run = old(mapper)@.active_bash->0;
    let room = (16384 - byte_len(run.output)) as nat;
    lemma_encode_concat(run.output, chunk);
    lemma_fit(chunk, room);
    let n = fit(chunk, room) as int;
    lemma_encode_concat(run.output, chunk.take(n));
    assert(events(found@).len() == found@.len());
    if n < chunk.len() {
        lemma_encode_concat(run.output, chunk.take(n + 1));
        assert((run.output + chunk).take(run.output.len() + n + 1) =~= run.output + chunk.take(
            n + 1,
        ));
    } else {
        assert(chunk.take(n) =~= chunk);
    }
}

/// A shell run that ends is shown with its output, under the name that it
/// started with; with the note of a cut where it was cut, or says that it was.
/// A run without output shows its error. It failed if and only if it was
/// cancelled, left with a code other than 0, or has an error. Then none is under
/// way.
pub proof fn a_shell_run_ends(mapper: &mut EventMapper, event: Json, found: Vec<AgentEvent>)
    requires
        call_ensures(EventMapper::map, (mapper, &event), found),
        says(event@, "type"@, "bash_end"@),
        old(mapper)@.active_bash is Some,
    ensures
        final(mapper)@.active_bash is None,
        final(mapper)@.failure == old(mapper)@.failure,
        found@.len() == 1,
        found@[0]@ matches EventView::ToolResult { id, is_error, output, diff } && id
            == old(mapper)@.active_bash->0.id && diff is None && (is_error <==> event@.get(
            "cancelled"@,
        ) == Some(JsonView::Bool(true)) || (event@.get("errorMessage"@) matches Some(JsonView::Text(_))) || (match event@.get(
            "exitCode"@,
        ) {
            Some(JsonView::Number(NumberView::Unsigned(code))) => 0 < code <= i64::MAX,
            Some(JsonView::Number(NumberView::Negative(code))) => code != 0,
            _ => false,
        })) && ({
            let text = old(mapper)@.active_bash->0.output;
            let cut = old(mapper)@.active_bash->0.truncated || event@.get("truncated"@) == Some(
                JsonView::Bool(true),
            );
            if text.len() == 0 {
                match event@.get("errorMessage"@) {
                    Some(JsonView::Text(error)) => output is Some && is_cut(error, output->0),
                    _ => output is None,
                }
            } else if cut {
                output == Some(text + "\n… [truncated]"@)
            } else {
                output == Some(text)
            }
        }),
{
    lemma_kinds();
    match event@.get("errorMessage"@) {
        Some(JsonView::Text(error)) => {
            lemma_capped(error);
        },
        _ => {},
    }
    assert(events(found@).len() == found@.len());
    assert(events(found@)[0] == found@[0]@);
}

/// A failed extension is told, with its path and its error.
pub proof fn a_failed_extension_is_told(
    mapper: &mut EventMapper,
    event: Json,
    found: Vec<AgentEvent>,
)
    requires
        call_ensures(EventMapper::map, (mapper, &event), found),
        says(event@, "type"@, "extension_error"@),
    ensures
        final(mapper)@ == old(mapper)@,
        found@.len() == 1,
        found@[0]@ matches EventView::Error { message } && is_cut(
            "Prime extension "@ + (match event@.get("extensionPath"@) {
                Some(JsonView::Text(path)) => path,
                _ => "extension"@,
            }) + ": "@ + (match event@.get("error"@) {
                Some(JsonView::Text(error)) => error,
                _ => "Unknown extension error"@,
            }),
            message,
        ),
{
    lemma_kinds();
    lemma_capped(
        "Prime extension "@ + (match event@.get("extensionPath"@) {
            Some(JsonView::Text(path)) => path,
            _ => "extension"@,
        }) + ": "@ + (match event@.get("error"@) {
            Some(JsonView::Text(error)) => error,
            _ => "Unknown extension error"@,
        }),
    );
    assert(events(found@).len() == found@.len());
    assert(events(found@)[0] == found@[0]@);
}

/// An event of any other kind shows nothing and changes nothing; nor does the
/// output or the end of a shell run where none is under way.
pub proof fn other_events_show_nothing(
    mapper: &mut EventMapper,
    event: Json,
    found: Vec<AgentEvent>,
)
    requires
        call_ensures(EventMapper::map, (mapper, &event), found),
        !says(event@, "type"@, "extension_error"@),
        !says(event@, "type"@, "message_start"@),
        !says(event@, "type"@, "message_update"@),
        !says(event@, "type"@, "message_end"@),
        !says(event@, "type"@, "tool_execution_start"@),
        !says(event@, "type"@, "tool_execution_end"@),
        !says(event@, "type"@, "bash_start"@),
        old(mapper)@.active_bash is Some ==> !says(event@, "type"@, "bash_output"@) && !says(
            event@,
            "type"@,
            "bash_end"@,
        ),
    ensures
        final(mapper)@ == old(mapper)@,
        found@.len() == 0,
{
    assert(events(found@).len() == found@.len());
}

proof fn lemma_replayed_step(messages: Seq<JsonView>, message: JsonView)
    ensures
        replayed(messages.push(message)) == replayed(messages) + replayed_message(message),
{
    let all = messages.push(message).map_values(|m: JsonView| replayed_message(m));
    assert(all.drop_last() =~= messages.map_values(|m: JsonView| replayed_message(m)));
}

/// Stored messages are replayed one after the other, each whole.
pub proof fn messages_are_replayed_in_order(
    first: Vec<Json>,
    second: Vec<Json>,
    both: Vec<Json>,
    a: Vec<AgentEvent>,
    b: Vec<AgentEvent>,
    all: Vec<AgentEvent>,
)
    requires
        call_ensures(replay_messages, (&first,), a),
        call_ensures(replay_messages, (&second,), b),
        call_ensures(replay_messages, (&both,), all),
        both@ == first@ + second@,
    ensures
        events(all@) == events(a@) + events(b@),
{
    let x = jsons(first@).map_values(|m: JsonView| replayed_message(m));
    let y = jsons(second@).map_values(|m: JsonView| replayed_message(m));
    assert(jsons(both@).map_values(|m: JsonView| replayed_message(m)) =~= x + y);
    lemma_joined_concat(x, y);
}

/// One message is replayed as that message.
pub proof fn lemma_one_replayed(messages: Seq<Json>)
    requires
        messages.len() == 1,
    ensures
        replayed(jsons(messages)) == replayed_message(messages[0]@),
{
    assert(jsons(messages) =~= Seq::<JsonView>::empty().push(messages[0]@));
    lemma_replayed_step(Seq::empty(), messages[0]@);
    assert(replayed(Seq::<JsonView>::empty()) =~= Seq::<EventView>::empty());
    assert(Seq::<EventView>::empty() + replayed_message(messages[0]@) =~= replayed_message(
        messages[0]@,
    ));
}

/// A stored message of the user's is shown with its text.
pub proof fn a_stored_message_of_the_user_is_shown(messages: Vec<Json>, found: Vec<AgentEvent>)
    requires
        call_ensures(replay_messages, (&messages,), found),
        messages@.len() == 1,
        says(messages@[0]@, "role"@, "user"@),
    ensures
        match messages@[0]@.get("content"@) {
            Some(JsonView::Text(text)) => if text.len() > 0 {
                events(found@) == seq![EventView::UserMessage { text }]
            } else {
                found@.len() == 0
            },
            Some(JsonView::Array(blocks)) => if texts_in(blocks).len() > 0 {
                events(found@) == seq![EventView::UserMessage { text: on_lines(texts_in(blocks)) }]
            } else {
                found@.len() == 0
            },
            _ => found@.len() == 0,
        },
{
    lemma_one_replayed(messages@);
    match messages@[0]@.get("content"@) {
        Some(JsonView::Array(blocks)) => {
            lemma_joined_text(blocks);
        },
        _ => {},
    }
    assert(events(found@).len() == found@.len());
}

/// What a block of a stored message of the assistant shows: what was said, what
/// was thought, or a tool call, each whole.
pub open spec fn shows_block(block: JsonView, event: Option<EventView>) -> bool {
    match block.get("type"@) {
        Some(JsonView::Text(kind)) => if kind == "text"@ {
            match block.get("text"@) {
                Some(JsonView::Text(text)) => if text.len() > 0 {
                    event == Some(EventView::TextDelta { text })
                } else {
                    event is None
                },
                _ => event is None,
            }
        } else if kind == "thinking"@ {
            match block.get("thinking"@) {
                Some(JsonView::Text(text)) => if text.len() > 0 {
                    event == Some(EventView::ReasoningDelta { text })
                } else {
                    event is None
                },
                _ => event is None,
            }
        } else if kind == "toolCall"@ {
            match block.get("id"@) {
                Some(JsonView::Text(id)) => event matches Some(EventView::ToolCall { id: shown, call })
                    && shown == id && is_call(block.get("name"@), block.at("arguments"@), call),
                _ => event is None,
            }
        } else {
            event is None
        },
        _ => event is None,
    }
}

/// A stored message of the assistant shows its blocks in order: one block more
/// adds what it shows, and nothing else.
pub proof fn the_blocks_of_a_stored_answer_are_shown_in_order(
    before: JsonView,
    after: JsonView,
    blocks: Seq<JsonView>,
    block: JsonView,
)
    requires
        says(before, "role"@, "assistant"@),
        says(after, "role"@, "assistant"@),
        before.get("content"@) == Some(JsonView::Array(blocks)),
        after.get("content"@) == Some(JsonView::Array(blocks.push(block))),
    ensures
        blocks.len() == 0 ==> replayed_message(before) == Seq::<EventView>::empty(),
        exists|event: Option<EventView>| #[trigger]
            shows_block(block, event) && replayed_message(after) == match event {
                Some(event) => replayed_message(before).push(event),
                None => replayed_message(before),
            },
{
    reveal_strlit("assistant");
    reveal_strlit("user");
    reveal_strlit("text");
    reveal_strlit("thinking");
    reveal_strlit("toolCall");
    assert("assistant"@.len() == 9);
    assert("user"@.len() == 4);
    assert("text"@.len() == 4);
    assert("thinking"@.len() == 8);
    assert("toolCall"@.len() == 8);
    assert("user"@[0] == 'u');
    assert("text"@[0] == 't');
    assert("thinking"@[1] == 'h');
    assert("toolCall"@[1] == 'o');
    lemma_is_call(block.get("name"@), block.at("arguments"@));
    let event = replayed_block(block);
    assert(shows_block(block, event));
    let all = blocks.push(block).map_values(|b: JsonView| replayed_block(b));
    assert(all.drop_last() =~= blocks.map_values(|b: JsonView| replayed_block(b)));
}

/// A stored tool result shows first the result: under its name, as an error if
/// and only if it is marked as one, and with the text of its content.
pub proof fn a_stored_tool_result_shows_its_result(messages: Vec<Json>, found: Vec<AgentEvent>)
    requires
        call_ensures(replay_messages, (&messages,), found),
        messages@.len() == 1,
        says(messages@[0]@, "role"@, "toolResult"@),
    ensures
        match messages@[0]@.get("toolCallId"@) {
            Some(JsonView::Text(id)) => found@.len() > 0 && (found@[0]@ matches EventView::ToolResult {
                id: shown,
                is_error,
                output,
                diff,
            } && shown == id && (is_error <==> messages@[0]@.get("isError"@) == Some(
                JsonView::Bool(true),
            )) && is_output(messages@[0]@.at("content"@), output) && diff is None),
            _ => found@.len() == 0,
        },
{
    lemma_one_replayed(messages@);
    lemma_is_output(messages@[0]@.at("content"@));
    reveal_strlit("toolResult");
    reveal_strlit("user");
    reveal_strlit("assistant");
    assert("toolResult"@.len() == 10);
    assert("user"@.len() == 4);
    assert("assistant"@.len() == 9);
    assert(events(found@).len() == found@.len());
    if found@.len() > 0 {
        assert(events(found@)[0] == found@[0]@);
    }
}

/// A stored message of anybody else's shows nothing.
pub proof fn other_stored_messages_show_nothing(messages: Vec<Json>, found: Vec<AgentEvent>)
    requires
        call_ensures(replay_messages, (&messages,), found),
        messages@.len() == 1,
        !says(messages@[0]@, "role"@, "user"@),
        !says(messages@[0]@, "role"@, "assistant"@),
        !says(messages@[0]@, "role"@, "toolResult"@),
    ensures
        found@.len() == 0,
{
    lemma_one_replayed(messages@);
    assert(events(found@).len() == found@.len());
}

} // verus!
