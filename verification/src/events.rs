//! Prime's native events and stored messages as events of the engine.

use vstd::prelude::*;

#[allow(unused_imports)]
use crate::counter::following;
use crate::counter::next_number;
use crate::json::{text_is, text_or_else, Json, JsonView};
#[allow(unused_imports)]
use crate::json::{jsons, opt_str, opt_text, text_or};
#[allow(unused_imports)]
use crate::lists::{joined, lemma_joined_next, lemma_somes_from, lemma_somes_next, somes};
use crate::proto::{
    no_events, one_event, push_event, push_events, AgentEvent, CallView, EventView, ToolCall,
};
#[allow(unused_imports)]
use crate::proto::events;
#[allow(unused_imports)]
use crate::text::{byte_len, decimal, fitting, lemma_encode_concat, lemma_fit};
use crate::text::{decimal_text, fitting_prefix, same_text, text_len};
use crate::tool_images;
#[allow(unused_imports)]
use crate::tool_images::image_events;

verus! {

/// The most bytes of a tool's output that are kept.
pub const OUTPUT_CAP: usize = 16_384;

/// What stands in place of what was cut off.
pub open spec fn truncation_note() -> Seq<char> {
    "\n… [truncated]"@
}

/// A text cut to the cap, with a note where something was cut off.
pub open spec fn capped(text: Seq<char>) -> Seq<char> {
    if byte_len(text) <= OUTPUT_CAP {
        text
    } else {
        fitting(text, OUTPUT_CAP as nat) + truncation_note()
    }
}

/// The bytes that an output of this length leaves below the cap.
pub open spec fn room(output: Seq<char>) -> nat {
    if byte_len(output) <= OUTPUT_CAP {
        (OUTPUT_CAP - byte_len(output)) as nat
    } else {
        0
    }
}

/// An output with as much of a chunk at its end as the cap has room for.
pub open spec fn appended(output: Seq<char>, chunk: Seq<char>) -> Seq<char> {
    output + fitting(chunk, room(output))
}

/// The text of a block, where it is a text block with some text.
pub open spec fn block_text(block: JsonView) -> Option<Seq<char>> {
    if block.field("type"@) == Some("text"@) {
        match block.field("text"@) {
            Some(text) if text.len() > 0 => Some(text),
            _ => None,
        }
    } else {
        None
    }
}

/// Lines, parted by newlines.
pub open spec fn lines_text(lines: Seq<Seq<char>>) -> Seq<char>
    decreases lines.len(),
{
    if lines.len() == 0 {
        Seq::empty()
    } else if lines.len() == 1 {
        lines[0]
    } else {
        lines_text(lines.drop_last()) + "\n"@ + lines.last()
    }
}

/// The texts of the text blocks.
pub open spec fn block_texts(blocks: Seq<JsonView>) -> Seq<Seq<char>> {
    somes(blocks.map_values(|block: JsonView| block_text(block)))
}

/// The text of the text blocks, one to a line; none where there is no text.
pub open spec fn joined_text(blocks: Seq<JsonView>) -> Option<Seq<char>> {
    if block_texts(blocks).len() == 0 {
        None
    } else {
        Some(lines_text(block_texts(blocks)))
    }
}

/// The text of a message's content.
pub open spec fn content_text(content: JsonView) -> Option<Seq<char>> {
    match content {
        JsonView::Text(text) if text.len() > 0 => Some(text),
        JsonView::Array(blocks) => joined_text(blocks),
        _ => None,
    }
}

/// The whole text of a tool's result.
pub open spec fn direct_text(result: JsonView) -> Option<Seq<char>> {
    match result.as_text() {
        Some(text) => Some(text),
        None => result.field("output"@),
    }
}

/// The blocks of a tool's result.
pub open spec fn result_blocks(result: JsonView) -> Option<Seq<JsonView>> {
    match result.as_array() {
        Some(blocks) => Some(blocks),
        None => match result.get("content"@) {
            Some(content) => content.as_array(),
            None => None,
        },
    }
}

/// The text of a tool's result, cut to the cap.
pub open spec fn output_text(result: JsonView) -> Option<Seq<char>> {
    match direct_text(result) {
        Some(text) => if text.len() > 0 {
            Some(capped(text))
        } else {
            None
        },
        None => match result_blocks(result) {
            Some(blocks) => match joined_text(blocks) {
                Some(text) => Some(capped(text)),
                None => None,
            },
            None => None,
        },
    }
}

/// Where the images of a tool's result are.
pub open spec fn result_content(result: JsonView) -> JsonView {
    match result.get("content"@) {
        Some(content) => content,
        None => result,
    }
}

/// A tool's result as events: its text, then its images.
pub open spec fn result_events(id: Seq<char>, result: JsonView, is_error: bool) -> Seq<EventView> {
    seq![
        EventView::ToolResult { id, is_error, output: output_text(result), diff: None },
    ] + image_events(id, result_content(result))
}

/// A native tool call in the terms of the engine.
pub open spec fn tool_call(name: Seq<char>, args: JsonView) -> CallView {
    if name == "ipython"@ {
        CallView::Exec { command: text_or(args.field("code"@), ""@) }
    } else if name == "bash"@ {
        CallView::Exec { command: text_or(args.field("command"@), ""@) }
    } else {
        CallView::Unknown {
            name,
            input: if args == JsonView::Null {
                None
            } else {
                Some(args)
            },
        }
    }
}

/// A shell run that is under way.
pub struct BashView {
    pub id: Seq<char>,
    pub output: Seq<char>,
    pub truncated: bool,
}

/// What the mapper remembers between events.
pub struct MapperView {
    pub failure: Option<Seq<char>>,
    pub active_bash: Option<BashView>,
    pub next_bash_id: u64,
}

/// The mapper before the first event.
pub open spec fn fresh_mapper() -> MapperView {
    MapperView { failure: None, active_bash: None, next_bash_id: 0 }
}

/// A text that is there and not empty.
pub open spec fn some_text(text: Option<Seq<char>>) -> Option<Seq<char>> {
    match text {
        Some(text) if text.len() > 0 => Some(text),
        _ => None,
    }
}

/// What an error of an extension becomes.
pub open spec fn extension_error(event: JsonView) -> EventView {
    EventView::Error {
        message: capped(
            "Prime extension "@ + text_or(event.field("extensionPath"@), "extension"@) + ": "@
                + text_or(event.field("error"@), "Unknown extension error"@),
        ),
    }
}

/// What an update of the assistant's message becomes.
pub open spec fn message_delta(update: JsonView) -> Seq<EventView> {
    if update.field("type"@) == Some("text_delta"@) {
        match some_text(update.field("delta"@)) {
            Some(text) => seq![EventView::TextDelta { text }],
            None => Seq::empty(),
        }
    } else if update.field("type"@) == Some("thinking_delta"@) {
        match some_text(update.field("delta"@)) {
            Some(text) => seq![EventView::ReasoningDelta { text }],
            None => Seq::empty(),
        }
    } else {
        Seq::empty()
    }
}

/// Why the assistant's message failed, if it did.
pub open spec fn message_failure(message: JsonView) -> Option<Seq<char>> {
    if message.field("stopReason"@) == Some("error"@) {
        Some(text_or(some_text(message.field("errorMessage"@)), "Prime model request failed"@))
    } else {
        None
    }
}

/// The name of a shell run.
pub open spec fn bash_id(event: JsonView, count: u64) -> Seq<char> {
    match event.field("runId"@) {
        Some(id) => "prime-bash-"@ + id,
        None => "prime-bash-"@ + decimal(count as nat),
    }
}

/// The output of a shell run at its end.
pub open spec fn bash_result(run: BashView, event: JsonView) -> Option<Seq<char>> {
    if run.output.len() == 0 {
        match event.field("errorMessage"@) {
            Some(text) => Some(capped(text)),
            None => None,
        }
    } else if run.truncated || event.at("truncated"@).as_bool() == Some(true) {
        Some(run.output + truncation_note())
    } else {
        Some(run.output)
    }
}

/// Whether a shell run failed.
pub open spec fn bash_failed(event: JsonView) -> bool {
    ||| event.at("cancelled"@).as_bool() == Some(true)
    ||| event.at("exitCode"@).as_i64() is Some && event.at("exitCode"@).as_i64() != Some(0i64)
    ||| event.field("errorMessage"@) is Some
}

/// What a native event makes of the mapper, and the events that it becomes.
pub open spec fn mapped(state: MapperView, event: JsonView) -> (MapperView, Seq<EventView>) {
    let kind = event.field("type"@);
    let none = Seq::<EventView>::empty();
    if kind == Some("extension_error"@) {
        (state, seq![extension_error(event)])
    } else if kind == Some("message_start"@) {
        if event.at("message"@).field("role"@) == Some("user"@) {
            (
                state,
                match content_text(event.at("message"@).at("content"@)) {
                    Some(text) => seq![EventView::UserMessage { text }],
                    None => none,
                },
            )
        } else {
            (state, none)
        }
    } else if kind == Some("message_update"@) {
        (state, message_delta(event.at("assistantMessageEvent"@)))
    } else if kind == Some("message_end"@) {
        if event.at("message"@).field("role"@) == Some("assistant"@) {
            (MapperView { failure: message_failure(event.at("message"@)), ..state }, none)
        } else {
            (state, none)
        }
    } else if kind == Some("tool_execution_start"@) {
        (
            state,
            match event.field("toolCallId"@) {
                Some(id) => seq![
                    EventView::ToolCall {
                        id,
                        call: tool_call(
                            text_or(event.field("toolName"@), "tool"@),
                            event.at("args"@),
                        ),
                    },
                ],
                None => none,
            },
        )
    } else if kind == Some("tool_execution_end"@) {
        (
            state,
            match event.field("toolCallId"@) {
                Some(id) => result_events(
                    id,
                    event.at("result"@),
                    event.at("isError"@).as_bool() == Some(true),
                ),
                None => none,
            },
        )
    } else if kind == Some("bash_start"@) {
        let count = following(state.next_bash_id);
        let id = bash_id(event, count);
        (
            MapperView {
                active_bash: Some(BashView { id, output: Seq::empty(), truncated: false }),
                next_bash_id: count,
                ..state
            },
            seq![
                EventView::ToolCall {
                    id,
                    call: CallView::Exec { command: text_or(event.field("command"@), ""@) },
                },
            ],
        )
    } else if kind == Some("bash_output"@) {
        match (state.active_bash, event.field("chunk"@)) {
            (Some(run), Some(chunk)) => (
                MapperView {
                    active_bash: Some(
                        BashView {
                            output: appended(run.output, chunk),
                            truncated: run.truncated || byte_len(chunk) > room(run.output),
                            ..run
                        },
                    ),
                    ..state
                },
                none,
            ),
            _ => (state, none),
        }
    } else if kind == Some("bash_end"@) {
        match state.active_bash {
            Some(run) => (
                MapperView { active_bash: None, ..state },
                seq![
                    EventView::ToolResult {
                        id: run.id,
                        is_error: bash_failed(event),
                        output: bash_result(run, event),
                        diff: None,
                    },
                ],
            ),
            None => (state, none),
        }
    } else {
        (state, none)
    }
}

/// What a block of a stored assistant message becomes.
pub open spec fn replayed_block(block: JsonView) -> Option<EventView> {
    let kind = block.field("type"@);
    if kind == Some("text"@) {
        match some_text(block.field("text"@)) {
            Some(text) => Some(EventView::TextDelta { text }),
            None => None,
        }
    } else if kind == Some("thinking"@) {
        match some_text(block.field("thinking"@)) {
            Some(text) => Some(EventView::ReasoningDelta { text }),
            None => None,
        }
    } else if kind == Some("toolCall"@) {
        match block.field("id"@) {
            Some(id) => Some(
                EventView::ToolCall {
                    id,
                    call: tool_call(
                        text_or(block.field("name"@), "tool"@),
                        block.at("arguments"@),
                    ),
                },
            ),
            None => None,
        }
    } else {
        None
    }
}

/// What a stored message becomes.
pub open spec fn replayed_message(message: JsonView) -> Seq<EventView> {
    let role = message.field("role"@);
    let none = Seq::<EventView>::empty();
    if role == Some("user"@) {
        match content_text(message.at("content"@)) {
            Some(text) => seq![EventView::UserMessage { text }],
            None => none,
        }
    } else if role == Some("assistant"@) {
        match message.at("content"@).as_array() {
            Some(blocks) => somes(blocks.map_values(|block: JsonView| replayed_block(block))),
            None => none,
        }
    } else if role == Some("toolResult"@) {
        match message.field("toolCallId"@) {
            Some(id) => result_events(
                id,
                message.at("content"@),
                message.at("isError"@).as_bool() == Some(true),
            ),
            None => none,
        }
    } else {
        none
    }
}

/// What stored messages become, one after the other.
pub open spec fn replayed(messages: Seq<JsonView>) -> Seq<EventView> {
    joined(messages.map_values(|message: JsonView| replayed_message(message)))
}

/// Turns Prime's native events into events of the engine.
pub struct EventMapper {
    pub failure: Option<String>,
    pub active_bash: Option<BashRun>,
    pub next_bash_id: u64,
}

/// A shell run that is under way.
pub struct BashRun {
    pub id: String,
    pub output: String,
    pub truncated: bool,
}

impl View for BashRun {
    type V = BashView;

    open spec fn view(&self) -> BashView {
        BashView { id: self.id@, output: self.output@, truncated: self.truncated }
    }
}

impl View for EventMapper {
    type V = MapperView;

    open spec fn view(&self) -> MapperView {
        MapperView {
            failure: opt_text(self.failure),
            active_bash: match self.active_bash {
                Some(run) => Some(run@),
                None => None,
            },
            next_bash_id: self.next_bash_id,
        }
    }
}

/// A text cut to the cap.
pub fn cap_text(text: &str) -> (short: String)
    ensures
        short@ == capped(text@),
{
    if text_len(text) <= OUTPUT_CAP {
        return text.to_owned();
    }
    fitting_prefix(text, OUTPUT_CAP).to_owned().concat("\n… [truncated]")
}

/// Adds as much of a chunk to an output as the cap has room for.
pub fn append_bounded(output: &mut String, chunk: &str, truncated: &mut bool)
    ensures
        final(output)@ == appended(old(output)@, chunk@),
        *final(truncated) == (*old(truncated) || byte_len(chunk@) > room(old(output)@)),
{
    let taken = text_len(output.as_str());
    let remaining: usize = if taken <= OUTPUT_CAP {
        OUTPUT_CAP - taken
    } else {
        0
    };
    proof {
        lemma_fit(chunk@, remaining as nat);
    }
    if text_len(chunk) <= remaining {
        proof {
            assert(chunk@.take(chunk@.len() as int) =~= chunk@);
        }
        output.append(chunk);
    } else {
        output.append(fitting_prefix(chunk, remaining));
        *truncated = true;
    }
}

/// The text of a block, where it is a text block with some text.
fn read_block_text(block: &Json) -> (text: Option<&str>)
    ensures
        opt_str(text) == block_text(block@),
{
    if text_is(block.field("type"), "text") {
        match block.field("text") {
            Some(text) => if text.is_empty() {
                None
            } else {
                Some(text)
            },
            None => None,
        }
    } else {
        None
    }
}

/// The text of the text blocks, one to a line; none where there is no text.
pub fn join_text_blocks(blocks: &Vec<Json>) -> (text: Option<String>)
    ensures
        opt_text(text) == joined_text(jsons(blocks@)),
{
    let ghost all = jsons(blocks@).map_values(|block: JsonView| block_text(block));
    let mut text = String::new();
    let mut any = false;
    let mut i: usize = 0;
    proof {
        assert(all.take(0) =~= Seq::<Option<Seq<char>>>::empty());
    }
    while i < blocks.len()
        invariant
            i <= blocks@.len(),
            all == jsons(blocks@).map_values(|block: JsonView| block_text(block)),
            text@ == lines_text(somes(all.take(i as int))),
            any == (somes(all.take(i as int)).len() > 0),
        decreases blocks@.len() - i,
    {
        let ghost lines = somes(all.take(i as int));
        proof {
            lemma_somes_next(all, i as int);
        }
        match read_block_text(&blocks[i]) {
            Some(line) => {
                proof {
                    assert(lines.push(line@).drop_last() =~= lines);
                }
                if any {
                    text.append("\n");
                    text.append(line);
                } else {
                    text = line.to_owned();
                    any = true;
                }
            },
            None => {},
        }
        i = i + 1;
    }
    proof {
        assert(all.take(i as int) =~= all);
    }
    if any {
        Some(text)
    } else {
        None
    }
}

/// The text of a message's content.
pub fn message_text(content: &Json) -> (text: Option<String>)
    ensures
        opt_text(text) == content_text(content@),
{
    match content {
        Json::Text(text) => if text.as_str().is_empty() {
            None
        } else {
            Some(text.clone())
        },
        _ => match content.as_array() {
            Some(blocks) => join_text_blocks(blocks),
            None => None,
        },
    }
}

/// The text of a tool's result, cut to the cap.
pub fn result_text(result: &Json) -> (text: Option<String>)
    ensures
        opt_text(text) == output_text(result@),
{
    let direct = match result.as_text() {
        Some(text) => Some(text),
        None => result.field("output"),
    };
    if let Some(text) = direct {
        return if text.is_empty() {
            None
        } else {
            Some(cap_text(text))
        };
    }
    let blocks = match result.as_array() {
        Some(blocks) => Some(blocks),
        None => match result.get("content") {
            Some(content) => content.as_array(),
            None => None,
        },
    };
    match blocks {
        Some(blocks) => match join_text_blocks(blocks) {
            Some(text) => Some(cap_text(text.as_str())),
            None => None,
        },
        None => None,
    }
}

/// A tool's result as events: its text, then its images.
pub fn tool_result_events(id: &str, result: &Json, is_error: bool) -> (found: Vec<AgentEvent>)
    ensures
        events(found@) == result_events(id@, result@, is_error),
{
    let mut found = one_event(
        AgentEvent::ToolResult {
            id: id.to_owned(),
            is_error,
            output: result_text(result),
            diff: None,
        },
    );
    let content = match result.get("content") {
        Some(content) => content,
        None => result,
    };
    let images = tool_images::events(id, content);
    push_events(&mut found, images);
    found
}

/// A native tool call in the terms of the engine.
pub fn typed_tool(name: &str, args: &Json) -> (call: ToolCall)
    ensures
        call@ == tool_call(name@, args@),
{
    if same_text(name, "ipython") {
        ToolCall::Exec { command: text_or_else(args.field("code"), "").to_owned() }
    } else if same_text(name, "bash") {
        ToolCall::Exec { command: text_or_else(args.field("command"), "").to_owned() }
    } else {
        let input = if args.is_null() {
            None
        } else {
            Some(args.clone())
        };
        ToolCall::Unknown { name: name.to_owned(), input }
    }
}

/// The start of a native tool run.
fn tool_event(event: &Json, args_key: &str) -> (found: Option<(String, ToolCall)>)
    ensures
        match found {
            Some((id, call)) => event@.field("toolCallId"@) == Some(id@) && call@ == tool_call(
                text_or(event@.field("toolName"@), "tool"@),
                event@.at(args_key@),
            ),
            None => event@.field("toolCallId"@) is None,
        },
{
    match event.field("toolCallId") {
        Some(id) => {
            let name = text_or_else(event.field("toolName"), "tool");
            Some((id.to_owned(), typed_tool(name, event.at(args_key))))
        },
        None => None,
    }
}

/// A text that is there and not empty.
fn keep_text(text: Option<&str>) -> (kept: Option<&str>)
    ensures
        opt_str(kept) == some_text(opt_str(text)),
{
    match text {
        Some(text) => if text.is_empty() {
            None
        } else {
            Some(text)
        },
        None => None,
    }
}

/// An update of the assistant's message.
fn read_delta(update: &Json) -> (found: Vec<AgentEvent>)
    ensures
        events(found@) == message_delta(update@),
{
    if text_is(update.field("type"), "text_delta") {
        match keep_text(update.field("delta")) {
            Some(text) => one_event(AgentEvent::TextDelta { text: text.to_owned() }),
            None => no_events(),
        }
    } else if text_is(update.field("type"), "thinking_delta") {
        match keep_text(update.field("delta")) {
            Some(text) => one_event(AgentEvent::ReasoningDelta { text: text.to_owned() }),
            None => no_events(),
        }
    } else {
        no_events()
    }
}

impl Default for EventMapper {
    fn default() -> (mapper: Self)
        ensures
            mapper@ == fresh_mapper(),
    {
        EventMapper { failure: None, active_bash: None, next_bash_id: 0 }
    }
}

impl EventMapper {
    /// A mapper that has seen nothing.
    pub fn new() -> (mapper: Self)
        ensures
            mapper@ == fresh_mapper(),
    {
        EventMapper { failure: None, active_bash: None, next_bash_id: 0 }
    }

    /// Why the last message of the assistant failed, if it did.
    pub fn failure(&self) -> (failure: Option<&str>)
        ensures
            opt_str(failure) == self@.failure,
    {
        match &self.failure {
            Some(text) => Some(text.as_str()),
            None => None,
        }
    }

    /// Notes how a message of the assistant ended.
    fn end_message(&mut self, message: &Json)
        ensures
            final(self)@ == (MapperView { failure: message_failure(message@), ..old(self)@ }),
    {
        if text_is(message.field("stopReason"), "error") {
            let text = text_or_else(
                keep_text(message.field("errorMessage")),
                "Prime model request failed",
            );
            self.failure = Some(text.to_owned());
        } else {
            self.failure = None;
        }
    }

    /// Starts a shell run.
    fn start_bash(&mut self, event: &Json) -> (found: Vec<AgentEvent>)
        requires
            event@.field("type"@) == Some("bash_start"@),
        ensures
            (final(self)@, events(found@)) == mapped(old(self)@, event@),
    {
        self.next_bash_id = next_number(self.next_bash_id);
        let id = match event.field("runId") {
            Some(id) => "prime-bash-".to_owned().concat(id),
            None => "prime-bash-".to_owned().concat(decimal_text(self.next_bash_id).as_str()),
        };
        self.active_bash = Some(
            BashRun { id: id.clone(), output: String::new(), truncated: false },
        );
        let command = text_or_else(event.field("command"), "").to_owned();
        proof {
            lemma_kinds();
        }
        one_event(AgentEvent::ToolCall { id, call: ToolCall::Exec { command } })
    }

    /// Takes in output of the shell run.
    fn extend_bash(&mut self, event: &Json)
        requires
            event@.field("type"@) == Some("bash_output"@),
        ensures
            (final(self)@, Seq::<EventView>::empty()) == mapped(old(self)@, event@),
    {
        proof {
            lemma_kinds();
        }
        let chunk = match event.field("chunk") {
            Some(chunk) => chunk,
            None => {
                return;
            },
        };
        match self.active_bash.take() {
            Some(run) => {
                let mut output = run.output;
                let mut truncated = run.truncated;
                append_bounded(&mut output, chunk, &mut truncated);
                self.active_bash = Some(BashRun { id: run.id, output, truncated });
            },
            None => {},
        }
    }

    /// Ends the shell run.
    fn end_bash(&mut self, event: &Json) -> (found: Vec<AgentEvent>)
        requires
            event@.field("type"@) == Some("bash_end"@),
        ensures
            (final(self)@, events(found@)) == mapped(old(self)@, event@),
    {
        proof {
            lemma_kinds();
        }
        let run = match self.active_bash.take() {
            Some(run) => run,
            None => {
                return no_events();
            },
        };
        let cancelled = event.at("cancelled").as_bool() == Some(true);
        let nonzero = match event.at("exitCode").as_i64() {
            Some(code) => code != 0,
            None => false,
        };
        let is_error = cancelled || nonzero || event.field("errorMessage").is_some();
        let cut = run.truncated || event.at("truncated").as_bool() == Some(true);
        let output = if run.output.as_str().is_empty() {
            match event.field("errorMessage") {
                Some(text) => Some(cap_text(text)),
                None => None,
            }
        } else if cut {
            Some(run.output.concat("\n… [truncated]"))
        } else {
            Some(run.output)
        };
        one_event(AgentEvent::ToolResult { id: run.id, is_error, output, diff: None })
    }

    /// Turns a native event into events of the engine.
    pub fn map(&mut self, event: &Json) -> (found: Vec<AgentEvent>)
        ensures
            (final(self)@, events(found@)) == mapped(old(self)@, event@),
    {
        let kind = match event.field("type") {
            Some(kind) => kind,
            None => {
                return no_events();
            },
        };
        if same_text(kind, "extension_error") {
            let path = text_or_else(event.field("extensionPath"), "extension");
            let error = text_or_else(event.field("error"), "Unknown extension error");
            let message = "Prime extension ".to_owned().concat(path).concat(": ").concat(error);
            one_event(AgentEvent::Error { message: cap_text(message.as_str()) })
        } else if same_text(kind, "message_start") {
            if text_is(event.at("message").field("role"), "user") {
                match message_text(event.at("message").at("content")) {
                    Some(text) => one_event(AgentEvent::UserMessage { text }),
                    None => no_events(),
                }
            } else {
                no_events()
            }
        } else if same_text(kind, "message_update") {
            read_delta(event.at("assistantMessageEvent"))
        } else if same_text(kind, "message_end") {
            if text_is(event.at("message").field("role"), "assistant") {
                self.end_message(event.at("message"));
            }
            no_events()
        } else if same_text(kind, "tool_execution_start") {
            match tool_event(event, "args") {
                Some((id, call)) => one_event(AgentEvent::ToolCall { id, call }),
                None => no_events(),
            }
        } else if same_text(kind, "tool_execution_end") {
            match event.field("toolCallId") {
                Some(id) => tool_result_events(
                    id,
                    event.at("result"),
                    event.at("isError").as_bool() == Some(true),
                ),
                None => no_events(),
            }
        } else if same_text(kind, "bash_start") {
            self.start_bash(event)
        } else if same_text(kind, "bash_output") {
            self.extend_bash(event);
            no_events()
        } else if same_text(kind, "bash_end") {
            self.end_bash(event)
        } else {
            no_events()
        }
    }
}

/// The kinds of event that bear on a shell run differ from all others.
proof fn lemma_kinds()
    ensures
        "bash_start"@ != "extension_error"@,
        "bash_start"@ != "message_start"@,
        "bash_start"@ != "message_update"@,
        "bash_start"@ != "message_end"@,
        "bash_start"@ != "tool_execution_start"@,
        "bash_start"@ != "tool_execution_end"@,
        "bash_output"@ != "extension_error"@,
        "bash_output"@ != "message_start"@,
        "bash_output"@ != "message_update"@,
        "bash_output"@ != "message_end"@,
        "bash_output"@ != "tool_execution_start"@,
        "bash_output"@ != "tool_execution_end"@,
        "bash_output"@ != "bash_start"@,
        "bash_end"@ != "extension_error"@,
        "bash_end"@ != "message_start"@,
        "bash_end"@ != "message_update"@,
        "bash_end"@ != "message_end"@,
        "bash_end"@ != "tool_execution_start"@,
        "bash_end"@ != "tool_execution_end"@,
        "bash_end"@ != "bash_start"@,
        "bash_end"@ != "bash_output"@,
{
    reveal_strlit("bash_start");
    reveal_strlit("bash_output");
    reveal_strlit("bash_end");
    reveal_strlit("extension_error");
    reveal_strlit("message_start");
    reveal_strlit("message_update");
    reveal_strlit("message_end");
    reveal_strlit("tool_execution_start");
    reveal_strlit("tool_execution_end");
    assert("bash_start"@[0] == 'b' && "bash_output"@[0] == 'b' && "bash_end"@[0] == 'b');
    assert("bash_start"@.len() == 10 && "bash_output"@.len() == 11 && "bash_end"@.len() == 8);
    assert("extension_error"@[0] == 'e');
    assert("message_start"@[0] == 'm' && "message_update"@[0] == 'm' && "message_end"@[0] == 'm');
    assert("tool_execution_start"@[0] == 't' && "tool_execution_end"@[0] == 't');
}

/// A block of a stored assistant message.
fn replay_block(block: &Json) -> (event: Option<AgentEvent>)
    ensures
        match event {
            Some(event) => replayed_block(block@) == Some(event@),
            None => replayed_block(block@) is None,
        },
{
    let kind = match block.field("type") {
        Some(kind) => kind,
        None => {
            return None;
        },
    };
    if same_text(kind, "text") {
        match keep_text(block.field("text")) {
            Some(text) => Some(AgentEvent::TextDelta { text: text.to_owned() }),
            None => None,
        }
    } else if same_text(kind, "thinking") {
        match keep_text(block.field("thinking")) {
            Some(text) => Some(AgentEvent::ReasoningDelta { text: text.to_owned() }),
            None => None,
        }
    } else if same_text(kind, "toolCall") {
        match block.field("id") {
            Some(id) => Some(
                AgentEvent::ToolCall {
                    id: id.to_owned(),
                    call: typed_tool(
                        text_or_else(block.field("name"), "tool"),
                        block.at("arguments"),
                    ),
                },
            ),
            None => None,
        }
    } else {
        None
    }
}

/// The blocks of a stored assistant message.
fn replay_blocks(blocks: &Vec<Json>) -> (found: Vec<AgentEvent>)
    ensures
        events(found@) == somes(
            jsons(blocks@).map_values(|block: JsonView| replayed_block(block)),
        ),
{
    let ghost all = jsons(blocks@).map_values(|block: JsonView| replayed_block(block));
    let mut found = no_events();
    let mut i: usize = 0;
    proof {
        assert(all.take(0) =~= Seq::<Option<EventView>>::empty());
    }
    while i < blocks.len()
        invariant
            i <= blocks@.len(),
            all == jsons(blocks@).map_values(|block: JsonView| replayed_block(block)),
            events(found@) == somes(all.take(i as int)),
        decreases blocks@.len() - i,
    {
        proof {
            lemma_somes_next(all, i as int);
        }
        match replay_block(&blocks[i]) {
            Some(event) => {
                push_event(&mut found, event);
            },
            None => {},
        }
        i = i + 1;
    }
    proof {
        assert(all.take(i as int) =~= all);
    }
    found
}

/// A stored message.
fn replay_message(message: &Json) -> (found: Vec<AgentEvent>)
    ensures
        events(found@) == replayed_message(message@),
{
    let role = match message.field("role") {
        Some(role) => role,
        None => {
            return no_events();
        },
    };
    if same_text(role, "user") {
        match message_text(message.at("content")) {
            Some(text) => one_event(AgentEvent::UserMessage { text }),
            None => no_events(),
        }
    } else if same_text(role, "assistant") {
        match message.at("content").as_array() {
            Some(blocks) => replay_blocks(blocks),
            None => no_events(),
        }
    } else if same_text(role, "toolResult") {
        match message.field("toolCallId") {
            Some(id) => tool_result_events(
                id,
                message.at("content"),
                message.at("isError").as_bool() == Some(true),
            ),
            None => no_events(),
        }
    } else {
        no_events()
    }
}

/// Stored messages as events. Each completed block comes once, without the
/// increments that it was made of.
pub fn replay_messages(messages: &Vec<Json>) -> (found: Vec<AgentEvent>)
    ensures
        events(found@) == replayed(jsons(messages@)),
{
    let ghost all = jsons(messages@).map_values(|message: JsonView| replayed_message(message));
    let mut found = no_events();
    let mut i: usize = 0;
    proof {
        assert(all.take(0) =~= Seq::<Seq<EventView>>::empty());
    }
    while i < messages.len()
        invariant
            i <= messages@.len(),
            all == jsons(messages@).map_values(|message: JsonView| replayed_message(message)),
            events(found@) == joined(all.take(i as int)),
        decreases messages@.len() - i,
    {
        proof {
            lemma_joined_next(all, i as int);
        }
        let more = replay_message(&messages[i]);
        push_events(&mut found, more);
        i = i + 1;
    }
    proof {
        assert(all.take(i as int) =~= all);
    }
    found
}

/// Whether the shell run that is under way keeps to the cap.
pub open spec fn within_cap(state: MapperView) -> bool {
    match state.active_bash {
        Some(run) => byte_len(run.output) <= OUTPUT_CAP,
        None => true,
    }
}

/// Whether what an event says of a tool's output keeps to the cap, but for the
/// note of a cut.
pub open spec fn output_within_cap(event: EventView) -> bool {
    match event {
        EventView::ToolResult { output: Some(text), .. } => byte_len(text) <= OUTPUT_CAP
            + byte_len(truncation_note()),
        _ => true,
    }
}

proof fn lemma_capped(text: Seq<char>)
    ensures
        byte_len(capped(text)) <= OUTPUT_CAP + byte_len(truncation_note()),
{
    lemma_fit(text, OUTPUT_CAP as nat);
    lemma_encode_concat(fitting(text, OUTPUT_CAP as nat), truncation_note());
}

proof fn lemma_result_within_cap(id: Seq<char>, result: JsonView, is_error: bool)
    ensures
        forall|k: int|
            0 <= k < result_events(id, result, is_error).len() ==> output_within_cap(
                #[trigger] result_events(id, result, is_error)[k],
            ),
{
    let found = result_events(id, result, is_error);
    match direct_text(result) {
        Some(text) => {
            lemma_capped(text);
        },
        None => match result_blocks(result) {
            Some(blocks) => match joined_text(blocks) {
                Some(text) => {
                    lemma_capped(text);
                },
                None => {},
            },
            None => {},
        },
    }
    let images = image_events(id, result_content(result));
    assert forall|k: int| 0 <= k < found.len() implies output_within_cap(
        #[trigger] found[k],
    ) by {
        if k > 0 {
            assert(found[k] == images[k - 1]);
            tool_images::lemma_image_events_are(id, result_content(result), k - 1);
        }
    }
}

/// The output of a tool is kept to the cap, however much of it there is: the
/// mapper never holds more, and no event carries more than that and the note
/// of a cut.
pub proof fn outputs_keep_to_the_cap(state: MapperView, event: JsonView)
    requires
        within_cap(state),
    ensures
        within_cap(mapped(state, event).0),
        forall|k: int|
            0 <= k < mapped(state, event).1.len() ==> output_within_cap(
                #[trigger] mapped(state, event).1[k],
            ),
{
    let kind = event.field("type"@);
    if kind == Some("tool_execution_end"@) {
        match event.field("toolCallId"@) {
            Some(id) => {
                lemma_result_within_cap(
                    id,
                    event.at("result"@),
                    event.at("isError"@).as_bool() == Some(true),
                );
            },
            None => {},
        }
    }
    match (state.active_bash, event.field("chunk"@)) {
        (Some(run), Some(chunk)) => {
            lemma_fit(chunk, room(run.output));
            lemma_encode_concat(run.output, fitting(chunk, room(run.output)));
        },
        _ => {},
    }
    match state.active_bash {
        Some(run) => {
            lemma_encode_concat(run.output, truncation_note());
        },
        None => {},
    }
    match event.field("errorMessage"@) {
        Some(text) => {
            lemma_capped(text);
        },
        None => {},
    }
    assert(byte_len(Seq::<char>::empty()) == 0);
}

/// Text of the assistant comes from text increments alone, so that a finished
/// block does not repeat the increments that it was made of.
pub proof fn text_comes_from_increments_alone(state: MapperView, event: JsonView, k: int)
    requires
        0 <= k < mapped(state, event).1.len(),
        mapped(state, event).1[k] is TextDelta,
    ensures
        event.field("type"@) == Some("message_update"@),
        event.at("assistantMessageEvent"@).field("type"@) == Some("text_delta"@),
        mapped(state, event).1 == seq![
            EventView::TextDelta { text: event.at("assistantMessageEvent"@).field("delta"@)->0 },
        ],
{
    match event.field("toolCallId"@) {
        Some(id) => {
            let result = event.at("result"@);
            let images = image_events(id, result_content(result));
            if k > 0 && event.field("type"@) == Some("tool_execution_end"@) {
                assert(mapped(state, event).1[k] == images[k - 1]);
                tool_images::lemma_image_events_are(id, result_content(result), k - 1);
            }
        },
        None => {},
    }
}

/// A stored tool result gives the events that the live one gave.
pub proof fn replay_repeats_the_live_tool_result(
    state: MapperView,
    event: JsonView,
    message: JsonView,
)
    requires
        event.field("type"@) == Some("tool_execution_end"@),
        message.field("role"@) == Some("toolResult"@),
        message.field("toolCallId"@) == event.field("toolCallId"@),
        message.at("isError"@).as_bool() == event.at("isError"@).as_bool(),
        event.at("result"@).field("output"@) is None,
        event.at("result"@).get("content"@) == Some(message.at("content"@)),
        message.at("content"@) is Array,
    ensures
        mapped(state, event).1 == replayed_message(message),
        mapped(state, event).0 == state,
{
    reveal_strlit("tool_execution_end");
    reveal_strlit("extension_error");
    reveal_strlit("message_start");
    reveal_strlit("message_update");
    reveal_strlit("message_end");
    reveal_strlit("tool_execution_start");
    reveal_strlit("toolResult");
    reveal_strlit("user");
    reveal_strlit("assistant");
    assert("tool_execution_end"@[0] == 't');
    assert("extension_error"@[0] == 'e');
    assert("message_start"@[0] == 'm' && "message_update"@[0] == 'm' && "message_end"@[0] == 'm');
    assert("tool_execution_end"@.len() == 18 && "tool_execution_start"@.len() == 20);
    assert("toolResult"@[0] == 't' && "user"@[0] == 'u' && "assistant"@[0] == 'a');
}

/// A failure lasts until the assistant's next message ends, and a message that
/// ends well clears it.
pub proof fn the_last_message_decides_the_failure(state: MapperView, event: JsonView)
    ensures
        mapped(state, event).0.failure == (if event.field("type"@) == Some("message_end"@)
            && event.at("message"@).field("role"@) == Some("assistant"@) {
            message_failure(event.at("message"@))
        } else {
            state.failure
        }),
{
    reveal_strlit("extension_error");
    reveal_strlit("message_start");
    reveal_strlit("message_update");
    reveal_strlit("message_end");
    assert("extension_error"@[0] == 'e' && "message_end"@[0] == 'm');
    assert("message_start"@.len() == 13 && "message_update"@.len() == 14);
    assert("message_end"@.len() == 11);
}

/// Whether an event is part of a turn: neither its end nor something that
/// belongs to another session.
pub open spec fn is_in_turn(event: EventView) -> bool {
    !(event is Done) && !(event is Subagent) && !(event is SessionStarted) && !(event is Steered)
}

proof fn lemma_result_in_turn(id: Seq<char>, result: JsonView, is_error: bool)
    ensures
        forall|k: int|
            0 <= k < result_events(id, result, is_error).len() ==> is_in_turn(
                #[trigger] result_events(id, result, is_error)[k],
            ),
{
    let found = result_events(id, result, is_error);
    let images = image_events(id, result_content(result));
    assert forall|k: int| 0 <= k < found.len() implies is_in_turn(#[trigger] found[k]) by {
        if k > 0 {
            assert(found[k] == images[k - 1]);
            tool_images::lemma_image_events_are(id, result_content(result), k - 1);
        }
    }
}

/// No native event ends a turn by being mapped, be it the end of a message that
/// failed and may be tried again.
pub proof fn mapping_never_ends_a_turn(state: MapperView, event: JsonView)
    ensures
        forall|k: int|
            0 <= k < mapped(state, event).1.len() ==> is_in_turn(
                #[trigger] mapped(state, event).1[k],
            ),
{
    match event.field("toolCallId"@) {
        Some(id) => {
            lemma_result_in_turn(
                id,
                event.at("result"@),
                event.at("isError"@).as_bool() == Some(true),
            );
        },
        None => {},
    }
}

proof fn lemma_message_in_turn(message: JsonView)
    ensures
        forall|k: int|
            0 <= k < replayed_message(message).len() ==> is_in_turn(
                #[trigger] replayed_message(message)[k],
            ),
{
    match message.field("toolCallId"@) {
        Some(id) => {
            lemma_result_in_turn(
                id,
                message.at("content"@),
                message.at("isError"@).as_bool() == Some(true),
            );
        },
        None => {},
    }
    match message.at("content"@).as_array() {
        Some(blocks) => {
            let list = blocks.map_values(|block: JsonView| replayed_block(block));
            assert forall|k: int| 0 <= k < somes(list).len() implies is_in_turn(
                #[trigger] somes(list)[k],
            ) by {
                lemma_somes_from(list, k);
            }
        },
        None => {},
    }
}

/// No stored message ends a turn by being replayed.
pub proof fn replaying_never_ends_a_turn(messages: Seq<JsonView>)
    ensures
        forall|k: int|
            0 <= k < replayed(messages).len() ==> is_in_turn(#[trigger] replayed(messages)[k]),
    decreases messages.len(),
{
    let lists = messages.map_values(|message: JsonView| replayed_message(message));
    if messages.len() > 0 {
        let before = messages.drop_last();
        replaying_never_ends_a_turn(before);
        lemma_message_in_turn(messages.last());
        assert(lists.drop_last() =~= before.map_values(
            |message: JsonView| replayed_message(message),
        ));
        assert(replayed(messages) == replayed(before) + replayed_message(messages.last()));
    }
}

} // verus!
