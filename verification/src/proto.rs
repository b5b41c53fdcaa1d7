//! What the driver tells the engine, and what the engine asks of the driver.

use vstd::prelude::*;

use crate::json::{Json, JsonView};
#[allow(unused_imports)]
use crate::json::{opt_text, texts};

verus! {

/// The agents that a session can belong to.
#[derive(Debug, Clone, Copy, PartialEq, Eq, Structural)]
pub enum HarnessId {
    Prime,
}

/// How a turn ended.
#[derive(Debug, Clone, Copy, PartialEq, Eq, Structural)]
pub enum DoneStatus {
    Completed,
    Errored,
    Interrupted,
}

/// How an agent takes in a message while it works.
#[derive(Debug, Clone, Copy, PartialEq, Eq, Structural)]
pub enum SteeringMode {
    StepBoundary,
}

/// How much a model is asked to think. `Other` stands for every level that
/// Prime has no name for.
#[derive(Debug, Clone, Copy, PartialEq, Eq, Structural)]
pub enum ReasoningLevel {
    Minimal,
    Low,
    Medium,
    High,
    XHigh,
    Max,
    Other,
}

/// Why a request to an agent failed.
#[derive(Debug, PartialEq)]
pub enum HarnessError {
    NotInstalled(String),
    Protocol(String),
    Io(String),
}

/// What a [`HarnessError`] is, as a mathematical value.
pub enum ErrorView {
    NotInstalled(Seq<char>),
    Protocol(Seq<char>),
    Io(Seq<char>),
}

impl View for HarnessError {
    type V = ErrorView;

    open spec fn view(&self) -> ErrorView {
        match self {
            HarnessError::NotInstalled(text) => ErrorView::NotInstalled(text@),
            HarnessError::Protocol(text) => ErrorView::Protocol(text@),
            HarnessError::Io(text) => ErrorView::Io(text@),
        }
    }
}

/// A protocol error with the given message.
pub fn protocol_error(message: &str) -> (error: HarnessError)
    ensures
        error@ == ErrorView::Protocol(message@),
{
    HarnessError::Protocol(message.to_owned())
}

/// A tool that an agent calls.
#[derive(Debug, PartialEq)]
pub enum ToolCall {
    Exec { command: String },
    Unknown { name: String, input: Option<Json> },
}

/// What a [`ToolCall`] is, as a mathematical value.
pub enum CallView {
    Exec { command: Seq<char> },
    Unknown { name: Seq<char>, input: Option<JsonView> },
}

/// The value of an optional JSON value.
pub open spec fn opt_json(value: Option<Json>) -> Option<JsonView> {
    match value {
        Some(value) => Some(value@),
        None => None,
    }
}

impl View for ToolCall {
    type V = CallView;

    open spec fn view(&self) -> CallView {
        match self {
            ToolCall::Exec { command } => CallView::Exec { command: command@ },
            ToolCall::Unknown { name, input } => CallView::Unknown {
                name: name@,
                input: opt_json(*input),
            },
        }
    }
}

/// A command that the user can type.
#[derive(Debug, PartialEq)]
pub struct SlashCommand {
    pub name: String,
    pub description: String,
    pub input_hint: Option<String>,
}

/// What a [`SlashCommand`] is, as a mathematical value.
pub struct CommandView {
    pub name: Seq<char>,
    pub description: Seq<char>,
    pub input_hint: Option<Seq<char>>,
}

impl View for SlashCommand {
    type V = CommandView;

    open spec fn view(&self) -> CommandView {
        CommandView {
            name: self.name@,
            description: self.description@,
            input_hint: opt_text(self.input_hint),
        }
    }
}

/// The commands of a list, in order.
pub open spec fn commands(list: Seq<SlashCommand>) -> Seq<CommandView> {
    list.map_values(|command: SlashCommand| command@)
}

/// A model that the user can choose.
#[derive(Debug, PartialEq)]
pub struct Model {
    pub id: String,
    pub label: String,
    pub description: Option<String>,
    pub reasoning_levels: Vec<ReasoningLevel>,
    pub options: Vec<String>,
}

/// What a [`Model`] is, as a mathematical value.
pub struct ModelView {
    pub id: Seq<char>,
    pub label: Seq<char>,
    pub description: Option<Seq<char>>,
    pub reasoning_levels: Seq<ReasoningLevel>,
    pub options: Seq<Seq<char>>,
}

impl View for Model {
    type V = ModelView;

    open spec fn view(&self) -> ModelView {
        ModelView {
            id: self.id@,
            label: self.label@,
            description: opt_text(self.description),
            reasoning_levels: self.reasoning_levels@,
            options: texts(self.options@),
        }
    }
}

/// The models of a list, in order.
pub open spec fn models(list: Seq<Model>) -> Seq<ModelView> {
    list.map_values(|model: Model| model@)
}

/// The command that invokes a skill.
#[derive(Debug, PartialEq)]
pub struct SkillCommand {
    pub name: String,
    pub harness: HarnessId,
}

/// A skill of an agent.
#[derive(Debug, PartialEq)]
pub struct Skill {
    pub name: String,
    pub path: String,
    pub description: String,
    pub enabled: bool,
    pub command: Option<SkillCommand>,
}

/// What a [`Skill`] is, as a mathematical value.
pub struct SkillView {
    pub name: Seq<char>,
    pub path: Seq<char>,
    pub description: Seq<char>,
    pub enabled: bool,
    pub command: Option<(Seq<char>, HarnessId)>,
}

impl View for Skill {
    type V = SkillView;

    open spec fn view(&self) -> SkillView {
        SkillView {
            name: self.name@,
            path: self.path@,
            description: self.description@,
            enabled: self.enabled,
            command: match self.command {
                Some(command) => Some((command.name@, command.harness)),
                None => None,
            },
        }
    }
}

/// The skills of a list, in order.
pub open spec fn skills(list: Seq<Skill>) -> Seq<SkillView> {
    list.map_values(|skill: Skill| skill@)
}

/// A question that an extension of the agent puts to the user.
#[derive(Debug, PartialEq)]
pub struct UserInputQuestion {
    pub id: String,
    pub header: String,
    pub question: String,
    pub options: Vec<String>,
    pub multi_select: bool,
}

/// What a [`UserInputQuestion`] is, as a mathematical value.
pub struct QuestionView {
    pub id: Seq<char>,
    pub header: Seq<char>,
    pub question: Seq<char>,
    pub options: Seq<Seq<char>>,
    pub multi_select: bool,
}

impl View for UserInputQuestion {
    type V = QuestionView;

    open spec fn view(&self) -> QuestionView {
        QuestionView {
            id: self.id@,
            header: self.header@,
            question: self.question@,
            options: texts(self.options@),
            multi_select: self.multi_select,
        }
    }
}

/// The user's answer to a question.
#[derive(Debug, PartialEq)]
pub struct UserInputAnswer {
    pub question_id: String,
    pub labels: Vec<String>,
}

/// A message that the user sends while a session is open.
#[derive(Debug, PartialEq)]
pub struct SteerMessage {
    pub prompt: String,
    pub message_id: Option<String>,
}

/// What happens in a session, as the engine sees it.
#[derive(Debug, PartialEq)]
#[allow(inconsistent_fields)]
pub enum AgentEvent {
    SessionStarted {
        harness: HarnessId,
        model: String,
        tools: Vec<String>,
        cwd: String,
        session_id: String,
        assistant_message_id: String,
    },
    AvailableCommands { commands: Vec<SlashCommand> },
    ContextUsageSnapshot { tokens: Option<u64>, window: Option<u64> },
    UserMessage { text: String },
    TextDelta { text: String },
    ReasoningDelta { text: String },
    ToolCall { id: String, call: ToolCall },
    ToolResult { id: String, is_error: bool, output: Option<String>, diff: Option<String> },
    InlineImage { id: String, data: String, mime_type: String },
    Steered { assistant_message_id: Option<String>, next_assistant_message_id: Option<String> },
    Subagent { parent_tool_use_id: String, event: Box<AgentEvent> },
    PrimeEvent { event: Json },
    Error { message: String },
    Done {
        status: DoneStatus,
        result: Option<String>,
        error: Option<String>,
        session_id: Option<String>,
    },
}

/// What an [`AgentEvent`] is, as a mathematical value.
#[allow(inconsistent_fields)]
pub enum EventView {
    SessionStarted {
        harness: HarnessId,
        model: Seq<char>,
        tools: Seq<Seq<char>>,
        cwd: Seq<char>,
        session_id: Seq<char>,
        assistant_message_id: Seq<char>,
    },
    AvailableCommands { commands: Seq<CommandView> },
    ContextUsageSnapshot { tokens: Option<u64>, window: Option<u64> },
    UserMessage { text: Seq<char> },
    TextDelta { text: Seq<char> },
    ReasoningDelta { text: Seq<char> },
    ToolCall { id: Seq<char>, call: CallView },
    ToolResult {
        id: Seq<char>,
        is_error: bool,
        output: Option<Seq<char>>,
        diff: Option<Seq<char>>,
    },
    InlineImage { id: Seq<char>, data: Seq<char>, mime_type: Seq<char> },
    Steered {
        assistant_message_id: Option<Seq<char>>,
        next_assistant_message_id: Option<Seq<char>>,
    },
    Subagent { parent_tool_use_id: Seq<char>, event: Box<EventView> },
    PrimeEvent { event: JsonView },
    Error { message: Seq<char> },
    Done {
        status: DoneStatus,
        result: Option<Seq<char>>,
        error: Option<Seq<char>>,
        session_id: Option<Seq<char>>,
    },
}

impl AgentEvent {
    /// The mathematical value of an event.
    pub open spec fn model(self) -> EventView
        decreases self,
    {
        match self {
            AgentEvent::SessionStarted {
                harness,
                model,
                tools,
                cwd,
                session_id,
                assistant_message_id,
            } => EventView::SessionStarted {
                harness,
                model: model@,
                tools: texts(tools@),
                cwd: cwd@,
                session_id: session_id@,
                assistant_message_id: assistant_message_id@,
            },
            AgentEvent::AvailableCommands { commands: list } => EventView::AvailableCommands {
                commands: commands(list@),
            },
            AgentEvent::ContextUsageSnapshot { tokens, window } => EventView::ContextUsageSnapshot {
                tokens,
                window,
            },
            AgentEvent::UserMessage { text } => EventView::UserMessage { text: text@ },
            AgentEvent::TextDelta { text } => EventView::TextDelta { text: text@ },
            AgentEvent::ReasoningDelta { text } => EventView::ReasoningDelta { text: text@ },
            AgentEvent::ToolCall { id, call } => EventView::ToolCall { id: id@, call: call@ },
            AgentEvent::ToolResult { id, is_error, output, diff } => EventView::ToolResult {
                id: id@,
                is_error,
                output: opt_text(output),
                diff: opt_text(diff),
            },
            AgentEvent::InlineImage { id, data, mime_type } => EventView::InlineImage {
                id: id@,
                data: data@,
                mime_type: mime_type@,
            },
            AgentEvent::Steered {
                assistant_message_id,
                next_assistant_message_id,
            } => EventView::Steered {
                assistant_message_id: opt_text(assistant_message_id),
                next_assistant_message_id: opt_text(next_assistant_message_id),
            },
            AgentEvent::Subagent { parent_tool_use_id, event } => EventView::Subagent {
                parent_tool_use_id: parent_tool_use_id@,
                event: Box::new(event.model()),
            },
            AgentEvent::PrimeEvent { event } => EventView::PrimeEvent { event: event@ },
            AgentEvent::Error { message } => EventView::Error { message: message@ },
            AgentEvent::Done { status, result, error, session_id } => EventView::Done {
                status,
                result: opt_text(result),
                error: opt_text(error),
                session_id: opt_text(session_id),
            },
        }
    }
}

impl View for AgentEvent {
    type V = EventView;

    open spec fn view(&self) -> EventView {
        self.model()
    }
}

/// The events of a list, in order.
pub open spec fn events(list: Seq<AgentEvent>) -> Seq<EventView> {
    list.map_values(|event: AgentEvent| event@)
}

/// The events of a list without entries.
pub fn no_events() -> (list: Vec<AgentEvent>)
    ensures
        events(list@) == Seq::<EventView>::empty(),
{
    let list: Vec<AgentEvent> = Vec::new();
    proof {
        assert(events(list@) =~= Seq::<EventView>::empty());
    }
    list
}

/// The list of one event.
pub fn one_event(event: AgentEvent) -> (list: Vec<AgentEvent>)
    ensures
        events(list@) == seq![event@],
{
    let mut list: Vec<AgentEvent> = Vec::new();
    list.push(event);
    proof {
        assert(events(list@) =~= seq![event@]);
    }
    list
}

/// Adds an event at the end of a list.
pub fn push_event(list: &mut Vec<AgentEvent>, event: AgentEvent)
    ensures
        events(final(list)@) == events(old(list)@).push(event@),
{
    list.push(event);
    proof {
        assert(events(list@) =~= events(old(list)@).push(event@));
    }
}

/// Adds the events of one list at the end of another.
pub fn push_events(list: &mut Vec<AgentEvent>, more: Vec<AgentEvent>)
    ensures
        events(final(list)@) == events(old(list)@) + events(more@),
{
    let mut more = more;
    let ghost added = more@;
    list.append(&mut more);
    proof {
        assert(list@ == old(list)@ + added);
        assert(events(list@) =~= events(old(list)@) + events(added));
    }
}

/// The end of a turn.
pub open spec fn done(
    status: DoneStatus,
    error: Option<Seq<char>>,
    session_id: Option<Seq<char>>,
) -> EventView {
    EventView::Done { status, result: None, error, session_id }
}

/// The end of a turn.
pub fn done_event(status: DoneStatus, error: Option<String>, session_id: Option<String>) -> (event:
    AgentEvent)
    ensures
        event@ == done(status, opt_text(error), opt_text(session_id)),
{
    AgentEvent::Done { status, result: None, error, session_id }
}

} // verus!
