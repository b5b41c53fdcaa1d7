//! The mathematical values of things show all that is in them, as it is.

use vstd::prelude::*;

#[allow(unused_imports)]
use crate::actions::{actions, Action, ActionView};
#[allow(unused_imports)]
use crate::children::{Children, ChildState};
#[allow(unused_imports)]
use crate::client::{answer_view, Incoming, IncomingView, PrimeClient};
#[allow(unused_imports)]
use crate::daemon::{Arrival, ArrivalView, DaemonClient};
#[allow(unused_imports)]
use crate::events::{BashRun, EventMapper};
#[allow(unused_imports)]
use crate::json::{jsons, opt_str, opt_text, pairs, texts, Json, JsonView};
#[allow(unused_imports)]
use crate::proto::{
    commands, events, models, skills, AgentEvent, CallView, ErrorView, EventView, HarnessError,
    Model, Skill, SlashCommand, ToolCall, UserInputQuestion,
};
#[allow(unused_imports)]
use crate::requests::{reply_view, requests, Request, Waiting};
#[allow(unused_imports)]
use crate::rollout::RolloutImages;
#[allow(unused_imports)]
use crate::session::{PendingControl, Session};
#[allow(unused_imports)]
use crate::setup::{Plan, Setup, SetupStep, SetupStepView, Stage, StageView};

verus! {

/// Texts that may be missing are seen where they are there.
pub proof fn a_text_is_seen_where_it_is(text: String, word: &str)
    ensures
        opt_text(Some(text)) == Some(text@),
        opt_text(None) is None,
        opt_str(Some(word)) == Some(word@),
        opt_str(None) is None,
{
}

/// Lists are seen entry by entry.
pub proof fn lists_are_seen_entry_by_entry(
    words: Seq<String>,
    values: Seq<Json>,
    fields: Seq<(String, Json)>,
    told: Seq<AgentEvent>,
    steps: Seq<Action>,
    asked: Seq<Request>,
    i: int,
)
    ensures
        texts(words).len() == words.len(),
        0 <= i < words.len() ==> texts(words)[i] == words[i]@,
        jsons(values).len() == values.len(),
        0 <= i < values.len() ==> jsons(values)[i] == values[i]@,
        pairs(fields).len() == fields.len(),
        0 <= i < fields.len() ==> pairs(fields)[i] == (fields[i].0@, fields[i].1@),
        events(told).len() == told.len(),
        0 <= i < told.len() ==> events(told)[i] == told[i]@,
        actions(steps).len() == steps.len(),
        0 <= i < steps.len() ==> actions(steps)[i] == steps[i]@,
        requests(asked).len() == asked.len(),
        0 <= i < asked.len() ==> requests(asked)[i] == (asked[i].kind@, asked[i].fields@),
{
}

/// The same of what the agent offers.
pub proof fn offers_are_seen_entry_by_entry(
    offered: Seq<Model>,
    typed: Seq<SlashCommand>,
    kept: Seq<Skill>,
    i: int,
)
    ensures
        models(offered).len() == offered.len(),
        0 <= i < offered.len() ==> models(offered)[i] == offered[i]@,
        commands(typed).len() == typed.len(),
        0 <= i < typed.len() ==> commands(typed)[i] == typed[i]@,
        skills(kept).len() == kept.len(),
        0 <= i < kept.len() ==> skills(kept)[i] == kept[i]@,
{
}

/// Texts, increments and errors are seen as what they say.
pub proof fn words_are_seen_as_they_are(event: AgentEvent)
    ensures
        event matches AgentEvent::UserMessage { text } ==> event@ == (EventView::UserMessage {
            text: text@,
        }),
        event matches AgentEvent::TextDelta { text } ==> event@ == (EventView::TextDelta {
            text: text@,
        }),
        event matches AgentEvent::ReasoningDelta { text } ==> event@ == (
        EventView::ReasoningDelta { text: text@ }),
        event matches AgentEvent::Error { message } ==> event@ == (EventView::Error {
            message: message@,
        }),
        event matches AgentEvent::PrimeEvent { event: value } ==> event@ == (
        EventView::PrimeEvent { event: value@ }),
        event matches AgentEvent::InlineImage { id, data, mime_type } ==> event@ == (
        EventView::InlineImage { id: id@, data: data@, mime_type: mime_type@ }),
{
}

/// Tool calls and their results are seen as they are.
pub proof fn tools_are_seen_as_they_are(event: AgentEvent, call: ToolCall)
    ensures
        call matches ToolCall::Exec { command } ==> call@ == (CallView::Exec { command: command@ }),
        call matches ToolCall::Unknown { name, input } ==> (call@ matches CallView::Unknown {
            name: seen,
            input: held,
        } && seen == name@ && (input is None <==> held is None) && (input matches Some(input)
            ==> held == Some(input@))),
        event matches AgentEvent::ToolCall { id, call } ==> event@ == (EventView::ToolCall {
            id: id@,
            call: call@,
        }),
        event matches AgentEvent::ToolResult { id, is_error, output, diff } ==> event@ == (
        EventView::ToolResult {
            id: id@,
            is_error,
            output: opt_text(output),
            diff: opt_text(diff),
        }),
{
}

/// The start, the course and the end of a turn are seen as they are.
pub proof fn turns_are_seen_as_they_are(event: AgentEvent)
    ensures
        event matches AgentEvent::SessionStarted {
            harness,
            model,
            tools,
            cwd,
            session_id,
            assistant_message_id,
        } ==> event@ == (EventView::SessionStarted {
            harness,
            model: model@,
            tools: texts(tools@),
            cwd: cwd@,
            session_id: session_id@,
            assistant_message_id: assistant_message_id@,
        }),
        event matches AgentEvent::AvailableCommands { commands: list } ==> event@ == (
        EventView::AvailableCommands { commands: commands(list@) }),
        event matches AgentEvent::ContextUsageSnapshot { tokens, window } ==> event@ == (
        EventView::ContextUsageSnapshot { tokens, window }),
        event matches AgentEvent::Steered {
            assistant_message_id,
            next_assistant_message_id,
        } ==> event@ == (EventView::Steered {
            assistant_message_id: opt_text(assistant_message_id),
            next_assistant_message_id: opt_text(next_assistant_message_id),
        }),
        event matches AgentEvent::Subagent { parent_tool_use_id, event: inner } ==> event@ == (
        EventView::Subagent {
            parent_tool_use_id: parent_tool_use_id@,
            event: Box::new(inner@),
        }),
        event matches AgentEvent::Done { status, result, error, session_id } ==> event@ == (
        EventView::Done {
            status,
            result: opt_text(result),
            error: opt_text(error),
            session_id: opt_text(session_id),
        }),
{
}

/// What the agent offers is seen field by field.
pub proof fn offers_are_seen_as_they_are(model: Model, command: SlashCommand, skill: Skill)
    ensures
        model@.id == model.id@,
        model@.label == model.label@,
        model@.description == opt_text(model.description),
        model@.reasoning_levels == model.reasoning_levels@,
        model@.options == texts(model.options@),
        command@.name == command.name@,
        command@.description == command.description@,
        command@.input_hint == opt_text(command.input_hint),
        skill@.name == skill.name@,
        skill@.path == skill.path@,
        skill@.description == skill.description@,
        skill@.enabled == skill.enabled,
        skill.command matches Some(invoked) ==> skill@.command == Some(
            (invoked.name@, invoked.harness),
        ),
        skill.command is None ==> skill@.command is None,
{
}

/// Questions, errors and replies are seen as they are.
pub proof fn questions_and_errors_are_seen_as_they_are(
    question: UserInputQuestion,
    error: HarnessError,
    reply: Result<Json, String>,
    answer: Result<Json, HarnessError>,
)
    ensures
        question@.id == question.id@,
        question@.header == question.header@,
        question@.question == question.question@,
        question@.options == texts(question.options@),
        question@.multi_select == question.multi_select,
        error matches HarnessError::NotInstalled(text) ==> error@ == ErrorView::NotInstalled(text@),
        error matches HarnessError::Protocol(text) ==> error@ == ErrorView::Protocol(text@),
        error matches HarnessError::Io(text) ==> error@ == ErrorView::Io(text@),
        reply matches Ok(data) ==> reply_view(reply) == Ok::<JsonView, Seq<char>>(data@),
        reply matches Err(text) ==> reply_view(reply) == Err::<JsonView, Seq<char>>(text@),
        answer matches Ok(data) ==> answer_view(answer) == Ok::<JsonView, ErrorView>(data@),
        answer matches Err(error) ==> answer_view(answer) == Err::<JsonView, ErrorView>(error@),
{
}

/// What a session asks for is seen as it is.
pub proof fn actions_are_seen_as_they_are(action: Action)
    ensures
        action matches Action::Emit(event) ==> action@ == ActionView::Emit(event@),
        action matches Action::RefreshUsage { or_clear } ==> action@ == (ActionView::RefreshUsage {
            or_clear,
        }),
        action matches Action::AwaitCompletion { generation } ==> action@ == (
        ActionView::AwaitCompletion { generation }),
        action matches Action::AwaitQuiescence { generation } ==> action@ == (
        ActionView::AwaitQuiescence { generation }),
        action matches Action::CollectEnd { generation } ==> action@ == (ActionView::CollectEnd {
            generation,
        }),
        action matches Action::Prompt { text, kind } ==> action@ == (ActionView::Prompt {
            text: text@,
            kind,
        }),
        action matches Action::UpdateChild { child } ==> action@ == (ActionView::UpdateChild {
            child: child@,
        }),
        action matches Action::Ask { question, method } ==> action@ == (ActionView::Ask {
            question: question@,
            method: method@,
        }),
        action is Abort ==> action@ is Abort,
{
}

/// What arrives is seen as it is.
pub proof fn arrivals_are_seen_as_they_are(incoming: Incoming, arrival: Arrival)
    ensures
        incoming is Nothing ==> incoming@ is Nothing,
        incoming matches Incoming::Reply { id, reply } ==> incoming@ == (IncomingView::Reply {
            id: id@,
            reply: reply_view(reply),
        }),
        incoming matches Incoming::Message(value) ==> incoming@ == IncomingView::Message(value@),
        incoming matches Incoming::Failure(reason) ==> incoming@ == IncomingView::Failure(reason@),
        arrival matches Arrival::Reply { id, reply, acknowledgement } ==> arrival@ == (
        ArrivalView::Reply {
            id: id@,
            reply: reply_view(reply),
            acknowledgement: acknowledgement@,
        }),
        arrival matches Arrival::Messages(list) ==> arrival@ == ArrivalView::Messages(jsons(list@)),
        arrival matches Arrival::Failure(reason) ==> arrival@ == ArrivalView::Failure(reason@),
{
}

/// A session is seen field by field.
pub proof fn a_session_is_seen_as_it_is(session: Session, control: PendingControl, i: int)
    ensures
        session@.session_file == session.session_file@,
        session@.daemon == session.daemon,
        session@.mapper == session.mapper@,
        session@.children == session.children@,
        session@.active == session.active,
        session@.done_current == session.done_current,
        session@.generation == session.generation,
        session@.completion_pending == session.completion_pending,
        session@.transport_error == opt_text(session.transport_error),
        session@.interrupted == session.interrupted,
        session@.steering_open == session.steering_open,
        session@.steering_pending == session.steering_pending,
        session@.controls.len() == session.pending_controls@.len(),
        0 <= i < session.pending_controls@.len() ==> session@.controls[i] == (
            session.pending_controls@[i].0@,
            session.pending_controls@[i].1@,
        ),
        control@.started == control.started,
        control@.error == opt_text(control.error),
        control@.may_start_turn == control.may_start_turn,
{
}

/// The children of a session, and what is remembered of a turn, are seen field by
/// field.
pub proof fn children_are_seen_as_they_are(
    children: Children,
    child: ChildState,
    mapper: EventMapper,
    run: BashRun,
    i: int,
)
    ensures
        children@.len() == children.by_id@.len(),
        0 <= i < children.by_id@.len() ==> children@[i] == (
            children.by_id@[i].0@,
            children.by_id@[i].1@,
        ),
        child@.watch_key == child.watch_key@,
        child@.status == child.status@,
        child@.error == opt_text(child.error),
        child@.observed == child.observed,
        child@.unobserved == child.unobserved,
        child@.settled == child.settled,
        child@.terminal_since == child.terminal_since,
        child@.mapper == child.mapper@,
        mapper@.failure == opt_text(mapper.failure),
        mapper.active_bash matches Some(active) ==> mapper@.active_bash == Some(active@),
        mapper.active_bash is None ==> mapper@.active_bash is None,
        mapper@.next_bash_id == mapper.next_bash_id,
        run@.id == run.id@,
        run@.output == run.output@,
        run@.truncated == run.truncated,
{
}

/// The connections to the agent, and a rollout, are seen field by field.
pub proof fn connections_are_seen_as_they_are(
    waiting: Waiting,
    client: PrimeClient,
    daemon: DaemonClient,
    rollout: RolloutImages,
)
    ensures
        waiting@.next == waiting.next,
        waiting@.waiting == texts(waiting.waiting@),
        client@ == client.requests@,
        daemon@.client_id == daemon.client_id@,
        daemon@.version == daemon.version,
        daemon@.root == opt_text(daemon.root),
        daemon@.observed == texts(daemon.observed@),
        daemon@.requests == daemon.requests@,
        rollout@.path == rollout.path@,
        rollout@.offset == rollout.offset,
        rollout@.pending == rollout.pending@,
{
}

/// The setting up of a session is seen as it is.
pub proof fn a_setup_is_seen_as_it_is(plan: Plan, setup: Setup, step: SetupStep)
    ensures
        plan@.session_file == plan.session_file@,
        plan@.model == plan.model@,
        plan@.requests == requests(plan.requests@),
        setup@.model == opt_text(setup.model),
        setup@.level == setup.level,
        setup@.cwd == setup.cwd@,
        setup.stage is State ==> setup@.stage is State,
        setup.stage matches Stage::Change { state, plan, answered } ==> setup@.stage == (
        StageView::Change { state: state@, plan: plan@, answered: answered as nat }),
        setup.stage matches Stage::Commands { state, plan } ==> setup@.stage == (
        StageView::Commands { state: state@, plan: plan@ }),
        setup.stage matches Stage::Statistics { state, plan, commands: list } ==> setup@.stage == (
        StageView::Statistics {
            state: state@,
            plan: plan@,
            commands: match list {
                Some(list) => Some(commands(list@)),
                None => None,
            },
        }),
        step matches SetupStep::Ask { told, request, setup: next } ==> step@ == (
        SetupStepView::Ask {
            told: events(told@),
            request: (request.kind@, request.fields@),
            setup: next@,
        }),
        step matches SetupStep::Finished { told, session_file } ==> step@ == (
        SetupStepView::Finished { told: events(told@), session_file: session_file@ }),
        step matches SetupStep::Failed { error } ==> step@ == (SetupStepView::Failed {
            error: error@,
        }),
{
}

} // verus!
