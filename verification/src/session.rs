//! A session with Prime: what it makes of each thing that happens.
//!
//! The program that runs a session hands in what happened (a reply to a
//! request, a message of the agent, a word from the user), does what the
//! session asks for, and hands in what came of it.

use vstd::prelude::*;

#[allow(unused_imports)]
use crate::actions::{actions, emits, shows};
use crate::actions::{
    emit_all, no_actions, one_action, push_action, push_actions, show_all, Action, ActionView,
    CommandKind,
};
#[allow(unused_imports)]
use crate::children::{after_close, after_due, due_ends, open_ends, overheard};
use crate::children::{Children, Roster};
#[allow(unused_imports)]
use crate::counter::following;
use crate::counter::next_number;
use crate::events::{EventMapper, MapperView};
#[allow(unused_imports)]
use crate::events::{fresh_mapper, mapped};
use crate::extension_ui::{method_asks_user, read_question};
#[allow(unused_imports)]
use crate::extension_ui::{asks_user, question_of, request_method};
use crate::invocation::session_command_may_start_turn;
#[allow(unused_imports)]
use crate::invocation::{command_starts_turn, leading_view};
use crate::json::{copy_text, text_is, text_or_else, Json, JsonView};
#[allow(unused_imports)]
use crate::json::{
    empty_object, jsons, lemma_position, lemma_position_is, opt_text, position, text_or,
};
#[allow(unused_imports)]
use crate::lists::{lemma_somes_next, somes};
use crate::media::without_image_data;
#[allow(unused_imports)]
use crate::media::scrubbed;
use crate::proto::{done_event, push_event, AgentEvent, DoneStatus, EventView, SteerMessage};
#[allow(unused_imports)]
use crate::proto::{done, events};
#[allow(unused_imports)]
use crate::text::after_prefix;
use crate::text::{same_text, strip_prefix};

verus! {

/// A command of the session that was sent and has not been answered.
pub struct ControlView {
    pub started: bool,
    pub error: Option<Seq<char>>,
    pub may_start_turn: bool,
}

/// What a session knows. The commands are in the order in which they were
/// sent, each with its text.
pub struct SessionView {
    pub session_file: Seq<char>,
    pub daemon: bool,
    pub mapper: MapperView,
    pub children: Roster,
    pub active: bool,
    pub done_current: bool,
    pub generation: u64,
    pub completion_pending: bool,
    pub transport_error: Option<Seq<char>>,
    pub interrupted: bool,
    pub steering_open: bool,
    pub steering_pending: bool,
    pub controls: Seq<(Seq<char>, ControlView)>,
}

/// How a session goes on after a step, once the actions of the step are done.
#[derive(Debug, Clone, Copy, PartialEq, Eq, Structural)]
pub enum Flow {
    /// Give up the observations that are over, and wait for what comes next.
    Release,
    /// Wait for what comes next.
    Wait,
    /// Close the session.
    End,
}

/// A step of a session.
pub type StepView = (SessionView, Seq<ActionView>, Flow);

/// The session with a turn begun whose completion is waited for.
pub open spec fn awaiting(s: SessionView) -> SessionView {
    SessionView { generation: following(s.generation), completion_pending: true, ..s }
}

/// The wait for the completion of the turn that is begun next.
pub open spec fn await_next(s: SessionView) -> ActionView {
    ActionView::AwaitCompletion { generation: following(s.generation) }
}

/// The session with its turn over.
pub open spec fn turn_over(s: SessionView) -> SessionView {
    SessionView { active: false, done_current: true, ..s }
}

/// The word that a turn of the session ended.
pub open spec fn end_event(
    s: SessionView,
    status: DoneStatus,
    error: Option<Seq<char>>,
) -> ActionView {
    ActionView::Emit(done(status, error, Some(s.session_file)))
}

/// The end of a turn that failed with an error, or did not fail.
pub open spec fn end_by_error(s: SessionView, error: Option<Seq<char>>) -> ActionView {
    end_event(
        s,
        if error is Some {
            DoneStatus::Errored
        } else {
            DoneStatus::Completed
        },
        error,
    )
}

/// How a session goes on after a turn: it ends where the user can say no more.
pub open spec fn after_turn(s: SessionView) -> Flow {
    if s.steering_open {
        Flow::Release
    } else {
        Flow::End
    }
}

/// The word that a message of the user was taken in.
pub open spec fn steered() -> ActionView {
    ActionView::Emit(
        EventView::Steered { assistant_message_id: None, next_assistant_message_id: None },
    )
}

/// A notification on the life of the session.
pub open spec fn lifecycle(phase: Seq<char>) -> JsonView {
    empty_object().set("type"@, JsonView::Text("lifecycle_update"@)).set(
        "phase"@,
        JsonView::Text(phase),
    )
}

/// The notification that work goes on in the background after a turn.
pub open spec fn background(summary: JsonView) -> JsonView {
    lifecycle("background"@).set(
        "hasRunningRlmChildren"@,
        summary.at("hasRunningRlmChildren"@),
    ).set("isBashRunning"@, summary.at("isBashRunning"@)).set(
        "unfinishedActionCount"@,
        summary.at("unfinishedActionCount"@),
    )
}

/// The commands with one more at the end, where the text is a command.
pub open spec fn with_control(
    controls: Seq<(Seq<char>, ControlView)>,
    text: Seq<char>,
    command: Option<bool>,
) -> Seq<(Seq<char>, ControlView)> {
    match command {
        Some(may_start_turn) => controls.push(
            (text, ControlView { started: false, error: None, may_start_turn }),
        ),
        None => controls,
    }
}

/// The commands without the first one of the given text.
pub open spec fn without_control(
    controls: Seq<(Seq<char>, ControlView)>,
    text: Seq<char>,
) -> Seq<(Seq<char>, ControlView)> {
    let at = position(controls, text);
    if at < controls.len() {
        controls.remove(at)
    } else {
        controls
    }
}

/// A session whose first prompt is about to be sent.
pub open spec fn opened(
    session_file: Seq<char>,
    daemon: bool,
    prompt: Seq<char>,
    leading: Option<(Seq<char>, Seq<char>)>,
) -> SessionView {
    SessionView {
        session_file,
        daemon,
        mapper: fresh_mapper(),
        children: Seq::empty(),
        active: true,
        done_current: false,
        generation: 0,
        completion_pending: false,
        transport_error: None,
        interrupted: false,
        steering_open: true,
        steering_pending: false,
        controls: with_control(Seq::empty(), prompt, command_starts_turn(prompt, leading)),
    }
}

/// What the success of a request makes of a session.
pub open spec fn succeeded(s: SessionView, kind: CommandKind) -> StepView {
    match kind {
        CommandKind::Steer => {
            let t = if s.active {
                SessionView { steering_pending: false, ..s }
            } else {
                SessionView {
                    steering_pending: false,
                    active: true,
                    done_current: false,
                    ..s
                }
            };
            if s.daemon {
                (awaiting(t), seq![steered(), await_next(t)], Flow::Release)
            } else {
                (t, seq![steered()], Flow::Release)
            }
        },
        CommandKind::Goal | CommandKind::Initial => if s.daemon {
            (awaiting(s), seq![await_next(s)], Flow::Release)
        } else {
            (s, Seq::empty(), Flow::Release)
        },
        CommandKind::Completion(generation) => if generation == s.generation {
            (
                SessionView { completion_pending: false, ..s },
                seq![ActionView::CollectEnd { generation }],
                Flow::Wait,
            )
        } else {
            (s, Seq::empty(), Flow::Release)
        },
        CommandKind::Quiescence(generation) => if generation == s.generation {
            (
                s,
                seq![
                    ActionView::Emit(EventView::PrimeEvent { event: lifecycle("quiescent"@) }),
                ],
                Flow::Release,
            )
        } else {
            (s, Seq::empty(), Flow::Release)
        },
    }
}

/// What the failure of a request makes of a session. The command is what the
/// text of the request is as a command of the session.
pub open spec fn failed(
    s: SessionView,
    kind: CommandKind,
    text: Seq<char>,
    command: Option<bool>,
    error: Seq<char>,
) -> StepView {
    let end = end_event(s, DoneStatus::Errored, Some(error));
    match kind {
        CommandKind::Quiescence(generation) => if generation == s.generation {
            (s, seq![ActionView::Emit(EventView::Error { message: error })], Flow::Release)
        } else {
            (s, Seq::empty(), Flow::Release)
        },
        CommandKind::Completion(generation) => if generation == s.generation {
            (
                SessionView { completion_pending: false, ..turn_over(s) },
                seq![end],
                after_turn(s),
            )
        } else {
            (s, Seq::empty(), Flow::Release)
        },
        CommandKind::Goal => (
            s,
            seq![ActionView::Emit(EventView::Error { message: error })],
            Flow::Release,
        ),
        CommandKind::Steer => if command is Some {
            (
                SessionView { controls: without_control(s.controls, text), ..turn_over(s) },
                seq![steered(), end],
                Flow::Release,
            )
        } else {
            (SessionView { done_current: true, ..s }, seq![end], Flow::End)
        },
        CommandKind::Initial => (SessionView { done_current: true, ..s }, seq![end], Flow::End),
    }
}

/// What the end of a turn makes of a session, once it is known how the turn
/// ended and what goes on in the background.
pub open spec fn completed(
    s: SessionView,
    generation: u64,
    end: (DoneStatus, Option<Seq<char>>),
    summary: Option<JsonView>,
) -> StepView {
    let t = SessionView { mapper: fresh_mapper(), ..turn_over(s) };
    let told = seq![end_event(s, end.0, end.1)] + match summary {
        Some(summary) => if summary.at("isSessionActive"@) == JsonView::Bool(true) {
            seq![ActionView::Emit(EventView::PrimeEvent { event: background(summary) })]
        } else {
            Seq::empty()
        },
        None => Seq::empty(),
    };
    if s.steering_open {
        (t, told.push(ActionView::AwaitQuiescence { generation }), Flow::Release)
    } else {
        (t, told, Flow::End)
    }
}

/// What is done with every message of the agent before it is read: it is
/// handed on without its media, and it may call for new statistics.
pub open spec fn preamble(message: JsonView) -> Seq<ActionView> {
    let kind = message.field("type"@);
    let copy = if kind == Some("_transport_closed"@) {
        Seq::empty()
    } else {
        seq![ActionView::Emit(EventView::PrimeEvent { event: scrubbed(message) })]
    };
    if kind == Some("compaction_end"@) && message.at("result"@) is Object {
        copy.push(ActionView::RefreshUsage { or_clear: true })
    } else if kind == Some("message_end"@) && message.at("message"@).at("role"@).is_text(
        "assistant"@,
    ) {
        copy.push(ActionView::RefreshUsage { or_clear: false })
    } else {
        copy
    }
}

/// The text of a message, shown to the user where it is one.
pub open spec fn shown_text(content: JsonView) -> Seq<ActionView> {
    match content.as_text() {
        Some(text) => seq![ActionView::Emit(EventView::TextDelta { text })],
        None => Seq::empty(),
    }
}

/// What the result of a command makes of a session.
pub open spec fn answered(s: SessionView, result: JsonView) -> StepView {
    let details = result.at("details"@);
    match details.at("command"@).at("text"@).as_text() {
        Some(text) => {
            let at = position(s.controls, text);
            if at < s.controls.len() {
                if details.at("success"@) == JsonView::Bool(false) {
                    let control = ControlView {
                        error: Some(
                            text_or(details.at("error"@).as_text(), "Prime command failed"@),
                        ),
                        ..s.controls[at].1
                    };
                    (
                        SessionView { controls: s.controls.update(at, (text, control)), ..s },
                        Seq::empty(),
                        Flow::Release,
                    )
                } else if result.at("display"@) == JsonView::Bool(true) {
                    (s, shown_text(result.at("content"@)), Flow::Release)
                } else {
                    (s, Seq::empty(), Flow::Release)
                }
            } else {
                (s, Seq::empty(), Flow::Release)
            }
        },
        None => (s, Seq::empty(), Flow::Release),
    }
}

/// Whether a command to work on one's own was sent.
pub open spec fn has_autonomous(controls: Seq<(Seq<char>, ControlView)>) -> bool {
    exists|i: int|
        0 <= i < controls.len() && after_prefix(
            (#[trigger] controls[i]).0,
            "/autonomous"@,
        ) is Some
}

/// Whether a command has led to a turn of the agent that is yet to end.
pub open spec fn leads_on(control: ControlView, news: JsonView) -> bool {
    control.may_start_turn && control.error is None && (news.at("active"@).at("kind"@).is_text(
        "turn"@,
    ) || match news.at("queuedCount"@).as_u64() {
        Some(count) => count > 0,
        None => false,
    })
}

/// What news of the actions under way makes of a session. The first command
/// starts when it is under way, and is over when it is under way no more.
pub open spec fn acted(s: SessionView, news: JsonView) -> StepView {
    if s.controls.len() == 0 {
        (s, Seq::empty(), Flow::Release)
    } else {
        let (text, control) = s.controls[0];
        if news.at("active"@).at("label"@).is_text(text) {
            let next = ControlView { started: true, ..control };
            (
                SessionView { controls: s.controls.update(0, (text, next)), ..s },
                Seq::empty(),
                Flow::Release,
            )
        } else if control.started {
            let t = SessionView { controls: s.controls.remove(0), ..s };
            if leads_on(control, news) || s.daemon {
                (t, Seq::empty(), Flow::Release)
            } else {
                (turn_over(t), seq![end_by_error(s, control.error)], after_turn(s))
            }
        } else {
            (s, Seq::empty(), Flow::Release)
        }
    }
}

/// The snapshot of a child, taken in where the child is at work.
pub open spec fn at_work(child: JsonView) -> Option<ActionView> {
    if child.at("status"@).is_text("queued"@) || child.at("status"@).is_text("running"@) {
        Some(ActionView::UpdateChild { child })
    } else {
        None
    }
}

/// The snapshots in a list that are taken in.
pub open spec fn updates(children: JsonView) -> Seq<ActionView> {
    match children.as_array() {
        Some(list) => somes(list.map_values(|child: JsonView| at_work(child))),
        None => Seq::empty(),
    }
}

/// The start of a turn of the agent.
pub open spec fn agent_started(s: SessionView) -> StepView {
    let t = SessionView { active: true, done_current: false, ..s };
    if s.daemon && s.done_current && !s.completion_pending {
        (awaiting(t), seq![await_next(s)], Flow::Release)
    } else {
        (t, Seq::empty(), Flow::Release)
    }
}

/// The end of a turn of the agent. A daemon says by itself when the turn is
/// complete: there an end may be followed by another try.
pub open spec fn agent_ended(s: SessionView) -> StepView {
    if s.daemon {
        (s, Seq::empty(), Flow::Wait)
    } else {
        (
            SessionView { mapper: fresh_mapper(), ..turn_over(s) },
            seq![end_by_error(s, s.mapper.failure)],
            after_turn(s),
        )
    }
}

/// What a request of an extension makes of a session.
pub open spec fn requested(s: SessionView, message: JsonView) -> StepView {
    match message.field("id"@) {
        Some(id) => if asks_user(request_method(message)) {
            (
                s,
                seq![
                    ActionView::Ask {
                        question: question_of(message, id),
                        method: request_method(message),
                    },
                ],
                Flow::Release,
            )
        } else {
            (s, Seq::empty(), Flow::Release)
        },
        None => (s, Seq::empty(), Flow::Wait),
    }
}

/// Whether a message holds a finished message of a kind of its own.
pub open spec fn is_custom(message: JsonView, kind: Seq<char>) -> bool {
    message.field("type"@) == Some("message_end"@) && message.at("message"@).at(
        "customType"@,
    ).is_text(kind)
}

/// What a message of the agent makes of a session, after its preamble.
pub open spec fn read(s: SessionView, message: JsonView) -> StepView {
    let kind = message.field("type"@);
    if kind == Some("_transport_closed"@) {
        (
            SessionView { transport_error: message.at("error"@).as_text(), ..s },
            seq![ActionView::Emit(EventView::PrimeEvent { event: lifecycle("disconnected"@) })],
            Flow::End,
        )
    } else if kind == Some("agent_start"@) {
        agent_started(s)
    } else if kind == Some("agent_end"@) {
        agent_ended(s)
    } else if is_custom(message, "session_slash_command_result"@) {
        answered(s, message.at("message"@))
    } else if is_custom(message, "autonomous_status"@) {
        (
            s,
            if has_autonomous(s.controls) {
                shown_text(message.at("message"@).at("content"@))
            } else {
                Seq::empty()
            },
            Flow::Release,
        )
    } else if kind == Some("session_action_update"@) {
        acted(s, message.at("actions"@))
    } else if kind == Some("rlm_child_update"@) {
        (s, seq![ActionView::UpdateChild { child: message.at("child"@) }], Flow::Release)
    } else if kind == Some("session_attached"@) || kind == Some("session_resynced"@) || kind
        == Some("session_replaced"@) {
        (s, updates(message.at("snapshot"@).at("children"@)), Flow::Release)
    } else if kind == Some("observed_session_event"@) || kind == Some(
        "observed_session_closed"@,
    ) {
        let (children, found) = overheard(s.children, message);
        (SessionView { children, ..s }, emits(found), Flow::Release)
    } else if kind == Some("extension_ui_request"@) {
        requested(s, message)
    } else {
        let (mapper, found) = mapped(s.mapper, message);
        (SessionView { mapper, ..s }, shows(found), Flow::Release)
    }
}

/// What a message of the agent makes of a session.
pub open spec fn received(s: SessionView, message: JsonView) -> StepView {
    let (next, list, flow) = read(s, message);
    (next, preamble(message) + list, flow)
}

/// What a message of the user makes of a session. One without a name of its own
/// is a command on the goal.
pub open spec fn told(
    s: SessionView,
    prompt: Seq<char>,
    named: bool,
    leading: Option<(Seq<char>, Seq<char>)>,
) -> StepView {
    if named {
        (
            SessionView {
                steering_pending: true,
                controls: with_control(s.controls, prompt, command_starts_turn(prompt, leading)),
                ..s
            },
            seq![ActionView::Prompt { text: prompt, kind: CommandKind::Steer }],
            Flow::Release,
        )
    } else {
        (s, seq![ActionView::Prompt { text: prompt, kind: CommandKind::Goal }], Flow::Release)
    }
}

/// What it makes of a session that the user will say no more.
pub open spec fn unheard(s: SessionView) -> StepView {
    (
        SessionView { steering_open: false, ..s },
        Seq::empty(),
        if s.active {
            Flow::Release
        } else {
            Flow::End
        },
    )
}

/// What an interrupt makes of a session.
pub open spec fn stopped(s: SessionView) -> StepView {
    (
        SessionView { interrupted: true, done_current: true, ..s },
        seq![ActionView::Abort, end_event(s, DoneStatus::Interrupted, None)],
        Flow::End,
    )
}

/// What the passing of time makes of a session.
pub open spec fn ticked(s: SessionView, now: u64) -> StepView {
    (
        SessionView { children: after_due(s.children, now), ..s },
        emits(due_ends(s.children, now)),
        Flow::Release,
    )
}

/// Whether a session breaks off in the middle of a turn.
pub open spec fn broken_off(s: SessionView) -> bool {
    s.active && !s.done_current && !s.interrupted
}

/// The last events of a session. A process that the session ran in accounts
/// for its own crash.
pub open spec fn last_words(s: SessionView, crash: Option<Seq<char>>) -> Seq<EventView> {
    let ends = open_ends(s.children);
    if broken_off(s) {
        let error = match crash {
            Some(error) => error,
            None => text_or(
                s.transport_error,
                "Prime daemon session ended before completion"@,
            ),
        };
        ends.push(done(DoneStatus::Errored, Some(error), Some(s.session_file)))
    } else {
        ends
    }
}

/// A command of the session that was sent and has not been answered.
pub struct PendingControl {
    pub started: bool,
    pub error: Option<String>,
    pub may_start_turn: bool,
}

impl View for PendingControl {
    type V = ControlView;

    open spec fn view(&self) -> ControlView {
        ControlView {
            started: self.started,
            error: opt_text(self.error),
            may_start_turn: self.may_start_turn,
        }
    }
}

/// The commands of a list, in order.
pub open spec fn controls(list: Seq<(String, PendingControl)>) -> Seq<(Seq<char>, ControlView)> {
    list.map_values(|entry: (String, PendingControl)| (entry.0@, entry.1@))
}

/// A session with Prime.
pub struct Session {
    pub session_file: String,
    pub daemon: bool,
    pub mapper: EventMapper,
    pub children: Children,
    pub active: bool,
    pub done_current: bool,
    pub generation: u64,
    pub completion_pending: bool,
    pub transport_error: Option<String>,
    pub interrupted: bool,
    pub steering_open: bool,
    pub steering_pending: bool,
    pub pending_controls: Vec<(String, PendingControl)>,
}

impl View for Session {
    type V = SessionView;

    open spec fn view(&self) -> SessionView {
        SessionView {
            session_file: self.session_file@,
            daemon: self.daemon,
            mapper: self.mapper@,
            children: self.children@,
            active: self.active,
            done_current: self.done_current,
            generation: self.generation,
            completion_pending: self.completion_pending,
            transport_error: opt_text(self.transport_error),
            interrupted: self.interrupted,
            steering_open: self.steering_open,
            steering_pending: self.steering_pending,
            controls: controls(self.pending_controls@),
        }
    }
}

/// What a session asks for, and how it goes on after that.
pub struct Step {
    pub actions: Vec<Action>,
    pub flow: Flow,
}

/// A session and the step that led to it.
pub open spec fn outcome(s: SessionView, step: Step) -> StepView {
    (s, actions(step.actions@), step.flow)
}

/// A step that does nothing.
fn idle(flow: Flow) -> (step: Step)
    ensures
        step.flow == flow,
        actions(step.actions@) == Seq::<ActionView>::empty(),
{
    Step { actions: no_actions(), flow }
}

/// A step that does one thing.
fn single(action: Action, flow: Flow) -> (step: Step)
    ensures
        step.flow == flow,
        actions(step.actions@) == seq![action@],
{
    Step { actions: one_action(action), flow }
}

/// A step that does two things.
fn double(first: Action, second: Action, flow: Flow) -> (step: Step)
    ensures
        step.flow == flow,
        actions(step.actions@) == seq![first@, second@],
{
    let mut list = one_action(first);
    push_action(&mut list, second);
    proof {
        assert(actions(list@) =~= seq![first@, second@]);
    }
    Step { actions: list, flow }
}

/// The word that a message of the user was taken in.
fn steered_action() -> (action: Action)
    ensures
        action@ == steered(),
{
    Action::Emit(
        AgentEvent::Steered { assistant_message_id: None, next_assistant_message_id: None },
    )
}

/// A notification on the life of the session.
fn lifecycle_update(phase: &str) -> (event: Json)
    ensures
        event@ == lifecycle(phase@),
{
    Json::object().set("type", Json::text("lifecycle_update")).set("phase", Json::text(phase))
}

/// The notification that work goes on in the background after a turn.
fn background_update(summary: &Json) -> (event: Json)
    ensures
        event@ == background(summary@),
{
    lifecycle_update("background").set(
        "hasRunningRlmChildren",
        summary.at("hasRunningRlmChildren").clone(),
    ).set("isBashRunning", summary.at("isBashRunning").clone()).set(
        "unfinishedActionCount",
        summary.at("unfinishedActionCount").clone(),
    )
}

/// The text of a message, shown to the user where it is one.
fn show_text(content: &Json) -> (list: Vec<Action>)
    ensures
        actions(list@) == shown_text(content@),
{
    match content.as_text() {
        Some(text) => one_action(Action::Emit(AgentEvent::TextDelta { text: text.to_owned() })),
        None => no_actions(),
    }
}

/// The snapshots in a list that are taken in.
fn child_updates(children: &Json) -> (list: Vec<Action>)
    ensures
        actions(list@) == updates(children@),
{
    let mut list = no_actions();
    let items = match children.as_array() {
        Some(items) => items,
        None => {
            return list;
        },
    };
    let ghost all = jsons(items@).map_values(|child: JsonView| at_work(child));
    let mut i: usize = 0;
    proof {
        assert(all.take(0) =~= Seq::<Option<ActionView>>::empty());
    }
    while i < items.len()
        invariant
            i <= items@.len(),
            all == jsons(items@).map_values(|child: JsonView| at_work(child)),
            actions(list@) == somes(all.take(i as int)),
        decreases items@.len() - i,
    {
        proof {
            lemma_somes_next(all, i as int);
        }
        let status = items[i].at("status");
        if status.is_text("queued") || status.is_text("running") {
            push_action(&mut list, Action::UpdateChild { child: items[i].clone() });
        }
        i = i + 1;
    }
    proof {
        assert(all.take(i as int) =~= all);
    }
    list
}

/// What is done with every message of the agent before it is read.
fn preface(message: &Json) -> (list: Vec<Action>)
    ensures
        actions(list@) == preamble(message@),
{
    let kind = message.field("type");
    let mut list = if text_is(kind, "_transport_closed") {
        no_actions()
    } else {
        one_action(Action::Emit(AgentEvent::PrimeEvent { event: without_image_data(message) }))
    };
    if text_is(kind, "compaction_end") && message.at("result").is_object() {
        push_action(&mut list, Action::RefreshUsage { or_clear: true });
    } else if text_is(kind, "message_end") && message.at("message").at("role").is_text(
        "assistant",
    ) {
        push_action(&mut list, Action::RefreshUsage { or_clear: false });
    }
    list
}

/// Whether a message holds a finished message of a kind of its own.
fn custom(message: &Json, kind: &str) -> (is: bool)
    ensures
        is == is_custom(message@, kind@),
{
    text_is(message.field("type"), "message_end") && message.at("message").at(
        "customType",
    ).is_text(kind)
}

impl Session {
    /// A session whose first prompt is about to be sent. The command at the
    /// start of the prompt, if any, is given with its arguments.
    pub fn open(
        session_file: &str,
        daemon: bool,
        prompt: &str,
        leading: Option<(&str, &str)>,
    ) -> (session: Self)
        ensures
            session@ == opened(session_file@, daemon, prompt@, leading_view(leading)),
    {
        let pending_controls: Vec<(String, PendingControl)> = Vec::new();
        proof {
            assert(controls(pending_controls@) =~= Seq::<(Seq<char>, ControlView)>::empty());
        }
        let mut session = Session {
            session_file: session_file.to_owned(),
            daemon,
            mapper: EventMapper::new(),
            children: Children::default(),
            active: true,
            done_current: false,
            generation: 0,
            completion_pending: false,
            transport_error: None,
            interrupted: false,
            steering_open: true,
            steering_pending: false,
            pending_controls,
        };
        let command = session_command_may_start_turn(prompt, leading);
        session.add_control(prompt, command);
        session
    }

    /// Notes a command that is sent.
    fn add_control(&mut self, text: &str, command: Option<bool>)
        ensures
            final(self)@ == (SessionView {
                controls: with_control(old(self)@.controls, text@, command),
                ..old(self)@
            }),
    {
        match command {
            Some(may_start_turn) => {
                let control = PendingControl { started: false, error: None, may_start_turn };
                self.pending_controls.push((text.to_owned(), control));
                proof {
                    assert(self@.controls =~= with_control(old(self)@.controls, text@, command));
                }
            },
            None => {},
        }
    }

    /// The index of the first command of the given text.
    fn control_position(&self, text: &str) -> (at: usize)
        ensures
            at == position(self@.controls, text@),
            at <= self.pending_controls@.len(),
    {
        let mut i: usize = 0;
        while i < self.pending_controls.len()
            invariant
                i <= self.pending_controls@.len(),
                forall|k: int|
                    0 <= k < i ==> (#[trigger] controls(self.pending_controls@)[k]).0 != text@,
            decreases self.pending_controls@.len() - i,
        {
            if same_text(self.pending_controls[i].0.as_str(), text) {
                proof {
                    lemma_position_is(self@.controls, text@, i as int);
                }
                return i;
            }
            i = i + 1;
        }
        proof {
            lemma_position_is(self@.controls, text@, i as int);
        }
        i
    }

    /// Forgets the first command of the given text.
    fn drop_control(&mut self, text: &str)
        ensures
            final(self)@ == (SessionView {
                controls: without_control(old(self)@.controls, text@),
                ..old(self)@
            }),
    {
        let at = self.control_position(text);
        if at < self.pending_controls.len() {
            let _ = self.pending_controls.remove(at);
            proof {
                assert(self@.controls =~= old(self)@.controls.remove(at as int));
            }
        }
    }

    /// Whether a command to work on one's own was sent.
    fn autonomous(&self) -> (sent: bool)
        ensures
            sent == has_autonomous(self@.controls),
    {
        let mut i: usize = 0;
        while i < self.pending_controls.len()
            invariant
                i <= self.pending_controls@.len(),
                forall|k: int|
                    0 <= k < i ==> after_prefix(
                        (#[trigger] controls(self.pending_controls@)[k]).0,
                        "/autonomous"@,
                    ) is None,
            decreases self.pending_controls@.len() - i,
        {
            proof {
                assert(controls(self.pending_controls@)[i as int].0 == self.pending_controls@[i as int].0@);
            }
            match strip_prefix(self.pending_controls[i].0.as_str(), "/autonomous") {
                Some(_) => {
                    return true;
                },
                None => {},
            }
            i = i + 1;
        }
        false
    }

    /// The word that a turn of the session ended.
    fn end_action(&self, status: DoneStatus, error: Option<String>) -> (action: Action)
        ensures
            action@ == end_event(self@, status, opt_text(error)),
    {
        Action::Emit(done_event(status, error, Some(self.session_file.clone())))
    }

    /// The end of a turn that failed with an error, or did not fail.
    fn end_with(&self, error: Option<String>) -> (action: Action)
        ensures
            action@ == end_by_error(self@, opt_text(error)),
    {
        let status = if error.is_some() {
            DoneStatus::Errored
        } else {
            DoneStatus::Completed
        };
        self.end_action(status, error)
    }

    /// How the session goes on after a turn.
    fn turn_flow(&self) -> (flow: Flow)
        ensures
            flow == after_turn(self@),
    {
        if self.steering_open {
            Flow::Release
        } else {
            Flow::End
        }
    }

    /// Begins a turn whose completion is waited for.
    fn start_completion(&mut self) -> (action: Action)
        ensures
            final(self)@ == awaiting(old(self)@),
            action@ == await_next(old(self)@),
    {
        self.generation = next_number(self.generation);
        self.completion_pending = true;
        Action::AwaitCompletion { generation: self.generation }
    }

    /// Takes in the success of a request.
    pub fn on_success(&mut self, kind: CommandKind) -> (step: Step)
        ensures
            outcome(final(self)@, step) == succeeded(old(self)@, kind),
    {
        match kind {
            CommandKind::Steer => {
                self.steering_pending = false;
                if !self.active {
                    self.active = true;
                    self.done_current = false;
                }
                if self.daemon {
                    let wait = self.start_completion();
                    double(steered_action(), wait, Flow::Release)
                } else {
                    single(steered_action(), Flow::Release)
                }
            },
            CommandKind::Goal | CommandKind::Initial => {
                if self.daemon {
                    let wait = self.start_completion();
                    single(wait, Flow::Release)
                } else {
                    idle(Flow::Release)
                }
            },
            CommandKind::Completion(generation) => {
                if generation == self.generation {
                    self.completion_pending = false;
                    single(Action::CollectEnd { generation }, Flow::Wait)
                } else {
                    idle(Flow::Release)
                }
            },
            CommandKind::Quiescence(generation) => {
                if generation == self.generation {
                    let event = lifecycle_update("quiescent");
                    single(Action::Emit(AgentEvent::PrimeEvent { event }), Flow::Release)
                } else {
                    idle(Flow::Release)
                }
            },
        }
    }

    /// Takes in the failure of a request. The command at the start of the text
    /// of the request, if any, is given with its arguments.
    pub fn on_failure(
        &mut self,
        kind: CommandKind,
        text: &str,
        leading: Option<(&str, &str)>,
        error: String,
    ) -> (step: Step)
        ensures
            outcome(final(self)@, step) == failed(
                old(self)@,
                kind,
                text@,
                command_starts_turn(text@, leading_view(leading)),
                error@,
            ),
    {
        match kind {
            CommandKind::Quiescence(generation) => {
                if generation == self.generation {
                    single(Action::Emit(AgentEvent::Error { message: error }), Flow::Release)
                } else {
                    idle(Flow::Release)
                }
            },
            CommandKind::Completion(generation) => {
                if generation == self.generation {
                    let end = self.end_action(DoneStatus::Errored, Some(error));
                    self.completion_pending = false;
                    self.active = false;
                    self.done_current = true;
                    single(end, self.turn_flow())
                } else {
                    idle(Flow::Release)
                }
            },
            CommandKind::Goal => single(
                Action::Emit(AgentEvent::Error { message: error }),
                Flow::Release,
            ),
            CommandKind::Steer => {
                let end = self.end_action(DoneStatus::Errored, Some(error));
                self.done_current = true;
                if session_command_may_start_turn(text, leading).is_some() {
                    self.drop_control(text);
                    self.active = false;
                    double(steered_action(), end, Flow::Release)
                } else {
                    single(end, Flow::End)
                }
            },
            CommandKind::Initial => {
                let end = self.end_action(DoneStatus::Errored, Some(error));
                self.done_current = true;
                single(end, Flow::End)
            },
        }
    }

    /// Takes in how a turn ended, and the summary of the session, if there is
    /// one.
    pub fn on_end(
        &mut self,
        generation: u64,
        status: DoneStatus,
        error: Option<String>,
        summary: Option<&Json>,
    ) -> (step: Step)
        ensures
            outcome(final(self)@, step) == completed(
                old(self)@,
                generation,
                (status, opt_text(error)),
                match summary {
                    Some(summary) => Some(summary@),
                    None => None,
                },
            ),
    {
        let mut list = one_action(self.end_action(status, error));
        match summary {
            Some(summary) => {
                if summary.at("isSessionActive").as_bool() == Some(true) {
                    let event = background_update(summary);
                    push_action(&mut list, Action::Emit(AgentEvent::PrimeEvent { event }));
                }
            },
            None => {},
        }
        self.active = false;
        self.done_current = true;
        self.mapper = EventMapper::new();
        if self.steering_open {
            push_action(&mut list, Action::AwaitQuiescence { generation });
            Step { actions: list, flow: Flow::Release }
        } else {
            Step { actions: list, flow: Flow::End }
        }
    }

    /// Takes in the start of a turn of the agent.
    fn agent_start(&mut self) -> (step: Step)
        ensures
            outcome(final(self)@, step) == agent_started(old(self)@),
    {
        let waits = self.daemon && self.done_current && !self.completion_pending;
        self.active = true;
        self.done_current = false;
        if waits {
            let wait = self.start_completion();
            single(wait, Flow::Release)
        } else {
            idle(Flow::Release)
        }
    }

    /// Takes in the end of a turn of the agent.
    fn agent_end(&mut self) -> (step: Step)
        ensures
            outcome(final(self)@, step) == agent_ended(old(self)@),
    {
        if self.daemon {
            return idle(Flow::Wait);
        }
        let error = copy_text(self.mapper.failure());
        let end = self.end_with(error);
        self.active = false;
        self.done_current = true;
        self.mapper = EventMapper::new();
        single(end, self.turn_flow())
    }

    /// Takes in the result of a command.
    fn command_result(&mut self, result: &Json) -> (step: Step)
        ensures
            outcome(final(self)@, step) == answered(old(self)@, result@),
    {
        let details = result.at("details");
        let text = match details.at("command").at("text").as_text() {
            Some(text) => text,
            None => {
                return idle(Flow::Release);
            },
        };
        let at = self.control_position(text);
        if at >= self.pending_controls.len() {
            return idle(Flow::Release);
        }
        if details.at("success").as_bool() == Some(false) {
            let error = text_or_else(details.at("error").as_text(), "Prime command failed");
            let ghost list = self.pending_controls@;
            proof {
                lemma_position(self@.controls, text@);
            }
            self.pending_controls[at].1.error = Some(error.to_owned());
            proof {
                assert(self@.controls =~= controls(list).update(
                    at as int,
                    (text@, ControlView { error: Some(error@), ..controls(list)[at as int].1 }),
                ));
            }
            idle(Flow::Release)
        } else if result.at("display").as_bool() == Some(true) {
            Step { actions: show_text(result.at("content")), flow: Flow::Release }
        } else {
            idle(Flow::Release)
        }
    }

    /// Takes in news of the actions under way.
    fn action_update(&mut self, news: &Json) -> (step: Step)
        ensures
            outcome(final(self)@, step) == acted(old(self)@, news@),
    {
        if self.pending_controls.len() == 0 {
            return idle(Flow::Release);
        }
        let ghost list = self.pending_controls@;
        let active = news.at("active");
        if active.at("label").is_text(self.pending_controls[0].0.as_str()) {
            self.pending_controls[0].1.started = true;
            proof {
                assert(self@.controls =~= controls(list).update(
                    0,
                    (list[0].0@, ControlView { started: true, ..list[0].1@ }),
                ));
            }
            idle(Flow::Release)
        } else if self.pending_controls[0].1.started {
            let (_, control) = self.pending_controls.remove(0);
            proof {
                assert(self@.controls =~= controls(list).remove(0));
            }
            let queued = match news.at("queuedCount").as_u64() {
                Some(count) => count > 0,
                None => false,
            };
            let leads = control.may_start_turn && control.error.is_none() && (active.at(
                "kind",
            ).is_text("turn") || queued);
            if leads || self.daemon {
                idle(Flow::Release)
            } else {
                let end = self.end_with(control.error);
                self.active = false;
                self.done_current = true;
                single(end, self.turn_flow())
            }
        } else {
            idle(Flow::Release)
        }
    }

    /// Takes in a request of an extension.
    fn extension_request(&self, message: &Json) -> (step: Step)
        ensures
            outcome(self@, step) == requested(self@, message@),
    {
        match message.field("id") {
            Some(id) => {
                let method = text_or_else(message.field("method"), "");
                if method_asks_user(method) {
                    let question = read_question(message, id);
                    single(Action::Ask { question, method: method.to_owned() }, Flow::Release)
                } else {
                    idle(Flow::Release)
                }
            },
            None => idle(Flow::Wait),
        }
    }

    /// Reads a message of the agent.
    fn read_message(&mut self, message: &Json) -> (step: Step)
        ensures
            outcome(final(self)@, step) == read(old(self)@, message@),
    {
        let kind = message.field("type");
        if text_is(kind, "_transport_closed") {
            self.transport_error = copy_text(message.at("error").as_text());
            let event = lifecycle_update("disconnected");
            single(Action::Emit(AgentEvent::PrimeEvent { event }), Flow::End)
        } else if text_is(kind, "agent_start") {
            self.agent_start()
        } else if text_is(kind, "agent_end") {
            self.agent_end()
        } else if custom(message, "session_slash_command_result") {
            self.command_result(message.at("message"))
        } else if custom(message, "autonomous_status") {
            if self.autonomous() {
                Step {
                    actions: show_text(message.at("message").at("content")),
                    flow: Flow::Release,
                }
            } else {
                idle(Flow::Release)
            }
        } else if text_is(kind, "session_action_update") {
            self.action_update(message.at("actions"))
        } else if text_is(kind, "rlm_child_update") {
            let child = message.at("child").clone();
            single(Action::UpdateChild { child }, Flow::Release)
        } else if text_is(kind, "session_attached") || text_is(kind, "session_resynced")
            || text_is(kind, "session_replaced") {
            Step {
                actions: child_updates(message.at("snapshot").at("children")),
                flow: Flow::Release,
            }
        } else if text_is(kind, "observed_session_event") || text_is(
            kind,
            "observed_session_closed",
        ) {
            let found = self.children.observed(message);
            Step { actions: emit_all(found), flow: Flow::Release }
        } else if text_is(kind, "extension_ui_request") {
            self.extension_request(message)
        } else {
            let found = self.mapper.map(message);
            Step { actions: show_all(found), flow: Flow::Release }
        }
    }

    /// Takes in a message of the agent.
    pub fn on_message(&mut self, message: &Json) -> (step: Step)
        ensures
            outcome(final(self)@, step) == received(old(self)@, message@),
    {
        let mut list = preface(message);
        let step = self.read_message(message);
        push_actions(&mut list, step.actions);
        Step { actions: list, flow: step.flow }
    }

    /// Whether the session takes in a message of the user now.
    pub fn hears_user(&self) -> (hears: bool)
        ensures
            hears == (self@.steering_open && !self@.interrupted && !self@.steering_pending),
    {
        self.steering_open && !self.interrupted && !self.steering_pending
    }

    /// Takes in a message of the user. The command at its start, if any, is
    /// given with its arguments.
    pub fn on_steer(&mut self, next: SteerMessage, leading: Option<(&str, &str)>) -> (step: Step)
        ensures
            outcome(final(self)@, step) == told(
                old(self)@,
                next.prompt@,
                next.message_id is Some,
                leading_view(leading),
            ),
    {
        if next.message_id.is_some() {
            let command = session_command_may_start_turn(next.prompt.as_str(), leading);
            self.add_control(next.prompt.as_str(), command);
            self.steering_pending = true;
            single(Action::Prompt { text: next.prompt, kind: CommandKind::Steer }, Flow::Release)
        } else {
            single(Action::Prompt { text: next.prompt, kind: CommandKind::Goal }, Flow::Release)
        }
    }

    /// Takes in that the user will say no more.
    pub fn on_steering_closed(&mut self) -> (step: Step)
        ensures
            outcome(final(self)@, step) == unheard(old(self)@),
    {
        self.steering_open = false;
        if self.active {
            idle(Flow::Release)
        } else {
            idle(Flow::End)
        }
    }

    /// Takes in an interrupt.
    pub fn on_interrupt(&mut self) -> (step: Step)
        ensures
            outcome(final(self)@, step) == stopped(old(self)@),
    {
        let end = self.end_action(DoneStatus::Interrupted, None);
        self.interrupted = true;
        self.done_current = true;
        double(Action::Abort, end, Flow::End)
    }

    /// Takes in the time, in milliseconds.
    pub fn on_tick(&mut self, now: u64) -> (step: Step)
        ensures
            outcome(final(self)@, step) == ticked(old(self)@, now),
    {
        let found = self.children.settle_due(now);
        Step { actions: emit_all(found), flow: Flow::Release }
    }

    /// Whether the session breaks off in the middle of a turn.
    pub fn breaks_off(&self) -> (off: bool)
        ensures
            off == broken_off(self@),
    {
        self.active && !self.done_current && !self.interrupted
    }

    /// Closes the session: gives its last events. A process that the session
    /// ran in accounts for its own crash.
    pub fn close(&mut self, crash: Option<String>) -> (found: Vec<AgentEvent>)
        ensures
            final(self)@ == (SessionView {
                children: after_close(old(self)@.children),
                ..old(self)@
            }),
            events(found@) == last_words(old(self)@, opt_text(crash)),
    {
        let mut found = self.children.finish_open();
        if self.breaks_off() {
            let error = match crash {
                Some(error) => error,
                None => match &self.transport_error {
                    Some(error) => error.clone(),
                    None => "Prime daemon session ended before completion".to_owned(),
                },
            };
            push_event(
                &mut found,
                done_event(DoneStatus::Errored, Some(error), Some(self.session_file.clone())),
            );
        }
        found
    }
}

} // verus!
