//! What holds of everything that happens to a session.

use vstd::prelude::*;

#[allow(unused_imports)]
use crate::actions::{actions, emits, shown, shows, ActionView, CommandKind};
#[allow(unused_imports)]
use crate::children::Children;
#[allow(unused_imports)]
use crate::event_laws::says;
#[allow(unused_imports)]
use crate::events::EventMapper;
#[allow(unused_imports)]
use crate::extension_ui::read_question;
#[allow(unused_imports)]
use crate::invocation::{is_line_break, session_command_may_start_turn};
#[allow(unused_imports)]
use crate::json::{
    empty_object, lemma_get_set, lemma_position_is, opt_text, Json, JsonView, NumberView,
};
#[allow(unused_imports)]
use crate::lists::somes;
#[allow(unused_imports)]
use crate::media::{scrubbed, without_image_data};
#[allow(unused_imports)]
use crate::proto::{events, AgentEvent, DoneStatus, EventView, SteerMessage, UserInputQuestion};
#[allow(unused_imports)]
use crate::session::{
    at_work, background, has_autonomous, lifecycle, preamble, read, ControlView, Flow, Session,
    SessionView, Step,
};
#[allow(unused_imports)]
use crate::text::{after_prefix, trim};

verus! {

/// The number after another; the last is followed by zero.
pub open spec fn number_after(number: u64) -> u64 {
    if number == u64::MAX {
        0
    } else {
        (number + 1) as u64
    }
}

/// Whether an action tells that a turn ended, in a given way.
pub open spec fn is_end(
    action: ActionView,
    status: DoneStatus,
    error: Option<Seq<char>>,
    session_file: Seq<char>,
) -> bool {
    action == ActionView::Emit(
        EventView::Done { status, result: None, error, session_id: Some(session_file) },
    )
}

/// Whether an action tells of a phase in the life of a session.
pub open spec fn is_phase(action: ActionView, phase: Seq<char>) -> bool {
    action matches ActionView::Emit(EventView::PrimeEvent { event }) && says(
        event,
        "type"@,
        "lifecycle_update"@,
    ) && says(event, "phase"@, phase)
}

/// Whether an action tells that a message of the user was taken in.
pub open spec fn is_steered(action: ActionView) -> bool {
    action == ActionView::Emit(
        EventView::Steered { assistant_message_id: None, next_assistant_message_id: None },
    )
}

/// Whether a command is the first of a text, or the text is that of none and the
/// index stands behind all of them.
pub open spec fn first_named(
    controls: Seq<(Seq<char>, ControlView)>,
    text: Seq<char>,
    at: int,
) -> bool {
    &&& 0 <= at <= controls.len()
    &&& at < controls.len() ==> controls[at].0 == text
    &&& forall|k: int| 0 <= k < at ==> (#[trigger] controls[k]).0 != text
}

/// What is done with every message before anything else: it is published, but
/// for the word that the transport is closed; then statistics are asked for,
/// where a message of the assistant ended or the context was compacted.
pub open spec fn opening(message: JsonView, public: JsonView) -> Seq<ActionView> {
    let copy = if says(message, "type"@, "_transport_closed"@) {
        Seq::empty()
    } else {
        seq![ActionView::Emit(EventView::PrimeEvent { event: public })]
    };
    if says(message, "type"@, "compaction_end"@) && message.at("result"@) is Object {
        copy.push(ActionView::RefreshUsage { or_clear: true })
    } else if says(message, "type"@, "message_end"@) && says(
        message.at("message"@),
        "role"@,
        "assistant"@,
    ) {
        copy.push(ActionView::RefreshUsage { or_clear: false })
    } else {
        copy
    }
}

proof fn lemma_kinds()
    ensures
        "_transport_closed"@ != "agent_start"@,
        "_transport_closed"@ != "agent_end"@,
        "_transport_closed"@ != "message_end"@,
        "_transport_closed"@ != "session_action_update"@,
        "_transport_closed"@ != "rlm_child_update"@,
        "_transport_closed"@ != "session_attached"@,
        "_transport_closed"@ != "session_resynced"@,
        "_transport_closed"@ != "session_replaced"@,
        "_transport_closed"@ != "observed_session_event"@,
        "_transport_closed"@ != "observed_session_closed"@,
        "_transport_closed"@ != "extension_ui_request"@,
        "_transport_closed"@ != "compaction_end"@,
        "agent_start"@ != "agent_end"@,
        "agent_start"@ != "message_end"@,
        "agent_start"@ != "session_action_update"@,
        "agent_start"@ != "rlm_child_update"@,
        "agent_start"@ != "session_attached"@,
        "agent_start"@ != "session_resynced"@,
        "agent_start"@ != "session_replaced"@,
        "agent_start"@ != "observed_session_event"@,
        "agent_start"@ != "observed_session_closed"@,
        "agent_start"@ != "extension_ui_request"@,
        "agent_start"@ != "compaction_end"@,
        "agent_end"@ != "message_end"@,
        "agent_end"@ != "session_action_update"@,
        "agent_end"@ != "rlm_child_update"@,
        "agent_end"@ != "session_attached"@,
        "agent_end"@ != "session_resynced"@,
        "agent_end"@ != "session_replaced"@,
        "agent_end"@ != "observed_session_event"@,
        "agent_end"@ != "observed_session_closed"@,
        "agent_end"@ != "extension_ui_request"@,
        "agent_end"@ != "compaction_end"@,
        "message_end"@ != "session_action_update"@,
        "message_end"@ != "rlm_child_update"@,
        "message_end"@ != "session_attached"@,
        "message_end"@ != "session_resynced"@,
        "message_end"@ != "session_replaced"@,
        "message_end"@ != "observed_session_event"@,
        "message_end"@ != "observed_session_closed"@,
        "message_end"@ != "extension_ui_request"@,
        "message_end"@ != "compaction_end"@,
        "session_action_update"@ != "rlm_child_update"@,
        "session_action_update"@ != "session_attached"@,
        "session_action_update"@ != "session_resynced"@,
        "session_action_update"@ != "session_replaced"@,
        "session_action_update"@ != "observed_session_event"@,
        "session_action_update"@ != "observed_session_closed"@,
        "session_action_update"@ != "extension_ui_request"@,
        "session_action_update"@ != "compaction_end"@,
        "rlm_child_update"@ != "session_attached"@,
        "rlm_child_update"@ != "session_resynced"@,
        "rlm_child_update"@ != "session_replaced"@,
        "rlm_child_update"@ != "observed_session_event"@,
        "rlm_child_update"@ != "observed_session_closed"@,
        "rlm_child_update"@ != "extension_ui_request"@,
        "rlm_child_update"@ != "compaction_end"@,
        "session_attached"@ != "session_resynced"@,
        "session_attached"@ != "session_replaced"@,
        "session_attached"@ != "observed_session_event"@,
        "session_attached"@ != "observed_session_closed"@,
        "session_attached"@ != "extension_ui_request"@,
        "session_attached"@ != "compaction_end"@,
        "session_resynced"@ != "session_replaced"@,
        "session_resynced"@ != "observed_session_event"@,
        "session_resynced"@ != "observed_session_closed"@,
        "session_resynced"@ != "extension_ui_request"@,
        "session_resynced"@ != "compaction_end"@,
        "session_replaced"@ != "observed_session_event"@,
        "session_replaced"@ != "observed_session_closed"@,
        "session_replaced"@ != "extension_ui_request"@,
        "session_replaced"@ != "compaction_end"@,
        "observed_session_event"@ != "observed_session_closed"@,
        "observed_session_event"@ != "extension_ui_request"@,
        "observed_session_event"@ != "compaction_end"@,
        "observed_session_closed"@ != "extension_ui_request"@,
        "observed_session_closed"@ != "compaction_end"@,
        "extension_ui_request"@ != "compaction_end"@,
{
    reveal_strlit("_transport_closed");
    reveal_strlit("agent_start");
    reveal_strlit("agent_end");
    reveal_strlit("message_end");
    reveal_strlit("session_action_update");
    reveal_strlit("rlm_child_update");
    reveal_strlit("session_attached");
    reveal_strlit("session_resynced");
    reveal_strlit("session_replaced");
    reveal_strlit("observed_session_event");
    reveal_strlit("observed_session_closed");
    reveal_strlit("extension_ui_request");
    reveal_strlit("compaction_end");
    assert("_transport_closed"@.len() == 17);
    assert("agent_start"@.len() == 11);
    assert("agent_end"@.len() == 9);
    assert("message_end"@.len() == 11);
    assert("session_action_update"@.len() == 21);
    assert("rlm_child_update"@.len() == 16);
    assert("session_attached"@.len() == 16);
    assert("session_resynced"@.len() == 16);
    assert("session_replaced"@.len() == 16);
    assert("observed_session_event"@.len() == 22);
    assert("observed_session_closed"@.len() == 23);
    assert("extension_ui_request"@.len() == 20);
    assert("compaction_end"@.len() == 14);
    assert("agent_start"@[0] == 'a');
    assert("message_end"@[0] == 'm');
    assert("rlm_child_update"@[0] == 'r');
    assert("session_attached"@[0] == 's');
    assert("session_resynced"@[0] == 's');
    assert("session_replaced"@[0] == 's');
    assert("session_attached"@[8] == 'a');
    assert("session_resynced"@[8] == 'r');
    assert("session_replaced"@[8] == 'r');
    assert("session_resynced"@[10] == 's');
    assert("session_replaced"@[10] == 'p');
}

proof fn lemma_phase(phase: Seq<char>)
    ensures
        is_phase(ActionView::Emit(EventView::PrimeEvent { event: lifecycle(phase) }), phase),
{
    broadcast use lemma_get_set;

    reveal_strlit("type");
    reveal_strlit("phase");
    assert("type"@.len() == 4);
    assert("phase"@.len() == 5);
    assert(empty_object().set("type"@, JsonView::Text("lifecycle_update"@)) is Object);
}

proof fn lemma_opening(message: JsonView)
    ensures
        preamble(message) == opening(message, scrubbed(message)),
{
}

/// A text is a command of the session if it is on one line and leads with the
/// name of one. Of those, only a goal that is set or resumed may start a turn of
/// the agent: not one that is looked at, paused, cleared or stopped.
pub proof fn a_command_of_the_session_is_known(
    text: &str,
    leading: Option<(&str, &str)>,
    may: Option<bool>,
    args: &str,
    inner: &str,
)
    requires
        call_ensures(session_command_may_start_turn, (text, leading), may),
        call_ensures(trim, (args,), inner),
    ensures
        text@.contains('\n') || text@.contains('\r') || text@.contains('\u{2028}')
            || text@.contains('\u{2029}') ==> may is None,
        leading is None ==> may is None,
        !text@.contains('\n') && !text@.contains('\r') && !text@.contains('\u{2028}')
            && !text@.contains('\u{2029}') && (leading matches Some(lead) && lead.1@ == args@) ==> {
            let (name, rest) = leading.unwrap();
            let name = name@;
            &&& name == "compact"@ || name == "refine"@ || name == "autonomous"@ ==> may == Some(
                false,
            )
            &&& name == "goal"@ ==> may == Some(
                inner@ != ""@ && inner@ != "status"@ && inner@ != "pause"@ && inner@ != "clear"@
                    && inner@ != "stop"@,
            )
            &&& name != "compact"@ && name != "refine"@ && name != "autonomous"@ && name
                != "goal"@ ==> may is None
        },
{
    reveal_strlit("compact");
    reveal_strlit("refine");
    reveal_strlit("autonomous");
    reveal_strlit("goal");
    assert("compact"@.len() == 7);
    assert("refine"@.len() == 6);
    assert("autonomous"@.len() == 10);
    assert("goal"@.len() == 4);
    if text@.contains('\n') || text@.contains('\r') || text@.contains('\u{2028}')
        || text@.contains('\u{2029}') {
        let i = choose|i: int|
            0 <= i < text@.len() && (text@[i] == '\n' || text@[i] == '\r' || text@[i] == '\u{2028}'
                || text@[i] == '\u{2029}');
        assert(is_line_break(text@[i]));
    } else {
        assert forall|i: int| 0 <= i < text@.len() implies !is_line_break(
            #[trigger] text@[i],
        ) by {
            assert(text@.contains(text@[i]));
        }
    }
}

/// A session that is opened is at work on its first prompt, has told of no end,
/// waits for nothing and hears the user. The prompt is a command that is yet to
/// be answered if and only if it is a command of the session.
pub proof fn an_opened_session_is_at_work(
    session_file: &str,
    daemon: bool,
    prompt: &str,
    leading: Option<(&str, &str)>,
    session: Session,
    may: Option<bool>,
)
    requires
        call_ensures(Session::open, (session_file, daemon, prompt, leading), session),
        call_ensures(session_command_may_start_turn, (prompt, leading), may),
    ensures
        session@.session_file == session_file@,
        session@.daemon == daemon,
        session@.active && !session@.done_current && !session@.completion_pending,
        session@.steering_open && !session@.steering_pending && !session@.interrupted,
        session@.children.len() == 0,
        session@.mapper.failure is None && session@.mapper.active_bash is None,
        session@.mapper.next_bash_id == 0 && session@.generation == 0,
        session@.transport_error is None,
        may is None ==> session@.controls.len() == 0,
        may matches Some(may) ==> session@.controls.len() == 1 && session@.controls[0].0 == prompt@
            && !session@.controls[0].1.started && session@.controls[0].1.error is None
            && session@.controls[0].1.may_start_turn == may,
{
}

/// A prompt that was taken in is followed, with a daemon, by the wait for its
/// completion, under the next number. A message of the user's that was taken in
/// is told so first, and the session is at work then.
pub proof fn what_was_taken_in_is_waited_for(session: &mut Session, kind: CommandKind, step: Step)
    requires
        call_ensures(Session::on_success, (session, kind), step),
        kind == CommandKind::Initial || kind == CommandKind::Goal || kind == CommandKind::Steer,
    ensures
        ({
            let list = actions(step.actions@);
            let wait = ActionView::AwaitCompletion {
                generation: number_after(old(session)@.generation),
            };
            &&& step.flow == Flow::Release
            &&& kind == CommandKind::Steer && old(session)@.daemon ==> list.len() == 2
                && is_steered(list[0]) && list[1] == wait
            &&& kind == CommandKind::Steer && !old(session)@.daemon ==> list.len() == 1
                && is_steered(list[0])
            &&& kind != CommandKind::Steer && old(session)@.daemon ==> list == seq![wait]
            &&& kind != CommandKind::Steer && !old(session)@.daemon ==> list.len() == 0
        }),
        ({
            let s = old(session)@;
            let steer = kind == CommandKind::Steer;
            final(session)@ == (SessionView {
                completion_pending: s.completion_pending || s.daemon,
                generation: if s.daemon {
                    number_after(s.generation)
                } else {
                    s.generation
                },
                active: s.active || steer,
                done_current: s.done_current && (s.active || !steer),
                steering_pending: s.steering_pending && !steer,
                ..s
            })
        }),
{
}

/// A wait that is over asks how the turn ended, or tells that the agent came to
/// rest, if it is the newest, and does nothing otherwise.
pub proof fn a_wait_that_is_over_counts_if_it_is_the_newest(
    session: &mut Session,
    number: u64,
    completion: bool,
    step: Step,
)
    requires
        call_ensures(
            Session::on_success,
            (
                session,
                if completion {
                    CommandKind::Completion(number)
                } else {
                    CommandKind::Quiescence(number)
                },
            ),
            step,
        ),
    ensures
        number != old(session)@.generation ==> final(session)@ == old(session)@
            && step.actions@.len() == 0 && step.flow == Flow::Release,
        number == old(session)@.generation && completion ==> actions(step.actions@) == seq![
            ActionView::CollectEnd { generation: number },
        ] && final(session)@ == (SessionView { completion_pending: false, ..old(session)@ })
            && step.flow == Flow::Wait,
        number == old(session)@.generation && !completion ==> step.actions@.len() == 1 && is_phase(
            actions(step.actions@)[0],
            "quiescent"@,
        ) && final(session)@ == old(session)@ && step.flow == Flow::Release,
{
    lemma_phase("quiescent"@);
    assert(actions(step.actions@).len() == step.actions@.len());
}

/// A prompt that is refused ends the session with an error. So does a message of
/// the user's that is refused, unless it is a command: then only its turn ends,
/// and the command is not waited for. A refused command on the goal is an error
/// alone.
pub proof fn what_was_refused_ends_the_turn(
    session: &mut Session,
    kind: CommandKind,
    text: &str,
    leading: Option<(&str, &str)>,
    error: String,
    step: Step,
    may: Option<bool>,
)
    requires
        call_ensures(Session::on_failure, (session, kind, text, leading, error), step),
        call_ensures(session_command_may_start_turn, (text, leading), may),
    ensures
        ({
            let list = actions(step.actions@);
            let file = old(session)@.session_file;
            &&& kind == CommandKind::Initial || (kind == CommandKind::Steer && may is None)
                ==> list.len() == 1 && is_end(list[0], DoneStatus::Errored, Some(error@), file)
                && step.flow == Flow::End && final(session)@ == (SessionView {
                done_current: true,
                ..old(session)@
            })
            &&& kind == CommandKind::Steer && may is Some ==> list.len() == 2 && is_steered(list[0])
                && is_end(list[1], DoneStatus::Errored, Some(error@), file) && step.flow
                == Flow::Release && final(session)@ == (SessionView {
                done_current: true,
                active: false,
                controls: final(session)@.controls,
                ..old(session)@
            })
            &&& kind == CommandKind::Goal ==> list == seq![
                ActionView::Emit(EventView::Error { message: error@ }),
            ] && step.flow == Flow::Release && final(session)@ == old(session)@
        }),
        kind == CommandKind::Steer && may is Some ==> {
            let controls = old(session)@.controls;
            forall|i: int|
                #[trigger] first_named(controls, text@, i) ==> final(session)@.controls == if i
                    < controls.len() {
                    controls.remove(i)
                } else {
                    controls
                }
        },
{
    let controls = old(session)@.controls;
    assert forall|i: int|
        kind == CommandKind::Steer && may is Some && #[trigger] first_named(
            controls,
            text@,
            i,
        ) implies final(session)@.controls == if i < controls.len() {
        controls.remove(i)
    } else {
        controls
    } by {
        lemma_position_is(controls, text@, i);
    }
}

/// The newest wait that fails ends the turn with its error, and the session
/// where the user can say no more; a wait for rest that fails is an error alone.
/// An older wait that fails does nothing.
pub proof fn a_wait_that_fails_counts_if_it_is_the_newest(
    session: &mut Session,
    number: u64,
    completion: bool,
    text: &str,
    leading: Option<(&str, &str)>,
    error: String,
    step: Step,
)
    requires
        call_ensures(
            Session::on_failure,
            (
                session,
                if completion {
                    CommandKind::Completion(number)
                } else {
                    CommandKind::Quiescence(number)
                },
                text,
                leading,
                error,
            ),
            step,
        ),
    ensures
        number != old(session)@.generation ==> final(session)@ == old(session)@
            && step.actions@.len() == 0 && step.flow == Flow::Release,
        number == old(session)@.generation && completion ==> step.actions@.len() == 1 && is_end(
            actions(step.actions@)[0],
            DoneStatus::Errored,
            Some(error@),
            old(session)@.session_file,
        ) && final(session)@ == (SessionView {
            completion_pending: false,
            active: false,
            done_current: true,
            ..old(session)@
        }) && step.flow == if old(session)@.steering_open {
            Flow::Release
        } else {
            Flow::End
        },
        number == old(session)@.generation && !completion ==> actions(step.actions@) == seq![
            ActionView::Emit(EventView::Error { message: error@ }),
        ] && final(session)@ == old(session)@ && step.flow == Flow::Release,
{
    assert(actions(step.actions@).len() == step.actions@.len());
}

/// The end of a turn is told first, as it was given. Work in the background is
/// told next, where the session is said to be active: whether children run,
/// whether a shell runs, and how much is unfinished. Last the rest is waited
/// for, unless the user can say no more: then the session ends.
pub proof fn the_end_of_a_turn_is_told(
    session: &mut Session,
    number: u64,
    status: DoneStatus,
    error: Option<String>,
    summary: Option<&Json>,
    step: Step,
)
    requires
        call_ensures(Session::on_end, (session, number, status, error, summary), step),
    ensures
        ({
            let list = actions(step.actions@);
            let busy = summary matches Some(summary) && summary@.get("isSessionActive"@) == Some(
                JsonView::Bool(true),
            );
            let open = old(session)@.steering_open;
            &&& list.len() == 1 + (if busy {
                1int
            } else {
                0
            }) + (if open {
                1int
            } else {
                0
            })
            &&& is_end(list[0], status, opt_text(error), old(session)@.session_file)
            &&& busy ==> is_phase(list[1], "background"@) && (list[1] matches ActionView::Emit(
                EventView::PrimeEvent { event },
            ) && event.get("hasRunningRlmChildren"@) == Some(
                summary->0@.at("hasRunningRlmChildren"@),
            ) && event.get("isBashRunning"@) == Some(summary->0@.at("isBashRunning"@)) && event.get(
                "unfinishedActionCount"@,
            ) == Some(summary->0@.at("unfinishedActionCount"@)))
            &&& open ==> list.last() == (ActionView::AwaitQuiescence { generation: number })
                && step.flow == Flow::Release
            &&& !open ==> step.flow == Flow::End
        }),
        final(session)@ == (SessionView {
            active: false,
            done_current: true,
            mapper: final(session)@.mapper,
            ..old(session)@
        }),
        final(session)@.mapper.failure is None && final(session)@.mapper.active_bash is None,
        final(session)@.mapper.next_bash_id == 0,
{
    broadcast use lemma_get_set;

    match summary {
        Some(summary) => {
            reveal_strlit("type");
            reveal_strlit("phase");
            reveal_strlit("hasRunningRlmChildren");
            reveal_strlit("isBashRunning");
            reveal_strlit("unfinishedActionCount");
            assert("type"@.len() == 4);
            assert("phase"@.len() == 5);
            assert("hasRunningRlmChildren"@.len() == 21);
            assert("isBashRunning"@.len() == 13);
            assert("unfinishedActionCount"@.len() == 21);
            assert("hasRunningRlmChildren"@[0] == 'h');
            assert("unfinishedActionCount"@[0] == 'u');
            lemma_phase("background"@);
            let a = lifecycle("background"@);
            assert(a is Object);
            let b = a.set("hasRunningRlmChildren"@, summary@.at("hasRunningRlmChildren"@));
            assert(b is Object);
            let c = b.set("isBashRunning"@, summary@.at("isBashRunning"@));
            assert(c is Object);
        },
        None => {},
    }
}

/// The word that the transport is closed ends the session. It is told that the
/// session was disconnected, and the reason is kept.
pub proof fn a_closed_transport_is_told(session: &mut Session, message: Json, step: Step)
    requires
        call_ensures(Session::on_message, (session, &message), step),
        says(message@, "type"@, "_transport_closed"@),
    ensures
        step.actions@.len() == 1,
        is_phase(actions(step.actions@)[0], "disconnected"@),
        step.flow == Flow::End,
        final(session)@ == (SessionView {
            transport_error: match message@.get("error"@) {
                Some(JsonView::Text(text)) => Some(text),
                _ => None,
            },
            ..old(session)@
        }),
{
    lemma_kinds();
    lemma_phase("disconnected"@);
    assert(preamble(message@) =~= Seq::<ActionView>::empty());
    assert(actions(step.actions@) =~= read(old(session)@, message@).1);
    assert(actions(step.actions@).len() == step.actions@.len());
}

/// A turn that the agent starts on is under way. With a daemon it is waited for,
/// where it comes after the end of one and no wait is open.
pub proof fn a_turn_that_starts_is_under_way(
    session: &mut Session,
    message: Json,
    public: Json,
    step: Step,
)
    requires
        call_ensures(Session::on_message, (session, &message), step),
        call_ensures(without_image_data, (&message,), public),
        says(message@, "type"@, "agent_start"@),
    ensures
        ({
            let s = old(session)@;
            let waits = s.daemon && s.done_current && !s.completion_pending;
            &&& waits ==> actions(step.actions@) == opening(message@, public@).push(
                ActionView::AwaitCompletion { generation: number_after(s.generation) },
            ) && final(session)@ == (SessionView {
                active: true,
                done_current: false,
                completion_pending: true,
                generation: number_after(s.generation),
                ..s
            })
            &&& !waits ==> actions(step.actions@) == opening(message@, public@) && final(session)@
                == (SessionView { active: true, done_current: false, ..s })
        }),
        step.flow == Flow::Release,
{
    lemma_kinds();
    lemma_opening(message@);
    let head = preamble(message@);
    let tail = read(old(session)@, message@).1;
    if tail.len() > 0 {
        assert(head + tail =~= head.push(tail[0]));
    } else {
        assert(head + tail =~= head);
    }
}

/// The end of the agent's turn, of an agent that runs as a process, is told as
/// the end of the turn: with the failure of the agent's last answer, or as
/// completed where it did not fail. What was remembered of the turn is
/// forgotten, and the session ends where the user can say no more. With a daemon
/// it ends nothing.
pub proof fn the_end_of_a_process_turn_is_told(
    session: &mut Session,
    message: Json,
    public: Json,
    step: Step,
)
    requires
        call_ensures(Session::on_message, (session, &message), step),
        call_ensures(without_image_data, (&message,), public),
        says(message@, "type"@, "agent_end"@),
    ensures
        ({
            let s = old(session)@;
            let end = ActionView::Emit(
                EventView::Done {
                    status: if s.mapper.failure is Some {
                        DoneStatus::Errored
                    } else {
                        DoneStatus::Completed
                    },
                    result: None,
                    error: s.mapper.failure,
                    session_id: Some(s.session_file),
                },
            );
            &&& !s.daemon ==> actions(step.actions@) == opening(message@, public@).push(end)
                && final(session)@ == (SessionView {
                active: false,
                done_current: true,
                mapper: final(session)@.mapper,
                ..s
            }) && final(session)@.mapper.failure is None && final(session)@.mapper.active_bash
                is None && final(session)@.mapper.next_bash_id == 0 && step.flow
                == if s.steering_open {
                Flow::Release
            } else {
                Flow::End
            }
            &&& s.daemon ==> actions(step.actions@) == opening(message@, public@) && final(session)@
                == s && step.flow == Flow::Wait
        }),
{
    lemma_kinds();
    lemma_opening(message@);
    let head = preamble(message@);
    let tail = read(old(session)@, message@).1;
    if tail.len() > 0 {
        assert(head + tail =~= head.push(tail[0]));
    } else {
        assert(head + tail =~= head);
    }
}

/// Whether a message holds the result of a command of the session.
pub open spec fn is_result(message: JsonView) -> bool {
    says(message, "type"@, "message_end"@) && says(
        message.at("message"@),
        "customType"@,
        "session_slash_command_result"@,
    )
}

/// The result of a command that is yet to be answered: a failure is kept with
/// its error for the end of the command, and what is to be displayed is shown as
/// text. The result of any other command does nothing.
pub proof fn the_result_of_a_command_is_taken_in(
    session: &mut Session,
    message: Json,
    public: Json,
    step: Step,
    text: Seq<char>,
    i: int,
)
    requires
        call_ensures(Session::on_message, (session, &message), step),
        call_ensures(without_image_data, (&message,), public),
        is_result(message@),
        says(message@.at("message"@).at("details"@).at("command"@), "text"@, text),
        first_named(old(session)@.controls, text, i),
    ensures
        ({
            let result = message@.at("message"@);
            let failed = result.at("details"@).get("success"@) == Some(JsonView::Bool(false));
            let known = i < old(session)@.controls.len();
            let head = opening(message@, public@);
            &&& step.flow == Flow::Release
            &&& known && failed ==> actions(step.actions@) == head && final(session)@
                == (SessionView {
                controls: old(session)@.controls.update(
                    i,
                    (
                        text,
                        ControlView {
                            error: Some(
                                match result.at("details"@).get("error"@) {
                                    Some(JsonView::Text(error)) => error,
                                    _ => "Prime command failed"@,
                                },
                            ),
                            ..old(session)@.controls[i].1
                        },
                    ),
                ),
                ..old(session)@
            })
            &&& known && !failed ==> final(session)@ == old(session)@ && actions(step.actions@)
                == match (result.get("display"@), result.get("content"@)) {
                (Some(JsonView::Bool(true)), Some(JsonView::Text(content))) => head.push(
                    ActionView::Emit(EventView::TextDelta { text: content }),
                ),
                _ => head,
            }
            &&& !known ==> actions(step.actions@) == head && final(session)@ == old(session)@
        }),
{
    lemma_kinds();
    lemma_opening(message@);
    lemma_position_is(old(session)@.controls, text, i);
    let head = preamble(message@);
    let tail = read(old(session)@, message@).1;
    if tail.len() > 0 {
        assert(head + tail =~= head.push(tail[0]));
    } else {
        assert(head + tail =~= head);
    }
}

/// A result that names no command does nothing.
pub proof fn a_result_of_no_command_is_passed_over(
    session: &mut Session,
    message: Json,
    public: Json,
    step: Step,
)
    requires
        call_ensures(Session::on_message, (session, &message), step),
        call_ensures(without_image_data, (&message,), public),
        is_result(message@),
        forall|text: Seq<char>|
            !#[trigger] says(
                message@.at("message"@).at("details"@).at("command"@),
                "text"@,
                text,
            ),
    ensures
        actions(step.actions@) == opening(message@, public@),
        final(session)@ == old(session)@,
        step.flow == Flow::Release,
{
    lemma_kinds();
    lemma_opening(message@);
    let command = message@.at("message"@).at("details"@).at("command"@);
    match command.get("text"@) {
        Some(JsonView::Text(text)) => {
            assert(!says(command, "text"@, text));
        },
        _ => {},
    }
    let head = preamble(message@);
    let tail = read(old(session)@, message@).1;
    assert(head + tail =~= head);
}

/// A status of the autonomous mode is shown as text if and only if a command on
/// that mode is yet to be answered.
pub proof fn an_autonomous_status_is_shown_where_it_was_asked_for(
    session: &mut Session,
    message: Json,
    public: Json,
    step: Step,
)
    requires
        call_ensures(Session::on_message, (session, &message), step),
        call_ensures(without_image_data, (&message,), public),
        says(message@, "type"@, "message_end"@),
        says(message@.at("message"@), "customType"@, "autonomous_status"@),
    ensures
        final(session)@ == old(session)@,
        step.flow == Flow::Release,
        ({
            let controls = old(session)@.controls;
            let asked = exists|i: int|
                0 <= i < controls.len() && "/autonomous"@.is_prefix_of((#[trigger] controls[i]).0);
            actions(step.actions@) == match message@.at("message"@).get("content"@) {
                Some(JsonView::Text(content)) => if asked {
                    opening(message@, public@).push(
                        ActionView::Emit(EventView::TextDelta { text: content }),
                    )
                } else {
                    opening(message@, public@)
                },
                _ => opening(message@, public@),
            }
        }),
{
    lemma_kinds();
    reveal_strlit("session_slash_command_result");
    reveal_strlit("autonomous_status");
    assert("session_slash_command_result"@.len() == 28);
    assert("autonomous_status"@.len() == 17);
    lemma_opening(message@);
    let controls = old(session)@.controls;
    if has_autonomous(controls) {
        let i = choose|i: int|
            0 <= i < controls.len() && after_prefix((#[trigger] controls[i]).0, "/autonomous"@)
                is Some;
        assert("/autonomous"@.is_prefix_of(controls[i].0));
    }
    if exists|i: int|
        0 <= i < controls.len() && "/autonomous"@.is_prefix_of((#[trigger] controls[i]).0) {
        let i = choose|i: int|
            0 <= i < controls.len() && "/autonomous"@.is_prefix_of((#[trigger] controls[i]).0);
        assert(after_prefix(controls[i].0, "/autonomous"@) is Some);
    }
    let head = preamble(message@);
    let tail = read(old(session)@, message@).1;
    if tail.len() > 0 {
        assert(head + tail =~= head.push(tail[0]));
    } else {
        assert(head + tail =~= head);
    }
}

/// The first command that is yet to be answered has started when it is under
/// way, and is over when it has started and is under way no more. Of an agent
/// that runs as a process its end is then the end of the turn, with its error if
/// it failed, unless it has led on to a turn of the agent.
pub proof fn a_command_is_over_when_it_is_under_way_no_more(
    session: &mut Session,
    message: Json,
    public: Json,
    step: Step,
)
    requires
        call_ensures(Session::on_message, (session, &message), step),
        call_ensures(without_image_data, (&message,), public),
        says(message@, "type"@, "session_action_update"@),
    ensures
        ({
            let s = old(session)@;
            let news = message@.at("actions"@);
            let head = opening(message@, public@);
            if s.controls.len() == 0 {
                final(session)@ == s && actions(step.actions@) == head && step.flow == Flow::Release
            } else if says(news.at("active"@), "label"@, s.controls[0].0) {
                &&& actions(step.actions@) == head
                &&& step.flow == Flow::Release
                &&& final(session)@ == (SessionView {
                    controls: s.controls.update(
                        0,
                        (s.controls[0].0, ControlView { started: true, ..s.controls[0].1 }),
                    ),
                    ..s
                })
            } else if !s.controls[0].1.started {
                final(session)@ == s && actions(step.actions@) == head && step.flow == Flow::Release
            } else {
                let command = s.controls[0].1;
                let leads_on = command.may_start_turn && command.error is None && (says(
                    news.at("active"@),
                    "kind"@,
                    "turn"@,
                ) || (news.get("queuedCount"@) matches Some(
                    JsonView::Number(NumberView::Unsigned(count)),
                ) && count > 0));
                &&& leads_on || s.daemon ==> actions(step.actions@) == head && final(session)@
                    == (SessionView { controls: s.controls.remove(0), ..s }) && step.flow
                    == Flow::Release
                &&& !leads_on && !s.daemon ==> actions(step.actions@) == head.push(
                    ActionView::Emit(
                        EventView::Done {
                            status: if command.error is Some {
                                DoneStatus::Errored
                            } else {
                                DoneStatus::Completed
                            },
                            result: None,
                            error: command.error,
                            session_id: Some(s.session_file),
                        },
                    ),
                ) && final(session)@ == (SessionView {
                    active: false,
                    done_current: true,
                    controls: s.controls.remove(0),
                    ..s
                }) && step.flow == if s.steering_open {
                    Flow::Release
                } else {
                    Flow::End
                }
            }
        }),
{
    lemma_kinds();
    lemma_opening(message@);
    let head = preamble(message@);
    let tail = read(old(session)@, message@).1;
    if tail.len() > 0 {
        assert(head + tail =~= head.push(tail[0]));
    } else {
        assert(head + tail =~= head);
    }
}

/// A snapshot of a child is taken in as it came.
pub proof fn a_snapshot_of_a_child_is_taken_in(
    session: &mut Session,
    message: Json,
    public: Json,
    step: Step,
)
    requires
        call_ensures(Session::on_message, (session, &message), step),
        call_ensures(without_image_data, (&message,), public),
        says(message@, "type"@, "rlm_child_update"@),
    ensures
        actions(step.actions@) == opening(message@, public@).push(
            ActionView::UpdateChild { child: message@.at("child"@) },
        ),
        final(session)@ == old(session)@,
        step.flow == Flow::Release,
{
    lemma_kinds();
    lemma_opening(message@);
    let head = preamble(message@);
    let tail = read(old(session)@, message@).1;
    assert(head + tail =~= head.push(tail[0]));
}

/// The snapshots of the children that are queued or run, in order.
pub open spec fn live_children(list: Seq<JsonView>) -> Seq<ActionView>
    decreases list.len(),
{
    if list.len() == 0 {
        Seq::empty()
    } else if says(list.last(), "status"@, "queued"@) || says(list.last(), "status"@, "running"@) {
        live_children(list.drop_last()).push(ActionView::UpdateChild { child: list.last() })
    } else {
        live_children(list.drop_last())
    }
}

proof fn lemma_live_children(list: Seq<JsonView>)
    ensures
        somes(list.map_values(|child: JsonView| at_work(child))) == live_children(list),
    decreases list.len(),
{
    if list.len() > 0 {
        let before = list.drop_last();
        lemma_live_children(before);
        let all = list.map_values(|child: JsonView| at_work(child));
        assert(all.drop_last() =~= before.map_values(|child: JsonView| at_work(child)));
        assert(all.last() == at_work(list.last()));
    }
}

/// A session that is attached to, read anew or replaced brings up its children
/// that are queued or run, in order, and no others.
pub proof fn an_attached_session_brings_up_its_children(
    session: &mut Session,
    message: Json,
    public: Json,
    step: Step,
)
    requires
        call_ensures(Session::on_message, (session, &message), step),
        call_ensures(without_image_data, (&message,), public),
        says(message@, "type"@, "session_attached"@) || says(
            message@,
            "type"@,
            "session_resynced"@,
        ) || says(message@, "type"@, "session_replaced"@),
    ensures
        actions(step.actions@) == match message@.at("snapshot"@).get("children"@) {
            Some(JsonView::Array(list)) => opening(message@, public@) + live_children(list),
            _ => opening(message@, public@),
        },
        final(session)@ == old(session)@,
        step.flow == Flow::Release,
{
    lemma_kinds();
    lemma_opening(message@);
    match message@.at("snapshot"@).get("children"@) {
        Some(JsonView::Array(list)) => {
            lemma_live_children(list);
        },
        _ => {
            assert(preamble(message@) + Seq::<ActionView>::empty() =~= preamble(message@));
        },
    }
}

/// What an observed session tells reaches the children, and what comes of it is
/// told.
pub proof fn what_is_overheard_reaches_the_children(
    session: &mut Session,
    message: Json,
    public: Json,
    step: Step,
    children: &mut Children,
    found: Vec<AgentEvent>,
)
    requires
        call_ensures(Session::on_message, (session, &message), step),
        call_ensures(without_image_data, (&message,), public),
        call_ensures(Children::observed, (children, &message), found),
        old(children)@ == old(session)@.children,
        says(message@, "type"@, "observed_session_event"@) || says(
            message@,
            "type"@,
            "observed_session_closed"@,
        ),
    ensures
        final(session)@.children == final(children)@,
        final(session)@ == (SessionView { children: final(children)@, ..old(session)@ }),
        step.flow == Flow::Release,
        ({
            let list = actions(step.actions@);
            let head = opening(message@, public@);
            &&& list.len() == head.len() + found@.len()
            &&& list.take(head.len() as int) == head
            &&& forall|k: int|
                0 <= k < found@.len() ==> list[head.len() + k] == ActionView::Emit(
                    (#[trigger] found@[k])@,
                )
        }),
{
    lemma_kinds();
    lemma_opening(message@);
    let head = opening(message@, public@);
    let list = actions(step.actions@);
    assert(list == head + emits(events(found@)));
    assert(list.take(head.len() as int) =~= head);
    assert forall|k: int| 0 <= k < found@.len() implies list[head.len() + k] == ActionView::Emit(
        (#[trigger] found@[k])@,
    ) by {
        assert(events(found@)[k] == found@[k]@);
        assert(list[head.len() + k] == emits(events(found@))[k]);
    }
}

/// A question of an extension that has a name is put to the user, once, if its
/// method is one that asks; one with another method is not, and one without a
/// name is passed over.
pub proof fn a_question_of_an_extension_is_put_to_the_user(
    session: &mut Session,
    message: Json,
    public: Json,
    step: Step,
    id: &str,
    question: UserInputQuestion,
)
    requires
        call_ensures(Session::on_message, (session, &message), step),
        call_ensures(without_image_data, (&message,), public),
        call_ensures(read_question, (&message, id), question),
        says(message@, "type"@, "extension_ui_request"@),
    ensures
        final(session)@ == old(session)@,
        says(message@, "id"@, id@) ==> forall|method: Seq<char>|
            says(message@, "method"@, method) && (method == "select"@ || method == "confirm"@
                || method == "input"@ || method == "editor"@) ==> actions(step.actions@)
                == #[trigger] opening(message@, public@).push(
                ActionView::Ask { question: question@, method },
            ),
        says(message@, "id"@, id@) && !says(message@, "method"@, "select"@) && !says(
            message@,
            "method"@,
            "confirm"@,
        ) && !says(message@, "method"@, "input"@) && !says(message@, "method"@, "editor"@)
            ==> actions(step.actions@) == opening(message@, public@),
        !(message@.get("id"@) matches Some(JsonView::Text(_))) ==> actions(step.actions@)
            == opening(message@, public@) && step.flow == Flow::Wait,
        says(message@, "id"@, id@) ==> step.flow == Flow::Release,
        question.id@ == id@,
{
    lemma_kinds();
    lemma_opening(message@);
    reveal_strlit("");
    reveal_strlit("select");
    reveal_strlit("confirm");
    reveal_strlit("input");
    reveal_strlit("editor");
    assert(""@.len() == 0);
    assert("select"@.len() == 6);
    assert("confirm"@.len() == 7);
    assert("input"@.len() == 5);
    assert("editor"@.len() == 6);
    assert("select"@[0] == 's');
    assert("editor"@[0] == 'e');
    let head = preamble(message@);
    let tail = read(old(session)@, message@).1;
    if tail.len() > 0 {
        assert(head + tail =~= head.push(tail[0]));
    } else {
        assert(head + tail =~= head);
    }
    assert(question@.id == question.id@);
}

/// The events that are not a message of the user's, in order.
pub open spec fn visible(list: Seq<EventView>) -> Seq<ActionView>
    decreases list.len(),
{
    if list.len() == 0 {
        Seq::empty()
    } else if list.last() is UserMessage {
        visible(list.drop_last())
    } else {
        visible(list.drop_last()).push(ActionView::Emit(list.last()))
    }
}

/// What is shown is what is visible.
pub proof fn lemma_visible(list: Seq<EventView>)
    ensures
        shows(list) == visible(list),
    decreases list.len(),
{
    if list.len() > 0 {
        lemma_visible(list.drop_last());
        let all = list.map_values(|e: EventView| shown(e));
        assert(all.drop_last() =~= list.drop_last().map_values(|e: EventView| shown(e)));
    }
}

/// What the agent tells otherwise is shown as the mapper has it, in order, but
/// for the user's own messages.
pub proof fn what_the_agent_tells_is_shown(
    session: &mut Session,
    message: Json,
    public: Json,
    step: Step,
    mapper: &mut EventMapper,
    found: Vec<AgentEvent>,
)
    requires
        call_ensures(Session::on_message, (session, &message), step),
        call_ensures(without_image_data, (&message,), public),
        call_ensures(EventMapper::map, (mapper, &message), found),
        old(mapper)@ == old(session)@.mapper,
        !says(message@, "type"@, "_transport_closed"@),
        !says(message@, "type"@, "agent_start"@),
        !says(message@, "type"@, "agent_end"@),
        !says(message@, "type"@, "session_action_update"@),
        !says(message@, "type"@, "rlm_child_update"@),
        !says(message@, "type"@, "session_attached"@),
        !says(message@, "type"@, "session_resynced"@),
        !says(message@, "type"@, "session_replaced"@),
        !says(message@, "type"@, "observed_session_event"@),
        !says(message@, "type"@, "observed_session_closed"@),
        !says(message@, "type"@, "extension_ui_request"@),
        !is_result(message@),
        !(says(message@, "type"@, "message_end"@) && says(
            message@.at("message"@),
            "customType"@,
            "autonomous_status"@,
        )),
    ensures
        final(session)@ == (SessionView { mapper: final(mapper)@, ..old(session)@ }),
        actions(step.actions@) == opening(message@, public@) + visible(events(found@)),
        step.flow == Flow::Release,
{
    lemma_opening(message@);
    lemma_visible(events(found@));
}

/// A message of the user's is sent to the agent as it is. No other is heard
/// until it is taken in, unless it is a command on the goal, which has no name.
/// One that is a command of the session is yet to be answered then.
pub proof fn a_message_of_the_user_is_sent(
    session: &mut Session,
    next: SteerMessage,
    leading: Option<(&str, &str)>,
    step: Step,
    may: Option<bool>,
    prompt: &str,
)
    requires
        call_ensures(Session::on_steer, (session, next, leading), step),
        call_ensures(session_command_may_start_turn, (prompt, leading), may),
        prompt@ == next.prompt@,
    ensures
        step.flow == Flow::Release,
        next.message_id is Some ==> {
            &&& actions(step.actions@) == seq![
                ActionView::Prompt { text: next.prompt@, kind: CommandKind::Steer },
            ]
            &&& final(session)@ == (SessionView {
                steering_pending: true,
                controls: match may {
                    Some(may) => old(session)@.controls.push(
                        (
                            next.prompt@,
                            ControlView { started: false, error: None, may_start_turn: may },
                        ),
                    ),
                    None => old(session)@.controls,
                },
                ..old(session)@
            })
        },
        next.message_id is None ==> actions(step.actions@) == seq![
            ActionView::Prompt { text: next.prompt@, kind: CommandKind::Goal },
        ] && final(session)@ == old(session)@,
{
}

/// A user who can say no more ends a session that is not at work; one that is
/// goes on.
pub proof fn a_user_who_is_gone_ends_an_idle_session(session: &mut Session, step: Step)
    requires
        call_ensures(Session::on_steering_closed, (session,), step),
    ensures
        final(session)@ == (SessionView { steering_open: false, ..old(session)@ }),
        step.actions@.len() == 0,
        step.flow == Flow::End <==> !old(session)@.active,
        old(session)@.active ==> step.flow == Flow::Release,
{
    assert(actions(step.actions@).len() == step.actions@.len());
}

/// An interrupt tells the agent to stop, tells that the turn was interrupted,
/// and ends the session.
pub proof fn an_interrupt_ends_the_session(session: &mut Session, step: Step)
    requires
        call_ensures(Session::on_interrupt, (session,), step),
    ensures
        step.actions@.len() == 2,
        actions(step.actions@)[0] == ActionView::Abort,
        is_end(
            actions(step.actions@)[1],
            DoneStatus::Interrupted,
            None,
            old(session)@.session_file,
        ),
        step.flow == Flow::End,
        final(session)@ == (SessionView {
            interrupted: true,
            done_current: true,
            ..old(session)@
        }),
{
    assert(actions(step.actions@).len() == step.actions@.len());
}

/// The passing of time tells of the children that are due to end, and of nothing
/// else.
pub proof fn time_ends_the_children_that_are_due(
    session: &mut Session,
    now: u64,
    step: Step,
    children: &mut Children,
    found: Vec<AgentEvent>,
)
    requires
        call_ensures(Session::on_tick, (session, now), step),
        call_ensures(Children::settle_due, (children, now), found),
        old(children)@ == old(session)@.children,
    ensures
        step.actions@.len() == found@.len(),
        forall|k: int|
            0 <= k < found@.len() ==> actions(step.actions@)[k] == ActionView::Emit(
                (#[trigger] found@[k])@,
            ),
        final(session)@ == (SessionView { children: final(children)@, ..old(session)@ }),
        step.flow == Flow::Release,
{
    assert(actions(step.actions@).len() == step.actions@.len());
    assert(events(found@).len() == found@.len());
    assert forall|k: int| 0 <= k < found@.len() implies actions(step.actions@)[k]
        == ActionView::Emit((#[trigger] found@[k])@) by {
        assert(events(found@)[k] == found@[k]@);
    }
}

/// The user is heard while the user can say something, the session was not
/// interrupted, and no message of the user's waits to be taken in.
pub proof fn the_user_is_heard_one_message_at_a_time(session: Session, hears: bool)
    requires
        call_ensures(Session::hears_user, (&session,), hears),
    ensures
        hears <==> session@.steering_open && !session@.interrupted && !session@.steering_pending,
{
}

/// A session breaks off if it is at work, has told of no end and was not
/// interrupted.
pub proof fn a_session_at_work_breaks_off(session: Session, off: bool)
    requires
        call_ensures(Session::breaks_off, (&session,), off),
    ensures
        off <==> session@.active && !session@.done_current && !session@.interrupted,
{
}

/// A session that is closed ends its open children, and then its turn, if it
/// breaks off: with the crash of its process, or the reason for which the
/// transport was closed, or else with the word that it ended too soon.
pub proof fn a_closed_session_ends_its_turn(
    session: &mut Session,
    crash: Option<String>,
    found: Vec<AgentEvent>,
    children: &mut Children,
    ends: Vec<AgentEvent>,
)
    requires
        call_ensures(Session::close, (session, crash), found),
        call_ensures(Children::finish_open, (children,), ends),
        old(children)@ == old(session)@.children,
    ensures
        ({
            let s = old(session)@;
            let off = s.active && !s.done_current && !s.interrupted;
            &&& !off ==> events(found@) == events(ends@)
            &&& off ==> events(found@) == events(ends@).push(
                EventView::Done {
                    status: DoneStatus::Errored,
                    result: None,
                    error: Some(
                        match (crash, s.transport_error) {
                            (Some(crash), _) => crash@,
                            (None, Some(reason)) => reason,
                            (None, None) => "Prime daemon session ended before completion"@,
                        },
                    ),
                    session_id: Some(s.session_file),
                },
            )
        }),
        final(session)@.children == final(children)@,
{
}

} // verus!
