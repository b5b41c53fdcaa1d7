//! What holds of every session.

use vstd::prelude::*;

#[allow(unused_imports)]
use crate::actions::{emits, shown, shows, ActionView, CommandKind};
#[allow(unused_imports)]
use crate::children::{
    cut_off, due_ends, open_ends, overheard, settled_if_due, ChildView, Roster,
};
#[allow(unused_imports)]
use crate::events::{
    is_in_turn, mapped, mapping_never_ends_a_turn, message_failure, MapperView,
};
#[allow(unused_imports)]
use crate::invocation::command_starts_turn;
#[allow(unused_imports)]
use crate::json::{lemma_get_set, JsonView};
#[allow(unused_imports)]
use crate::lists::{lemma_somes_from, somes};
#[allow(unused_imports)]
use crate::media::{
    carries_media, scrubbed, scrubbed_carries_no_media, scrubbing_keeps_what_has_no_media,
};
#[allow(unused_imports)]
use crate::proto::{done, DoneStatus, EventView};
#[allow(unused_imports)]
use crate::requests::closing;
#[allow(unused_imports)]
use crate::session::{
    acted, agent_ended, answered, at_work, awaiting, broken_off, completed,
    end_by_error, failed, is_custom, last_words, lifecycle, opened, preamble, read, received,
    stopped, succeeded, ticked, told, unheard, Flow, SessionView, StepView,
};

verus! {

/// Something that happens to a session.
#[allow(inconsistent_fields)]
pub enum Happening {
    Success { kind: CommandKind },
    Failure { kind: CommandKind, text: Seq<char>, command: Option<bool>, error: Seq<char> },
    TurnEnd {
        generation: u64,
        end: (DoneStatus, Option<Seq<char>>),
        summary: Option<JsonView>,
    },
    Message { message: JsonView },
    User { prompt: Seq<char>, named: bool, leading: Option<(Seq<char>, Seq<char>)> },
    UserGone,
    Interrupt,
    Tick { now: u64 },
}

/// What a session makes of something that happens.
pub open spec fn step(s: SessionView, h: Happening) -> StepView {
    match h {
        Happening::Success { kind } => succeeded(s, kind),
        Happening::Failure { kind, text, command, error } => failed(s, kind, text, command, error),
        Happening::TurnEnd { generation, end, summary } => completed(s, generation, end, summary),
        Happening::Message { message } => received(s, message),
        Happening::User { prompt, named, leading } => told(s, prompt, named, leading),
        Happening::UserGone => unheard(s),
        Happening::Interrupt => stopped(s),
        Happening::Tick { now } => ticked(s, now),
    }
}

/// Whether an action tells that a turn of the session ended.
pub open spec fn is_turn_end(action: ActionView) -> bool {
    match action {
        ActionView::Emit(event) => event is Done,
        _ => false,
    }
}

/// Whether a list of actions tells that a turn of the session ended.
pub open spec fn ends_turn(list: Seq<ActionView>) -> bool {
    exists|k: int| 0 <= k < list.len() && is_turn_end(#[trigger] list[k])
}

/// Whether an action passes on an event as part of the session, be it of a
/// child, without ending a turn or repeating the user's words.
pub open spec fn is_passing(action: ActionView) -> bool {
    match action {
        ActionView::Emit(event) => !(event is Done) && !(event is UserMessage),
        ActionView::Abort => false,
        _ => true,
    }
}

/// Whether every action of a list passes something on.
pub open spec fn all_passing(list: Seq<ActionView>) -> bool {
    forall|k: int| 0 <= k < list.len() ==> is_passing(#[trigger] list[k])
}

proof fn lemma_overheard_passing(roster: Roster, message: JsonView)
    ensures
        all_passing(emits(overheard(roster, message).1)),
{
    let found = overheard(roster, message).1;
    assert forall|k: int| 0 <= k < found.len() implies is_passing(
        #[trigger] emits(found)[k],
    ) by {
        assert(found[k] is Subagent);
    }
}

proof fn lemma_due_passing(roster: Roster, now: u64)
    ensures
        all_passing(emits(due_ends(roster, now))),
{
    let list = roster.map_values(|entry: (Seq<char>, ChildView)| settled_if_due(entry, now).1);
    let found = due_ends(roster, now);
    assert forall|k: int| 0 <= k < found.len() implies is_passing(
        #[trigger] emits(found)[k],
    ) by {
        lemma_somes_from(list, k);
        assert(found[k] is Subagent);
    }
}

proof fn lemma_shows_passing(found: Seq<EventView>)
    requires
        forall|k: int| 0 <= k < found.len() ==> is_in_turn(#[trigger] found[k]),
    ensures
        all_passing(shows(found)),
{
    let list = found.map_values(|event: EventView| shown(event));
    assert forall|k: int| 0 <= k < shows(found).len() implies is_passing(
        #[trigger] shows(found)[k],
    ) by {
        lemma_somes_from(list, k);
        let i = choose|i: int| 0 <= i < list.len() && list[i] == Some(#[trigger] somes(list)[k]);
        assert(is_in_turn(found[i]));
    }
}

proof fn lemma_updates_passing(list: Seq<JsonView>)
    ensures
        all_passing(somes(list.map_values(|child: JsonView| at_work(child)))),
{
    let all = list.map_values(|child: JsonView| at_work(child));
    assert forall|k: int| 0 <= k < somes(all).len() implies is_passing(
        #[trigger] somes(all)[k],
    ) by {
        lemma_somes_from(all, k);
    }
}

/// What the reading of a message asks for passes things on, but for at most one
/// word, and that the last, that a turn ended; and a daemon's message ends none.
proof fn lemma_read(s: SessionView, message: JsonView)
    ensures
        ({
            let (next, list, flow) = read(s, message);
            ||| all_passing(list)
            ||| !s.daemon && list.len() == 1 && is_turn_end(list[0]) && list[0]
                == ActionView::Emit(
                EventView::Done {
                    status: list[0]->Emit_0->status,
                    result: None,
                    error: list[0]->Emit_0->Done_error,
                    session_id: Some(s.session_file),
                },
            ) && next.done_current && !next.active && (s.steering_open || flow == Flow::End)
        }),
{
    mapping_never_ends_a_turn(s.mapper, message);
    lemma_shows_passing(mapped(s.mapper, message).1);
    lemma_overheard_passing(s.children, message);
    match message.at("snapshot"@).at("children"@).as_array() {
        Some(list) => {
            lemma_updates_passing(list);
        },
        None => {},
    }
}

proof fn lemma_preamble_passing(message: JsonView)
    ensures
        all_passing(preamble(message)),
{
}

/// The request for how a turn ended.
pub open spec fn collecting(generation: u64) -> ActionView {
    ActionView::CollectEnd { generation }
}

proof fn lemma_collects_nothing(s: SessionView, message: JsonView)
    ensures
        forall|k: int|
            0 <= k < received(s, message).1.len() ==> !((#[trigger] received(s, message).1[k])
                is CollectEnd),
{
    let head = preamble(message);
    let tail = read(s, message).1;
    let found = mapped(s.mapper, message).1;
    let shown_list = found.map_values(|event: EventView| shown(event));
    assert forall|k: int| 0 <= k < shows(found).len() implies !((#[trigger] shows(found)[k])
        is CollectEnd) by {
        lemma_somes_from(shown_list, k);
    }
    match message.at("snapshot"@).at("children"@).as_array() {
        Some(list) => {
            let all = list.map_values(|child: JsonView| at_work(child));
            assert forall|k: int| 0 <= k < somes(all).len() implies !((#[trigger] somes(all)[k])
                is CollectEnd) by {
                lemma_somes_from(all, k);
            }
        },
        None => {},
    }
    assert forall|k: int| 0 <= k < (head + tail).len() implies !((#[trigger] (head + tail)[k])
        is CollectEnd) by {
        if k >= head.len() {
            assert((head + tail)[k] == tail[k - head.len()]);
        }
    }
}

/// No message of a daemon ends a turn: not the end of a message, nor the end of
/// a try of the agent. A failed try that is tried again therefore cannot pass
/// for the end of the response.
pub proof fn a_daemon_message_ends_no_turn(s: SessionView, message: JsonView)
    requires
        s.daemon,
    ensures
        !ends_turn(received(s, message).1),
{
    lemma_read(s, message);
    lemma_preamble_passing(message);
    let head = preamble(message);
    let tail = read(s, message).1;
    assert forall|k: int| 0 <= k < (head + tail).len() implies !is_turn_end(
        #[trigger] (head + tail)[k],
    ) by {
        if k < head.len() {
            assert(is_passing(head[k]));
        } else {
            assert(is_passing(tail[k - head.len()]));
        }
    }
}

/// A turn of a daemon ends because its end was reported, because a request
/// failed or because the user interrupted it. The end is asked for only when
/// the wait of the current turn is over.
pub proof fn a_daemon_turn_ends_by_its_own_wait(s: SessionView, h: Happening)
    requires
        s.daemon,
    ensures
        ends_turn(step(s, h).1) ==> h is TurnEnd || h is Failure || h is Interrupt,
        forall|k: int, generation: u64|
            0 <= k < step(s, h).1.len() && #[trigger] step(s, h).1[k] == (
            #[trigger] collecting(generation)) ==> generation == s.generation && h
                == (Happening::Success { kind: CommandKind::Completion(generation) }),
{
    let list = step(s, h).1;
    match h {
        Happening::Message { message } => {
            a_daemon_message_ends_no_turn(s, message);
            lemma_collects_nothing(s, message);
        },
        Happening::Tick { now } => {
            lemma_due_passing(s.children, now);
            assert forall|k: int| 0 <= k < list.len() implies (#[trigger] list[k]) is Emit
                && !is_turn_end(list[k]) by {
                assert(is_passing(list[k]));
            }
        },
        _ => {},
    }
}

/// Every message of the agent, but the word that the transport is closed, is
/// handed on before anything else is made of it: without its media, and as it
/// came where it has none.
pub proof fn every_message_is_handed_on_first(s: SessionView, message: JsonView)
    requires
        message.field("type"@) != Some("_transport_closed"@),
    ensures
        received(s, message).1.len() > 0,
        received(s, message).1[0] == ActionView::Emit(
            EventView::PrimeEvent { event: scrubbed(message) },
        ),
        !carries_media(scrubbed(message)),
        !carries_media(message) ==> scrubbed(message) == message,
{
    scrubbed_carries_no_media(message);
    if !carries_media(message) {
        scrubbing_keeps_what_has_no_media(message);
    }
}

/// A wait that belongs to an earlier turn changes nothing, however it ends.
pub proof fn a_stale_wait_changes_nothing(
    s: SessionView,
    generation: u64,
    text: Seq<char>,
    command: Option<bool>,
    error: Seq<char>,
)
    requires
        generation != s.generation,
    ensures
        succeeded(s, CommandKind::Completion(generation)) == (
            s,
            Seq::<ActionView>::empty(),
            Flow::Release,
        ),
        succeeded(s, CommandKind::Quiescence(generation)) == (
            s,
            Seq::<ActionView>::empty(),
            Flow::Release,
        ),
        failed(s, CommandKind::Completion(generation), text, command, error) == (
            s,
            Seq::<ActionView>::empty(),
            Flow::Release,
        ),
        failed(s, CommandKind::Quiescence(generation), text, command, error) == (
            s,
            Seq::<ActionView>::empty(),
            Flow::Release,
        ),
{
}

/// A wait is stale once another is begun.
pub proof fn a_new_wait_makes_the_old_one_stale(s: SessionView)
    ensures
        succeeded(awaiting(s), CommandKind::Completion(s.generation)) == (
            awaiting(s),
            Seq::<ActionView>::empty(),
            Flow::Release,
        ),
        succeeded(awaiting(s), CommandKind::Quiescence(s.generation)) == (
            awaiting(s),
            Seq::<ActionView>::empty(),
            Flow::Release,
        ),
{
}

proof fn lemma_received(s: SessionView, message: JsonView)
    ensures
        ({
            let (next, list, flow) = received(s, message);
            let last = list.len() - 1;
            ||| all_passing(list)
            ||| 0 <= last && is_turn_end(list[last]) && list[last]->Emit_0->Done_session_id == Some(
                s.session_file,
            ) && next.done_current && !next.active && (s.steering_open || flow == Flow::End) && (
            forall|k: int| 0 <= k < last ==> is_passing(#[trigger] list[k]))
        }),
{
    lemma_read(s, message);
    lemma_preamble_passing(message);
    let head = preamble(message);
    let tail = read(s, message).1;
    let list = head + tail;
    assert forall|k: int| 0 <= k < list.len() implies (k < head.len() ==> is_passing(
        #[trigger] list[k],
    )) && (k >= head.len() && all_passing(tail) ==> is_passing(list[k])) by {
        if k < head.len() {
            assert(is_passing(head[k]));
        } else {
            assert(list[k] == tail[k - head.len()]);
        }
    }
    if !all_passing(tail) {
        assert(list[list.len() - 1] == tail[0]);
    }
}

/// A step tells of the end of at most one turn; the word names the session,
/// and afterwards the session knows that it was given.
pub proof fn a_step_ends_at_most_one_turn(s: SessionView, h: Happening)
    ensures
        forall|i: int, j: int|
            0 <= i < step(s, h).1.len() && 0 <= j < step(s, h).1.len() && is_turn_end(
                #[trigger] step(s, h).1[i],
            ) && is_turn_end(#[trigger] step(s, h).1[j]) ==> i == j,
        forall|i: int|
            0 <= i < step(s, h).1.len() && is_turn_end(#[trigger] step(s, h).1[i]) ==> step(
                s,
                h,
            ).1[i]->Emit_0->Done_session_id == Some(s.session_file),
        ends_turn(step(s, h).1) ==> step(s, h).0.done_current,
{
    match h {
        Happening::Message { message } => {
            lemma_received(s, message);
        },
        Happening::Tick { now } => {
            lemma_due_passing(s.children, now);
        },
        _ => {},
    }
}

/// A session that is not at work has told of the end of its last turn, whatever
/// happens to it.
pub proof fn an_idle_session_has_told_its_end(s: SessionView, h: Happening)
    requires
        s.active || s.done_current,
    ensures
        step(s, h).0.active || step(s, h).0.done_current,
{
}

/// A session after a number of things that happened to it.
pub open spec fn run(s: SessionView, happenings: Seq<Happening>) -> SessionView
    decreases happenings.len(),
{
    if happenings.len() == 0 {
        s
    } else {
        step(run(s, happenings.drop_last()), happenings.last()).0
    }
}

/// At every time after a session is opened, it is at work or has told of the
/// end of its last turn, under the name that it was opened with.
pub proof fn a_session_is_at_work_or_has_told_its_end(
    session_file: Seq<char>,
    daemon: bool,
    prompt: Seq<char>,
    leading: Option<(Seq<char>, Seq<char>)>,
    happenings: Seq<Happening>,
)
    ensures
        ({
            let s = run(opened(session_file, daemon, prompt, leading), happenings);
            &&& s.active || s.done_current
            &&& s.session_file == session_file
            &&& s.daemon == daemon
        }),
    decreases happenings.len(),
{
    if happenings.len() > 0 {
        let before = happenings.drop_last();
        a_session_is_at_work_or_has_told_its_end(session_file, daemon, prompt, leading, before);
        let s = run(opened(session_file, daemon, prompt, leading), before);
        an_idle_session_has_told_its_end(s, happenings.last());
        a_session_keeps_its_name(s, happenings.last());
    }
}

/// The session of a user who can say no more ends with its turn, unless the
/// turn ended because a command of the user's was refused.
pub proof fn a_session_ends_with_its_last_turn(s: SessionView, h: Happening)
    requires
        !s.steering_open,
        ends_turn(step(s, h).1),
        !(h matches Happening::Failure { kind: CommandKind::Steer, .. }),
    ensures
        step(s, h).2 == Flow::End,
{
    match h {
        Happening::Message { message } => {
            lemma_received(s, message);
        },
        Happening::Tick { now } => {
            lemma_due_passing(s.children, now);
        },
        _ => {},
    }
}

/// Only an interrupt tells the agent to stop, and only an interrupt makes a
/// session end as interrupted by itself. It ends there.
pub proof fn only_an_interrupt_aborts(s: SessionView, h: Happening)
    ensures
        step(s, h).1.contains(ActionView::Abort) <==> h is Interrupt,
        h is Interrupt ==> step(s, h).2 == Flow::End && step(s, h).1.last() == ActionView::Emit(
            done(DoneStatus::Interrupted, None, Some(s.session_file)),
        ),
        step(s, h).0.interrupted == (s.interrupted || h is Interrupt),
{
    let list = step(s, h).1;
    match h {
        Happening::Message { message } => {
            lemma_received(s, message);
            assert forall|k: int| 0 <= k < list.len() implies #[trigger] list[k]
                != ActionView::Abort by {
                assert(is_passing(list[k]) || is_turn_end(list[k]));
            }
        },
        Happening::Tick { now } => {
            lemma_due_passing(s.children, now);
            assert forall|k: int| 0 <= k < list.len() implies #[trigger] list[k]
                != ActionView::Abort by {
                assert(is_passing(list[k]));
            }
        },
        Happening::Interrupt => {
            assert(list[0] == ActionView::Abort);
        },
        _ => {},
    }
}

/// The user's own messages are not sent back to the user.
pub proof fn no_message_is_echoed(s: SessionView, h: Happening, k: int)
    requires
        0 <= k < step(s, h).1.len(),
    ensures
        !(step(s, h).1[k] matches ActionView::Emit(EventView::UserMessage { .. })),
{
    let list = step(s, h).1;
    match h {
        Happening::Message { message } => {
            lemma_received(s, message);
            assert(is_passing(list[k]) || is_turn_end(list[k]));
        },
        Happening::Tick { now } => {
            lemma_due_passing(s.children, now);
            assert(is_passing(list[k]));
        },
        _ => {},
    }
}

/// A message of the user leaves the children of the session as they are, and
/// the session goes on.
pub proof fn steering_keeps_the_children(
    s: SessionView,
    prompt: Seq<char>,
    named: bool,
    leading: Option<(Seq<char>, Seq<char>)>,
)
    ensures
        told(s, prompt, named, leading).0.children == s.children,
        told(s, prompt, named, leading).0.active == s.active,
        told(s, prompt, named, leading).2 == Flow::Release,
        succeeded(told(s, prompt, named, leading).0, CommandKind::Steer).0.children == s.children,
        succeeded(told(s, prompt, named, leading).0, CommandKind::Steer).0.active,
        succeeded(told(s, prompt, named, leading).0, CommandKind::Steer).2 == Flow::Release,
{
}

/// A session keeps its file and its kind.
pub proof fn a_session_keeps_its_name(s: SessionView, h: Happening)
    ensures
        step(s, h).0.session_file == s.session_file,
        step(s, h).0.daemon == s.daemon,
{
}

/// The last events of a session tell of the end of a turn if and only if the
/// session breaks off in the middle of one; that turn ends with an error.
pub proof fn a_broken_off_turn_is_ended_at_last(s: SessionView, crash: Option<Seq<char>>)
    ensures
        ends_turn(emits(last_words(s, crash))) <==> broken_off(s),
        broken_off(s) ==> last_words(s, crash).last() matches EventView::Done {
            status: DoneStatus::Errored,
            error: Some(_),
            ..
        },
        s.done_current ==> !broken_off(s),
{
    let list = s.children.map_values(|entry: (Seq<char>, ChildView)| cut_off(entry).1);
    let ends = open_ends(s.children);
    let found = last_words(s, crash);
    assert forall|k: int| 0 <= k < ends.len() implies !is_turn_end(
        #[trigger] emits(found)[k],
    ) by {
        lemma_somes_from(list, k);
        assert(ends[k] is Subagent);
        assert(found[k] == ends[k]);
    }
    if broken_off(s) {
        assert(is_turn_end(emits(found)[found.len() - 1]));
    }
}

/// A closed transport ends the session, which keeps the reason for its last
/// words, and is told to the engine without the message itself.
pub proof fn a_closed_transport_ends_the_session(s: SessionView, reason: Seq<char>)
    ensures
        received(s, closing(reason)).2 == Flow::End,
        received(s, closing(reason)).0 == (SessionView { transport_error: Some(reason), ..s }),
        received(s, closing(reason)).1 == seq![
            ActionView::Emit(EventView::PrimeEvent { event: lifecycle("disconnected"@) }),
        ],
        broken_off(s) ==> last_words(received(s, closing(reason)).0, None).last() == done(
            DoneStatus::Errored,
            Some(reason),
            Some(s.session_file),
        ),
{
    broadcast use lemma_get_set;

    reveal_strlit("type");
    reveal_strlit("error");
    assert("type"@.len() != "error"@.len());
    reveal_strlit("_transport_closed");
    reveal_strlit("compaction_end");
    reveal_strlit("message_end");
    assert("_transport_closed"@.len() == 17);
    assert("compaction_end"@.len() == 14);
    assert("message_end"@.len() == 11);
    let message = closing(reason);
    assert(message.get("type"@) == Some(JsonView::Text("_transport_closed"@)));
    assert(message.get("error"@) == Some(JsonView::Text(reason)));
    assert(preamble(message) =~= Seq::<ActionView>::empty());
    assert(received(s, message).1 =~= read(s, message).1);
}

/// The words in a list of actions that a turn ended.
pub open spec fn only_ends(list: Seq<ActionView>) -> Seq<ActionView>
    decreases list.len(),
{
    if list.len() == 0 {
        Seq::empty()
    } else if is_turn_end(list.last()) {
        only_ends(list.drop_last()).push(list.last())
    } else {
        only_ends(list.drop_last())
    }
}

pub proof fn lemma_no_ends(list: Seq<ActionView>)
    requires
        forall|k: int| 0 <= k < list.len() ==> !is_turn_end(#[trigger] list[k]),
    ensures
        only_ends(list) == Seq::<ActionView>::empty(),
    decreases list.len(),
{
    if list.len() > 0 {
        let before = list.drop_last();
        assert forall|k: int| 0 <= k < before.len() implies !is_turn_end(#[trigger] before[k]) by {
            assert(before[k] == list[k]);
        }
        lemma_no_ends(before);
        assert(!is_turn_end(list[list.len() - 1]));
    }
}

proof fn lemma_passing_ends_nothing(list: Seq<ActionView>)
    requires
        all_passing(list),
    ensures
        only_ends(list) == Seq::<ActionView>::empty(),
{
    assert forall|k: int| 0 <= k < list.len() implies !is_turn_end(#[trigger] list[k]) by {
        assert(is_passing(list[k]));
    }
    lemma_no_ends(list);
}

proof fn lemma_all_passing_concat(a: Seq<ActionView>, b: Seq<ActionView>)
    requires
        all_passing(a),
        all_passing(b),
    ensures
        all_passing(a + b),
{
    assert forall|k: int| 0 <= k < (a + b).len() implies is_passing(#[trigger] (a + b)[k]) by {
        if k < a.len() {
            assert((a + b)[k] == a[k]);
        } else {
            assert((a + b)[k] == b[k - a.len()]);
        }
    }
}

proof fn lemma_kinds_differ()
    ensures
        "agent_end"@ != "_transport_closed"@,
        "agent_end"@ != "agent_start"@,
        "agent_end"@ != "message_end"@,
        "message_end"@ != "_transport_closed"@,
        "message_end"@ != "agent_start"@,
        "message_end"@ != "session_action_update"@,
        "message_end"@ != "rlm_child_update"@,
        "message_end"@ != "session_attached"@,
        "message_end"@ != "session_resynced"@,
        "message_end"@ != "session_replaced"@,
        "message_end"@ != "observed_session_event"@,
        "message_end"@ != "observed_session_closed"@,
        "message_end"@ != "extension_ui_request"@,
        "message_end"@ != "extension_error"@,
        "message_end"@ != "message_start"@,
        "message_end"@ != "message_update"@,
{
    reveal_strlit("agent_end");
    reveal_strlit("agent_start");
    reveal_strlit("message_end");
    reveal_strlit("_transport_closed");
    reveal_strlit("session_action_update");
    reveal_strlit("rlm_child_update");
    reveal_strlit("session_attached");
    reveal_strlit("session_resynced");
    reveal_strlit("session_replaced");
    reveal_strlit("observed_session_event");
    reveal_strlit("observed_session_closed");
    reveal_strlit("extension_ui_request");
    reveal_strlit("extension_error");
    reveal_strlit("message_start");
    reveal_strlit("message_update");
    assert("agent_end"@.len() == 9);
    assert("agent_start"@.len() == 11);
    assert("message_end"@.len() == 11);
    assert("agent_start"@[0] != "message_end"@[0]);
    assert("_transport_closed"@.len() == 17);
    assert("session_action_update"@.len() == 21);
    assert("rlm_child_update"@.len() == 16);
    assert("session_attached"@.len() == 16);
    assert("session_resynced"@.len() == 16);
    assert("session_replaced"@.len() == 16);
    assert("observed_session_event"@.len() == 22);
    assert("observed_session_closed"@.len() == 23);
    assert("extension_ui_request"@.len() == 20);
    assert("extension_error"@.len() == 15);
    assert("message_start"@.len() == 13);
    assert("message_update"@.len() == 14);
}

/// While no command of the session is pending, a message of an agent that runs
/// as a process ends a turn if and only if it is the end of the agent's turn.
/// It does so once, as its last act, with the failure of the agent's last
/// message, if it failed.
pub proof fn a_process_turn_ends_with_the_agents(s: SessionView, message: JsonView)
    requires
        !s.daemon,
        s.controls.len() == 0,
    ensures
        ends_turn(received(s, message).1) <==> message.field("type"@) == Some("agent_end"@),
        message.field("type"@) == Some("agent_end"@) ==> received(s, message).1.last()
            == end_by_error(s, s.mapper.failure),
        only_ends(received(s, message).1) == if message.field("type"@) == Some("agent_end"@) {
            seq![end_by_error(s, s.mapper.failure)]
        } else {
            Seq::<ActionView>::empty()
        },
{
    lemma_kinds_differ();
    lemma_preamble_passing(message);
    let head = preamble(message);
    let tail = read(s, message).1;
    let list = head + tail;
    if message.field("type"@) == Some("agent_end"@) {
        let end = end_by_error(s, s.mapper.failure);
        assert(tail == seq![end]);
        assert(list =~= head.push(end));
        lemma_passing_ends_nothing(head);
        assert(list.drop_last() =~= head);
        assert(is_turn_end(list[head.len() as int]));
        assert(only_ends(list) =~= seq![end]);
    } else {
        mapping_never_ends_a_turn(s.mapper, message);
        lemma_shows_passing(mapped(s.mapper, message).1);
        lemma_overheard_passing(s.children, message);
        match message.at("snapshot"@).at("children"@).as_array() {
            Some(children) => {
                lemma_updates_passing(children);
            },
            None => {},
        }
        assert(all_passing(tail));
        lemma_all_passing_concat(head, tail);
        lemma_passing_ends_nothing(list);
        assert forall|k: int| 0 <= k < list.len() implies !is_turn_end(#[trigger] list[k]) by {
            assert(is_passing(list[k]));
        }
    }
}

/// Whether something is part of an undisturbed run: no request fails, the user
/// sends no command of the session, does not interrupt and stays.
pub open spec fn is_undisturbed(h: Happening) -> bool {
    match h {
        Happening::Success { .. } => true,
        Happening::Message { .. } => true,
        Happening::Tick { .. } => true,
        Happening::User { prompt, named, leading } => !named || command_starts_turn(
            prompt,
            leading,
        ) is None,
        _ => false,
    }
}

/// Whether a message is the end of a message of the assistant, and not the
/// result of a command or a status, which have kinds of their own.
pub open spec fn is_assistant_end(message: JsonView) -> bool {
    &&& message.field("type"@) == Some("message_end"@)
    &&& !is_custom(message, "session_slash_command_result"@)
    &&& !is_custom(message, "autonomous_status"@)
    &&& message.at("message"@).field("role"@) == Some("assistant"@)
}

/// Why the last message of the assistant since the last end of the agent's turn
/// failed, if there was one and it did.
pub open spec fn failure_so_far(happenings: Seq<Happening>) -> Option<Seq<char>>
    decreases happenings.len(),
{
    if happenings.len() == 0 {
        None
    } else {
        match happenings.last() {
            Happening::Message { message } => if message.field("type"@) == Some("agent_end"@) {
                None
            } else if is_assistant_end(message) {
                message_failure(message.at("message"@))
            } else {
                failure_so_far(happenings.drop_last())
            },
            _ => failure_so_far(happenings.drop_last()),
        }
    }
}

/// The ends of turns that a session tells of in a run.
pub open spec fn ends_told(s: SessionView, happenings: Seq<Happening>) -> Seq<ActionView>
    decreases happenings.len(),
{
    if happenings.len() == 0 {
        Seq::empty()
    } else {
        let before = happenings.drop_last();
        ends_told(s, before) + only_ends(step(run(s, before), happenings.last()).1)
    }
}

/// One end for each end of the agent's turn: with an error where the last message
/// of the assistant before it failed, and without one otherwise.
pub open spec fn ends_due(session_file: Seq<char>, happenings: Seq<Happening>) -> Seq<ActionView>
    decreases happenings.len(),
{
    if happenings.len() == 0 {
        Seq::empty()
    } else {
        let before = happenings.drop_last();
        let error = failure_so_far(before);
        let status = if error is Some {
            DoneStatus::Errored
        } else {
            DoneStatus::Completed
        };
        match happenings.last() {
            Happening::Message { message } => if message.field("type"@) == Some("agent_end"@) {
                ends_due(session_file, before).push(
                    ActionView::Emit(done(status, error, Some(session_file))),
                )
            } else {
                ends_due(session_file, before)
            },
            _ => ends_due(session_file, before),
        }
    }
}

proof fn lemma_mapped_failure(state: MapperView, message: JsonView)
    ensures
        mapped(state, message).0.failure == if message.field("type"@) == Some("message_end"@)
            && message.at("message"@).field("role"@) == Some("assistant"@) {
            message_failure(message.at("message"@))
        } else {
            state.failure
        },
{
    lemma_kinds_differ();
}

proof fn lemma_failure_kept(s: SessionView, message: JsonView)
    requires
        !s.daemon,
        s.controls.len() == 0,
    ensures
        received(s, message).0.controls.len() == 0,
        received(s, message).0.mapper.failure == if message.field("type"@) == Some("agent_end"@) {
            None
        } else if is_assistant_end(message) {
            message_failure(message.at("message"@))
        } else {
            s.mapper.failure
        },
{
    lemma_kinds_differ();
    lemma_mapped_failure(s.mapper, message);
    let kind = message.field("type"@);
    if kind == Some("agent_end"@) {
        assert(read(s, message) == agent_ended(s));
    } else if kind == Some("message_end"@) {
        if is_custom(message, "session_slash_command_result"@) {
            assert(read(s, message) == answered(s, message.at("message"@)));
        }
    } else if kind == Some("session_action_update"@) {
        assert(acted(s, message.at("actions"@)).0 == s);
    }
}

/// In an undisturbed run of an agent that runs as a process, the session tells
/// of one end of a turn for each end of the agent's turn, in order, with an
/// error where the last message of the assistant before it failed, and of no
/// other.
pub proof fn an_undisturbed_process_ends_turn_by_turn(
    session_file: Seq<char>,
    prompt: Seq<char>,
    leading: Option<(Seq<char>, Seq<char>)>,
    happenings: Seq<Happening>,
)
    requires
        command_starts_turn(prompt, leading) is None,
        forall|i: int| 0 <= i < happenings.len() ==> is_undisturbed(#[trigger] happenings[i]),
    ensures
        ends_told(opened(session_file, false, prompt, leading), happenings) == ends_due(
            session_file,
            happenings,
        ),
        ({
            let s = run(opened(session_file, false, prompt, leading), happenings);
            &&& !s.daemon
            &&& s.session_file == session_file
            &&& s.controls.len() == 0
            &&& s.mapper.failure == failure_so_far(happenings)
        }),
    decreases happenings.len(),
{
    if happenings.len() > 0 {
        let before = happenings.drop_last();
        assert forall|i: int| 0 <= i < before.len() implies is_undisturbed(
            #[trigger] before[i],
        ) by {
            assert(before[i] == happenings[i]);
        }
        an_undisturbed_process_ends_turn_by_turn(session_file, prompt, leading, before);
        let s = run(opened(session_file, false, prompt, leading), before);
        let h = happenings[happenings.len() - 1];
        assert(is_undisturbed(h));
        a_session_keeps_its_name(s, h);
        let told = ends_told(opened(session_file, false, prompt, leading), before);
        let list = step(s, h).1;
        match h {
            Happening::Message { message } => {
                a_process_turn_ends_with_the_agents(s, message);
                lemma_failure_kept(s, message);
                if message.field("type"@) == Some("agent_end"@) {
                    let end = end_by_error(s, s.mapper.failure);
                    assert(told + seq![end] =~= told.push(end));
                } else {
                    assert(told + Seq::<ActionView>::empty() =~= told);
                }
            },
            Happening::Tick { now } => {
                lemma_due_passing(s.children, now);
                lemma_passing_ends_nothing(list);
                assert(told + Seq::<ActionView>::empty() =~= told);
            },
            _ => {
                lemma_no_ends(list);
                assert(told + Seq::<ActionView>::empty() =~= told);
            },
        }
    }
}

} // verus!
