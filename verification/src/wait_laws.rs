//! What holds of the waits of every session with a daemon.
//!
//! A daemon is asked to say when a turn is complete. Each such wait has the
//! number of those that were begun up to it, and only the newest counts.

use vstd::prelude::*;

#[allow(unused_imports)]
use crate::actions::{shown, shows, ActionView, CommandKind};
#[allow(unused_imports)]
use crate::counter::following;
#[allow(unused_imports)]
use crate::events::mapped;
#[allow(unused_imports)]
use crate::json::JsonView;
#[allow(unused_imports)]
use crate::lists::{lemma_somes_from, somes};
#[allow(unused_imports)]
use crate::proto::{done, DoneStatus, EventView};
#[allow(unused_imports)]
use crate::session::{
    at_work, completed, lifecycle, opened, preamble, read, received, succeeded, Flow, SessionView,
    StepView,
};
#[allow(unused_imports)]
use crate::session_laws::{
    a_daemon_turn_ends_by_its_own_wait, a_session_keeps_its_name, collecting, ends_turn,
    is_turn_end, lemma_no_ends, only_ends, run, step, Happening,
};

verus! {

/// Whether a session goes on after each of the things that happened to it.
pub open spec fn goes_on(s: SessionView, happenings: Seq<Happening>) -> bool
    decreases happenings.len(),
{
    happenings.len() == 0 || {
        let before = happenings.drop_last();
        goes_on(s, before) && step(run(s, before), happenings.last()).2 != Flow::End
    }
}

/// Whether the agent starts on a turn: it says so, or takes in a message of the
/// user.
pub open spec fn starts_turn(h: Happening) -> bool {
    match h {
        Happening::Success { kind } => kind == CommandKind::Steer,
        Happening::Message { message } => message.field("type"@) == Some("agent_start"@),
        _ => false,
    }
}

/// Whether a session has told of the end of a turn, and no turn was started on
/// since.
pub open spec fn rests(s: SessionView, happenings: Seq<Happening>) -> bool
    decreases happenings.len(),
{
    if happenings.len() == 0 {
        false
    } else {
        let before = happenings.drop_last();
        if ends_turn(step(run(s, before), happenings.last()).1) {
            true
        } else {
            !starts_turn(happenings.last()) && rests(s, before)
        }
    }
}

/// Whether the last thing that happened is one on which a wait is begun: the
/// agent took in a prompt, a message of the user or a command on the goal, or
/// started on a turn by itself after the end of one, while no wait was open.
pub open spec fn begins_wait(s: SessionView, happenings: Seq<Happening>) -> bool
    decreases happenings.len(), 0nat,
{
    if happenings.len() == 0 {
        false
    } else {
        let before = happenings.drop_last();
        match happenings.last() {
            Happening::Success { kind } => kind == CommandKind::Initial || kind
                == CommandKind::Steer || kind == CommandKind::Goal,
            Happening::Message { message } => message.field("type"@) == Some("agent_start"@)
                && rests(s, before) && !is_open(s, before),
            _ => false,
        }
    }
}

/// The number of waits that should have been begun.
pub open spec fn waits_due(s: SessionView, happenings: Seq<Happening>) -> nat
    decreases happenings.len(), 1nat,
{
    if happenings.len() == 0 {
        0
    } else if begins_wait(s, happenings) {
        waits_due(s, happenings.drop_last()) + 1
    } else {
        waits_due(s, happenings.drop_last())
    }
}

/// Whether something that happened is the answer to the wait of a number.
pub open spec fn answers(h: Happening, number: nat) -> bool {
    match h {
        Happening::Success { kind: CommandKind::Completion(generation) } => generation == number,
        Happening::Failure { kind: CommandKind::Completion(generation), .. } => generation
            == number,
        _ => false,
    }
}

/// Whether the newest wait is unanswered.
pub open spec fn is_open(s: SessionView, happenings: Seq<Happening>) -> bool
    decreases happenings.len(), 1nat,
{
    if happenings.len() == 0 {
        false
    } else {
        let before = happenings.drop_last();
        begins_wait(s, happenings) || (is_open(s, before) && !answers(
            happenings.last(),
            waits_due(s, before),
        ))
    }
}

/// The numbers of the waits for the completion of a turn in a list of actions.
pub open spec fn only_waits(list: Seq<ActionView>) -> Seq<u64>
    decreases list.len(),
{
    if list.len() == 0 {
        Seq::empty()
    } else {
        match list.last() {
            ActionView::AwaitCompletion { generation } => only_waits(list.drop_last()).push(
                generation,
            ),
            _ => only_waits(list.drop_last()),
        }
    }
}

/// The numbers of the waits that a session asked for, in order.
pub open spec fn waits_begun(s: SessionView, happenings: Seq<Happening>) -> Seq<u64>
    decreases happenings.len(),
{
    if happenings.len() == 0 {
        Seq::empty()
    } else {
        let before = happenings.drop_last();
        waits_begun(s, before) + only_waits(step(run(s, before), happenings.last()).1)
    }
}

/// The numbers from 1 on.
pub open spec fn counted(n: nat) -> Seq<u64> {
    Seq::new(n, |i: int| (i + 1) as u64)
}

/// What the success of a wait for the completion of a turn makes of a session:
/// where it asks how the turn ended, it is told so, and goes on from there.
pub open spec fn wait_over(
    s: SessionView,
    number: u64,
    end: (DoneStatus, Option<Seq<char>>),
    summary: Option<JsonView>,
) -> StepView {
    let (t, list, flow) = succeeded(s, CommandKind::Completion(number));
    if list.contains(collecting(number)) {
        let (next, more, after) = completed(t, number, end, summary);
        (next, list + more, after)
    } else {
        (t, list, flow)
    }
}

proof fn lemma_no_waits(list: Seq<ActionView>)
    requires
        forall|k: int| 0 <= k < list.len() ==> !((#[trigger] list[k]) is AwaitCompletion),
    ensures
        only_waits(list) == Seq::<u64>::empty(),
    decreases list.len(),
{
    if list.len() > 0 {
        let before = list.drop_last();
        assert forall|k: int| 0 <= k < before.len() implies !((#[trigger] before[k])
            is AwaitCompletion) by {
            assert(before[k] == list[k]);
        }
        lemma_no_waits(before);
        assert(!(list[list.len() - 1] is AwaitCompletion));
    }
}

/// A wait behind actions that are none is the only one.
proof fn lemma_one_wait(list: Seq<ActionView>, number: u64)
    requires
        forall|k: int| 0 <= k < list.len() ==> !((#[trigger] list[k]) is AwaitCompletion),
    ensures
        only_waits(list.push(ActionView::AwaitCompletion { generation: number })) == seq![number],
{
    let all = list.push(ActionView::AwaitCompletion { generation: number });
    lemma_no_waits(list);
    assert(all.drop_last() =~= list);
    assert(only_waits(all) =~= seq![number]);
}

/// The one end in a list of actions is the only one.
proof fn lemma_one_end(list: Seq<ActionView>, at: int)
    requires
        0 <= at < list.len(),
        is_turn_end(list[at]),
        forall|k: int| 0 <= k < list.len() && k != at ==> !is_turn_end(#[trigger] list[k]),
    ensures
        only_ends(list) == seq![list[at]],
    decreases list.len(),
{
    let before = list.drop_last();
    assert forall|k: int| 0 <= k < before.len() && k != at implies !is_turn_end(
        #[trigger] before[k],
    ) by {
        assert(before[k] == list[k]);
    }
    if at == list.len() - 1 {
        lemma_no_ends(before);
        assert(only_ends(list) =~= seq![list[at]]);
    } else {
        assert(!is_turn_end(list[list.len() - 1]));
        lemma_one_end(before, at);
    }
}

/// A message of the agent begins a wait if it is the start of a turn after the
/// end of one while no wait is open; it changes nothing else of the waits.
proof fn lemma_message_waits(s: SessionView, message: JsonView)
    requires
        s.daemon,
    ensures
        ({
            let (next, list, _) = received(s, message);
            let starts = message.field("type"@) == Some("agent_start"@);
            let begins = starts && s.done_current && !s.completion_pending;
            &&& next.generation == if begins {
                following(s.generation)
            } else {
                s.generation
            }
            &&& next.completion_pending == (s.completion_pending || begins)
            &&& next.done_current == (s.done_current && !starts)
            &&& next.active == (s.active || starts)
            &&& only_waits(list) == if begins {
                seq![following(s.generation)]
            } else {
                Seq::<u64>::empty()
            }
        }),
{
    reveal_strlit("agent_start");
    reveal_strlit("_transport_closed");
    reveal_strlit("agent_end");
    assert("agent_start"@.len() == 11);
    assert("_transport_closed"@.len() == 17);
    assert("agent_end"@.len() == 9);
    let head = preamble(message);
    let tail = read(s, message).1;
    let list = head + tail;
    assert forall|k: int| 0 <= k < head.len() implies !((#[trigger] head[k])
        is AwaitCompletion) by {}
    if message.field("type"@) == Some("agent_start"@) {
        if s.done_current && !s.completion_pending {
            let wait = ActionView::AwaitCompletion {
                generation: following(s.generation),
            };
            assert(tail == seq![wait]);
            assert(list =~= head.push(wait));
            lemma_one_wait(head, following(s.generation));
        } else {
            assert(list =~= head);
            lemma_no_waits(head);
        }
    } else {
        lemma_other_reads(s, message);
        assert forall|k: int| 0 <= k < list.len() implies !((#[trigger] list[k])
            is AwaitCompletion) by {
            if k >= head.len() {
                assert(list[k] == tail[k - head.len()]);
            }
        }
        lemma_no_waits(list);
    }
}

proof fn lemma_other_reads(s: SessionView, message: JsonView)
    requires
        s.daemon,
        message.field("type"@) != Some("agent_start"@),
    ensures
        forall|k: int|
            0 <= k < read(s, message).1.len() ==> !((#[trigger] read(s, message).1[k])
                is AwaitCompletion),
        read(s, message).0.generation == s.generation,
        read(s, message).0.completion_pending == s.completion_pending,
        read(s, message).0.done_current == s.done_current,
        read(s, message).0.active == s.active,
{
    let found = mapped(s.mapper, message).1;
    let shown_list = found.map_values(|event: EventView| shown(event));
    assert forall|k: int| 0 <= k < shows(found).len() implies !((#[trigger] shows(found)[k])
        is AwaitCompletion) by {
        lemma_somes_from(shown_list, k);
    }
    match message.at("snapshot"@).at("children"@).as_array() {
        Some(list) => {
            let all = list.map_values(|child: JsonView| at_work(child));
            assert forall|k: int| 0 <= k < somes(all).len() implies !((#[trigger] somes(all)[k])
                is AwaitCompletion) by {
                lemma_somes_from(all, k);
            }
        },
        None => {},
    }
}

/// Whether a session begins a wait on something that happens to it.
spec fn waits_on(s: SessionView, h: Happening) -> bool {
    match h {
        Happening::Success { kind } => kind == CommandKind::Initial || kind == CommandKind::Steer
            || kind == CommandKind::Goal,
        Happening::Message { message } => message.field("type"@) == Some("agent_start"@)
            && s.done_current && !s.completion_pending,
        _ => false,
    }
}

proof fn lemma_step_waits(s: SessionView, h: Happening)
    requires
        s.daemon,
        s.active == !s.done_current,
        step(s, h).2 != Flow::End,
    ensures
        ({
            let (next, list, _) = step(s, h);
            &&& next.generation == if waits_on(s, h) {
                following(s.generation)
            } else {
                s.generation
            }
            &&& next.completion_pending == (waits_on(s, h) || (s.completion_pending && !answers(
                h,
                s.generation as nat,
            )))
            &&& next.done_current == (ends_turn(list) || (s.done_current && !starts_turn(h)))
            &&& next.active == !next.done_current
            &&& only_waits(list) == if waits_on(s, h) {
                seq![following(s.generation)]
            } else {
                Seq::<u64>::empty()
            }
        }),
{
    let list = step(s, h).1;
    a_daemon_turn_ends_by_its_own_wait(s, h);
    match h {
        Happening::Message { message } => {
            lemma_message_waits(s, message);
        },
        Happening::Success { .. } => {
            if waits_on(s, h) {
                let number = following(s.generation);
                let wait = ActionView::AwaitCompletion { generation: number };
                assert(list =~= list.drop_last().push(wait));
                lemma_one_wait(list.drop_last(), number);
            } else {
                lemma_no_waits(list);
            }
        },
        Happening::TurnEnd { .. } => {
            assert(is_turn_end(list[0]));
            lemma_no_waits(list);
        },
        Happening::Failure { .. } => {
            lemma_no_waits(list);
            if list.len() > 0 && is_turn_end(list[0]) {
                assert(ends_turn(list));
            } else if list.len() > 1 && is_turn_end(list[1]) {
                assert(ends_turn(list));
            }
        },
        _ => {
            lemma_no_waits(list);
        },
    }
}

/// What a session with a daemon knows of its waits is what happened to it.
proof fn lemma_waits_known(
    session_file: Seq<char>,
    prompt: Seq<char>,
    leading: Option<(Seq<char>, Seq<char>)>,
    happenings: Seq<Happening>,
)
    requires
        goes_on(opened(session_file, true, prompt, leading), happenings),
        waits_due(opened(session_file, true, prompt, leading), happenings) <= u64::MAX,
    ensures
        ({
            let first = opened(session_file, true, prompt, leading);
            let s = run(first, happenings);
            &&& s.daemon
            &&& s.session_file == session_file
            &&& s.generation == waits_due(first, happenings)
            &&& s.completion_pending == is_open(first, happenings)
            &&& s.done_current == rests(first, happenings)
            &&& s.active == !rests(first, happenings)
            &&& waits_begun(first, happenings) == counted(waits_due(first, happenings))
        }),
    decreases happenings.len(),
{
    let first = opened(session_file, true, prompt, leading);
    if happenings.len() == 0 {
        assert(waits_begun(first, happenings) =~= counted(0));
    } else {
        let before = happenings.drop_last();
        let h = happenings.last();
        lemma_waits_known(session_file, prompt, leading, before);
        let s = run(first, before);
        let list = step(s, h).1;
        a_session_keeps_its_name(s, h);
        lemma_step_waits(s, h);
        let n = waits_due(first, before);
        assert(waits_on(s, h) == begins_wait(first, happenings));
        if begins_wait(first, happenings) {
            assert(only_waits(list) == seq![(n + 1) as u64]);
            assert(counted(n) + seq![(n + 1) as u64] =~= counted(n + 1));
        } else {
            assert(counted(n) + Seq::<u64>::empty() =~= counted(n));
        }
    }
}

/// While a session with a daemon goes on, the waits that it asks for are those
/// that are due, numbered in turn from 1 on: one for each prompt, message of
/// the user and command on the goal that was taken in, and one for each turn
/// that the agent started on by itself, after the end of one, while no wait was
/// open.
pub proof fn waits_are_begun_in_turn(
    session_file: Seq<char>,
    prompt: Seq<char>,
    leading: Option<(Seq<char>, Seq<char>)>,
    happenings: Seq<Happening>,
)
    requires
        goes_on(opened(session_file, true, prompt, leading), happenings),
        waits_due(opened(session_file, true, prompt, leading), happenings) <= u64::MAX,
    ensures
        ({
            let first = opened(session_file, true, prompt, leading);
            waits_begun(first, happenings) == counted(waits_due(first, happenings))
        }),
{
    lemma_waits_known(session_file, prompt, leading, happenings);
}

/// Whatever happened to a session with a daemon that goes on, the success of one
/// of its waits ends a turn if and only if the wait is the newest. It does so
/// once, with the end that was asked for, and then waits for the agent to come
/// to rest, unless the user can say no more. That the agent came to rest after
/// the turn of a wait is told, once, if and only if that wait is still the
/// newest. The success of an older wait does nothing.
pub proof fn only_the_newest_wait_counts(
    session_file: Seq<char>,
    prompt: Seq<char>,
    leading: Option<(Seq<char>, Seq<char>)>,
    happenings: Seq<Happening>,
    k: int,
    end: (DoneStatus, Option<Seq<char>>),
    summary: Option<JsonView>,
)
    requires
        goes_on(opened(session_file, true, prompt, leading), happenings),
        waits_due(opened(session_file, true, prompt, leading), happenings) <= u64::MAX,
        0 <= k < waits_begun(opened(session_file, true, prompt, leading), happenings).len(),
    ensures
        ({
            let first = opened(session_file, true, prompt, leading);
            let waits = waits_begun(first, happenings);
            let s = run(first, happenings);
            let newest = k == waits.len() - 1;
            let over = wait_over(s, waits[k], end, summary);
            &&& only_ends(over.1) == if newest {
                seq![ActionView::Emit(done(end.0, end.1, Some(session_file)))]
            } else {
                Seq::<ActionView>::empty()
            }
            &&& newest && s.steering_open ==> over.1.last() == ActionView::AwaitQuiescence {
                generation: waits[k],
            }
            &&& newest && !s.steering_open ==> over.2 == Flow::End
            &&& !newest ==> over == (s, Seq::<ActionView>::empty(), Flow::Release)
            &&& succeeded(s, CommandKind::Quiescence(waits[k])) == (
                s,
                if newest {
                    seq![ActionView::Emit(EventView::PrimeEvent { event: lifecycle("quiescent"@) })]
                } else {
                    Seq::<ActionView>::empty()
                },
                Flow::Release,
            )
        }),
{
    lemma_waits_known(session_file, prompt, leading, happenings);
    let first = opened(session_file, true, prompt, leading);
    let waits = waits_begun(first, happenings);
    let s = run(first, happenings);
    let number = waits[k];
    let (t, list, _) = succeeded(s, CommandKind::Completion(number));
    if k == waits.len() - 1 {
        assert(list[0] == collecting(number));
        let more = completed(t, number, end, summary).1;
        let all = list + more;
        assert(all[1] == more[0]);
        assert forall|i: int| 0 <= i < all.len() && i != 1 implies !is_turn_end(
            #[trigger] all[i],
        ) by {
            if i > 1 {
                assert(all[i] == more[i - 1]);
            }
        }
        lemma_one_end(all, 1);
        assert(all.last() == more.last());
    } else {
        assert(number != s.generation);
        assert(!list.contains(collecting(number)));
    }
}

} // verus!
