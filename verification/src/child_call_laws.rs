//! What holds of everything that happens to the children of a session.

use vstd::prelude::*;

#[allow(unused_imports)]
use crate::children::{
    announcement, child_done, child_tool_id, cut_off, due_ends, enrolled, heard,
    lemma_watch_position_is, open_ends, released, releases, settled_if_due, tagged, Children,
    ChildState, ChildView, Roster,
};
#[allow(unused_imports)]
use crate::event_laws::says;
#[allow(unused_imports)]
use crate::events::{replay_messages, replayed, EventMapper};
#[allow(unused_imports)]
use crate::json::{jsons, lemma_get_set, lemma_position_is, opt_text, texts, Json, JsonView};
#[allow(unused_imports)]
use crate::proto::{events, AgentEvent, CallView, DoneStatus, EventView, HarnessId};

verus! {

/// An event of the child of a name.
pub open spec fn told_of(id: Seq<char>, event: EventView) -> EventView {
    EventView::Subagent { parent_tool_use_id: "prime-child:"@ + id, event: Box::new(event) }
}

/// How the child of a name ended.
pub open spec fn child_end(id: Seq<char>, state: ChildView) -> EventView {
    told_of(
        id,
        EventView::Done {
            status: if state.status == "error"@ {
                DoneStatus::Errored
            } else if state.status == "cancelled"@ {
                DoneStatus::Interrupted
            } else {
                DoneStatus::Completed
            },
            result: None,
            error: if state.error is Some {
                state.error
            } else {
                state.mapper.failure
            },
            session_id: None,
        },
    )
}

/// A roster in which only one child differs.
pub open spec fn differs_at(before: Roster, after: Roster, at: int) -> bool {
    &&& after.len() == before.len()
    &&& after[at].0 == before[at].0
    &&& forall|k: int| 0 <= k < before.len() && k != at ==> #[trigger] after[k] == before[k]
}

/// The children are told apart by the tool calls that stand for them, and their
/// events go under those.
pub proof fn the_events_of_a_child_go_under_its_name(
    id: &str,
    tool_id: String,
    event: AgentEvent,
    under: AgentEvent,
)
    requires
        call_ensures(child_tool_id, (id,), tool_id),
        call_ensures(tagged, (id, event), under),
    ensures
        tool_id@ == "prime-child:"@ + id@,
        under@ == told_of(id@, event@),
        under@ matches EventView::Subagent { parent_tool_use_id, event: inner }
            && parent_tool_use_id == tool_id@ && *inner == event@,
{
}

/// The end of a child is told by its status, with its own error or that of its
/// last answer, and the child has settled then.
pub proof fn the_end_of_a_child_is_told(id: &str, state: &mut ChildState, event: AgentEvent)
    requires
        call_ensures(child_done, (id, state), event),
    ensures
        event@ == child_end(id@, old(state)@),
        final(state)@.settled,
        final(state)@ == (ChildView { settled: true, ..old(state)@ }),
{
}

/// A snapshot without a name changes nothing.
pub proof fn a_snapshot_without_a_name_is_passed_over(
    children: &mut Children,
    child: Json,
    cwd: &str,
    message_id: &str,
    first: (Vec<AgentEvent>, Option<String>),
)
    requires
        call_ensures(Children::begin_update_as, (children, &child, cwd, message_id), first),
        forall|id: Seq<char>| #[trigger] says(child@, "id"@, id) ==> id.len() == 0,
    ensures
        final(children)@ == old(children)@,
        first.0@.len() == 0,
        first.1 is None,
{
    match child@.get("id"@) {
        Some(JsonView::Text(id)) => {
            assert(says(child@, "id"@, id));
        },
        _ => {},
    }
    assert(events(first.0@).len() == first.0@.len());
}

/// The same of its second half.
pub proof fn a_snapshot_without_a_name_ends_nothing(
    children: &mut Children,
    child: Json,
    reply: Option<&Json>,
    now: u64,
    found: Vec<AgentEvent>,
)
    requires
        call_ensures(Children::finish_update, (children, &child, reply, now), found),
        forall|id: Seq<char>| #[trigger] says(child@, "id"@, id) ==> id.len() == 0,
    ensures
        final(children)@ == old(children)@,
        found@.len() == 0,
{
    match child@.get("id"@) {
        Some(JsonView::Text(id)) => {
            assert(says(child@, "id"@, id));
        },
        _ => {},
    }
    assert(events(found@).len() == found@.len());
}

/// The text under a key, or another one.
pub open spec fn given(value: JsonView, key: Seq<char>, or: Seq<char>) -> Seq<char> {
    match value.get(key) {
        Some(JsonView::Text(text)) => text,
        _ => or,
    }
}

/// A child that was not known is added behind the others and announced: by a
/// tool call with its label and its model, and by the start of its session. It
/// is observed at once unless it is queued.
pub proof fn a_new_child_is_announced(
    children: &mut Children,
    child: Json,
    cwd: &str,
    message_id: &str,
    first: (Vec<AgentEvent>, Option<String>),
    id: Seq<char>,
)
    requires
        call_ensures(Children::begin_update_as, (children, &child, cwd, message_id), first),
        says(child@, "id"@, id),
        id.len() > 0,
        forall|k: int| 0 <= k < old(children)@.len() ==> (#[trigger] old(children)@[k]).0 != id,
    ensures
        ({
            let found = events(first.0@);
            let key = given(child@, "activeSessionId"@, id);
            let status = given(child@, "status"@, "running"@);
            let model = given(child@, "model"@, ""@);
            let label = given(
                child@,
                "sessionName"@,
                given(child@, "label"@, "Prime subagent"@),
            );
            let (name, state) = final(children)@.last();
            &&& final(children)@.drop_last() == old(children)@
            &&& name == id && state.watch_key == key && state.status == status
            &&& !state.observed && !state.unobserved && !state.settled
            &&& state.terminal_since is None
            &&& state.error == match child@.get("error"@) {
                Some(JsonView::Text(error)) => Some(error),
                _ => None,
            }
            &&& state.mapper.failure is None && state.mapper.active_bash is None
            &&& found.len() == 2
            &&& found[0] matches EventView::ToolCall { id: tool_id, call: CallView::Unknown {
                name: title,
                input,
            } } && tool_id == "prime-child:"@ + id && title == "Agent: "@ + label && (model.len()
                > 0 ==> (input matches Some(input) && says(input, "model"@, model))) && (model.len()
                == 0 ==> input is None)
            &&& found[1] == told_of(
                id,
                EventView::SessionStarted {
                    harness: HarnessId::Prime,
                    model,
                    tools: Seq::empty(),
                    cwd: cwd@,
                    session_id: key,
                    assistant_message_id: message_id@,
                },
            )
            &&& opt_text(first.1) == if status == "queued"@ {
                None
            } else {
                Some(key)
            }
        }),
{
    broadcast use lemma_get_set;

    let roster = old(children)@;
    reveal_strlit("");
    lemma_position_is(roster, id, roster.len() as int);
    let all = enrolled(roster, id, child@);
    assert(final(children)@.drop_last() =~= roster);
    assert(events(first.0@) == announcement(id, child@, cwd@, message_id@));
}

/// A child that was known is announced no more. It takes on the status and the
/// error of the snapshot; a new key has to be observed anew. It is observed if
/// it is neither queued nor observed nor settled.
pub proof fn a_known_child_is_brought_up_to_date(
    children: &mut Children,
    child: Json,
    cwd: &str,
    message_id: &str,
    first: (Vec<AgentEvent>, Option<String>),
    id: Seq<char>,
    at: int,
)
    requires
        call_ensures(Children::begin_update_as, (children, &child, cwd, message_id), first),
        says(child@, "id"@, id),
        id.len() > 0,
        0 <= at < old(children)@.len(),
        old(children)@[at].0 == id,
        forall|k: int| 0 <= k < at ==> (#[trigger] old(children)@[k]).0 != id,
    ensures
        ({
            let before = old(children)@[at].1;
            let after = final(children)@[at].1;
            let key = given(child@, "activeSessionId"@, before.watch_key);
            let status = given(child@, "status"@, "running"@);
            &&& differs_at(old(children)@, final(children)@, at)
            &&& first.0@.len() == 0
            &&& after.watch_key == key && after.status == status
            &&& after.error == match child@.get("error"@) {
                Some(JsonView::Text(error)) => Some(error),
                _ => None,
            }
            &&& after.observed <==> before.observed && key == before.watch_key
            &&& after.settled == before.settled && after.unobserved == before.unobserved
            &&& after.terminal_since == before.terminal_since && after.mapper == before.mapper
            &&& opt_text(first.1) == if status == "queued"@ || after.observed || after.settled {
                None
            } else {
                Some(key)
            }
        }),
{
    lemma_position_is(old(children)@, id, at);
    assert(events(first.0@).len() == first.0@.len());
}

/// What a child said before it was observed is shown first, in order. A status
/// that a child does not leave ends it: at once where it is not observed, later
/// otherwise.
pub proof fn a_child_at_its_end_settles_unless_it_is_observed(
    children: &mut Children,
    child: Json,
    reply: Option<&Json>,
    now: u64,
    found: Vec<AgentEvent>,
    messages: Vec<Json>,
    replay: Vec<AgentEvent>,
    id: Seq<char>,
    at: int,
)
    requires
        call_ensures(Children::finish_update, (children, &child, reply, now), found),
        call_ensures(replay_messages, (&messages,), replay),
        jsons(messages@) == match reply {
            Some(data) => match data@.get("messages"@) {
                Some(JsonView::Array(list)) => list,
                _ => Seq::empty(),
            },
            None => Seq::empty(),
        },
        says(child@, "id"@, id),
        id.len() > 0,
        0 <= at < old(children)@.len(),
        old(children)@[at].0 == id,
        forall|k: int| 0 <= k < at ==> (#[trigger] old(children)@[k]).0 != id,
    ensures
        ({
            let before = old(children)@[at].1;
            let after = final(children)@[at].1;
            let list = events(found@);
            let ends = !before.settled && (says(child@, "status"@, "done"@) || says(
                child@,
                "status"@,
                "error"@,
            ) || says(child@, "status"@, "cancelled"@));
            let at_once = ends && !after.observed;
            &&& differs_at(old(children)@, final(children)@, at)
            &&& after.observed <==> before.observed || reply is Some
            &&& after.settled <==> before.settled || at_once
            &&& after.terminal_since == if ends && before.terminal_since is None {
                Some(now)
            } else {
                before.terminal_since
            }
            &&& after.watch_key == before.watch_key && after.status == before.status
            &&& after.error == before.error && after.mapper == before.mapper
            &&& after.unobserved == before.unobserved
            &&& list.len() == replay@.len() + (if at_once {
                1int
            } else {
                0
            })
            &&& forall|k: int|
                0 <= k < replay@.len() ==> #[trigger] list[k] == told_of(id, replay@[k]@)
            &&& at_once ==> list.last() == child_end(id, before)
        }),
{
    lemma_position_is(old(children)@, id, at);
    reveal_strlit("running");
    reveal_strlit("done");
    reveal_strlit("error");
    reveal_strlit("cancelled");
    assert("running"@.len() == 7);
    assert("done"@.len() == 4);
    assert("error"@.len() == 5);
    assert("cancelled"@.len() == 9);
    assert(events(replay@).len() == replay@.len());
    assert forall|k: int| 0 <= k < replay@.len() implies events(replay@)[k]
        == #[trigger] replay@[k]@ by {}
    assert(replayed(Seq::<JsonView>::empty()) =~= Seq::<EventView>::empty());
}

/// A snapshot of a child that is not known ends nothing.
pub proof fn a_snapshot_of_an_unknown_child_ends_nothing(
    children: &mut Children,
    child: Json,
    reply: Option<&Json>,
    now: u64,
    found: Vec<AgentEvent>,
    id: Seq<char>,
)
    requires
        call_ensures(Children::finish_update, (children, &child, reply, now), found),
        says(child@, "id"@, id),
        forall|k: int| 0 <= k < old(children)@.len() ==> (#[trigger] old(children)@[k]).0 != id,
    ensures
        final(children)@ == old(children)@,
        found@.len() == 0,
{
    lemma_position_is(old(children)@, id, old(children)@.len() as int);
    assert(events(found@).len() == found@.len());
}

/// Whether a child is the first that is observed under a key.
pub open spec fn is_watched(roster: Roster, key: Seq<char>, at: int) -> bool {
    &&& 0 <= at < roster.len()
    &&& roster[at].1.watch_key == key
    &&& forall|k: int| 0 <= k < at ==> (#[trigger] roster[k]).1.watch_key != key
}

/// An event of an observed child is shown under its name, as the child's own
/// mapper has it. The end of its turn settles it, if it is at its end.
pub proof fn an_event_of_an_observed_child_is_shown(
    children: &mut Children,
    message: Json,
    found: Vec<AgentEvent>,
    mapper: &mut EventMapper,
    event: Json,
    shown: Vec<AgentEvent>,
    key: Seq<char>,
    at: int,
)
    requires
        call_ensures(Children::observed, (children, &message), found),
        call_ensures(EventMapper::map, (mapper, &event), shown),
        says(message@, "type"@, "observed_session_event"@),
        says(message@, "activeSessionId"@, key),
        event@ == message@.at("event"@),
        is_watched(old(children)@, key, at),
        old(mapper)@ == old(children)@[at].1.mapper,
        old(children)@[at].1.observed,
        !old(children)@[at].1.settled,
    ensures
        ({
            let (id, before) = old(children)@[at];
            let after = final(children)@[at].1;
            let list = events(found@);
            let ends = says(event@, "type"@, "agent_end"@) && before.terminal_since is Some;
            &&& differs_at(old(children)@, final(children)@, at)
            &&& after == (ChildView { mapper: final(mapper)@, settled: ends, ..before })
            &&& list.len() == shown@.len() + (if ends {
                1int
            } else {
                0
            })
            &&& forall|k: int|
                0 <= k < shown@.len() ==> #[trigger] list[k] == told_of(id, shown@[k]@)
            &&& ends ==> list.last() == child_end(id, after)
        }),
{
    lemma_watch_position_is(old(children)@, key, at);
    assert(events(shown@).len() == shown@.len());
    assert forall|k: int| 0 <= k < shown@.len() implies events(shown@)[k]
        == #[trigger] shown@[k]@ by {}
}

/// The end of an observed session ends the child: with the error, if there is
/// one, and by its status otherwise.
pub proof fn the_end_of_an_observed_session_ends_the_child(
    children: &mut Children,
    message: Json,
    found: Vec<AgentEvent>,
    key: Seq<char>,
    at: int,
)
    requires
        call_ensures(Children::observed, (children, &message), found),
        says(message@, "type"@, "observed_session_closed"@),
        says(message@, "activeSessionId"@, key),
        is_watched(old(children)@, key, at),
        old(children)@[at].1.observed,
        !old(children)@[at].1.settled,
    ensures
        ({
            let (id, before) = old(children)@[at];
            let after = final(children)@[at].1;
            &&& differs_at(old(children)@, final(children)@, at)
            &&& after.settled
            &&& found@.len() == 1
            &&& events(found@)[0] == child_end(id, after)
            &&& match message@.get("error"@) {
                Some(JsonView::Text(error)) => after.status == "error"@ && after.error == Some(
                    error,
                ),
                _ => after.status == before.status && after.error == before.error,
            }
            &&& after.watch_key == before.watch_key && after.observed
            &&& after.unobserved == before.unobserved && after.mapper == before.mapper
            &&& after.terminal_since == before.terminal_since
        }),
{
    reveal_strlit("observed_session_event");
    reveal_strlit("observed_session_closed");
    assert("observed_session_event"@.len() == 22);
    assert("observed_session_closed"@.len() == 23);
    lemma_watch_position_is(old(children)@, key, at);
    assert(events(found@).len() == found@.len());
}

/// What is heard of a session that no child is observed under, or whose child
/// is not observed or has settled, is passed over.
pub proof fn what_is_heard_of_others_is_passed_over(
    children: &mut Children,
    message: Json,
    found: Vec<AgentEvent>,
    at: int,
)
    requires
        call_ensures(Children::observed, (children, &message), found),
        forall|key: Seq<char>| #[trigger]
            says(message@, "activeSessionId"@, key) ==> (forall|k: int|
                0 <= k < old(children)@.len() ==> (#[trigger] old(children)@[k]).1.watch_key != key)
                || (is_watched(old(children)@, key, at) && (!old(children)@[at].1.observed
                || old(children)@[at].1.settled)),
    ensures
        final(children)@ == old(children)@,
        found@.len() == 0,
{
    match message@.get("activeSessionId"@) {
        Some(JsonView::Text(key)) => {
            assert(says(message@, "activeSessionId"@, key));
            let roster = old(children)@;
            if is_watched(roster, key, at) {
                lemma_watch_position_is(roster, key, at);
            } else {
                lemma_watch_position_is(roster, key, roster.len() as int);
            }
        },
        _ => {},
    }
    assert(events(found@).len() == found@.len());
}

/// Whether a child has been at its end for half a second and has not settled.
pub open spec fn is_overdue(state: ChildView, now: u64) -> bool {
    !state.settled && (state.terminal_since matches Some(since) && now >= since + 500)
}

/// The ends of the children that are overdue, in order.
pub open spec fn overdue_ends(roster: Roster, now: u64) -> Seq<EventView>
    decreases roster.len(),
{
    if roster.len() == 0 {
        Seq::empty()
    } else if is_overdue(roster.last().1, now) {
        overdue_ends(roster.drop_last(), now).push(
            child_end(roster.last().0, roster.last().1),
        )
    } else {
        overdue_ends(roster.drop_last(), now)
    }
}

proof fn lemma_overdue_ends(roster: Roster, now: u64)
    ensures
        due_ends(roster, now) == overdue_ends(roster, now),
    decreases roster.len(),
{
    if roster.len() > 0 {
        let step = |entry: (Seq<char>, ChildView)| settled_if_due(entry, now).1;
        lemma_overdue_ends(roster.drop_last(), now);
        assert(roster.map_values(step).drop_last() =~= roster.drop_last().map_values(step));
    }
}

/// A child that has been at its end for half a second settles, and its end is
/// told; no other does. The ends are told in the order of the children.
pub proof fn a_child_settles_half_a_second_after_its_end(
    children: &mut Children,
    now: u64,
    found: Vec<AgentEvent>,
)
    requires
        call_ensures(Children::settle_due, (children, now), found),
    ensures
        final(children)@.len() == old(children)@.len(),
        forall|k: int|
            0 <= k < old(children)@.len() ==> {
                let (id, before) = old(children)@[k];
                (#[trigger] final(children)@[k]) == (
                    id,
                    ChildView { settled: before.settled || is_overdue(before, now), ..before },
                )
            },
        events(found@) == overdue_ends(old(children)@, now),
{
    lemma_overdue_ends(old(children)@, now);
}

/// The keys of the children that have settled, are observed and were not given
/// up yet, in order.
pub open spec fn keys_to_give_up(roster: Roster) -> Seq<Seq<char>>
    decreases roster.len(),
{
    if roster.len() == 0 {
        Seq::empty()
    } else {
        let state = roster.last().1;
        let before = keys_to_give_up(roster.drop_last());
        if state.settled && state.observed && !state.unobserved {
            before.push(state.watch_key)
        } else {
            before
        }
    }
}

proof fn lemma_keys_to_give_up(roster: Roster)
    ensures
        releases(roster) == keys_to_give_up(roster),
    decreases roster.len(),
{
    if roster.len() > 0 {
        let step = |entry: (Seq<char>, ChildView)| released(entry).1;
        lemma_keys_to_give_up(roster.drop_last());
        assert(roster.map_values(step).drop_last() =~= roster.drop_last().map_values(step));
    }
}

/// The observation of a child that has settled is given up, once.
pub proof fn the_observation_of_a_settled_child_is_given_up(
    children: &mut Children,
    keys: Vec<String>,
)
    requires
        call_ensures(Children::finished_observations, (children,), keys),
    ensures
        final(children)@.len() == old(children)@.len(),
        forall|k: int|
            0 <= k < old(children)@.len() ==> {
                let (id, before) = old(children)@[k];
                (#[trigger] final(children)@[k]) == (
                    id,
                    ChildView {
                        unobserved: before.unobserved || (before.settled && before.observed),
                        ..before
                    },
                )
            },
        texts(keys@) == keys_to_give_up(old(children)@),
{
    lemma_keys_to_give_up(old(children)@);
}

/// The ends of the children that are open, each cancelled, in order.
pub open spec fn cancelled_ends(roster: Roster) -> Seq<EventView>
    decreases roster.len(),
{
    if roster.len() == 0 {
        Seq::empty()
    } else {
        let (id, state) = roster.last();
        let before = cancelled_ends(roster.drop_last());
        if state.settled {
            before
        } else {
            before.push(
                told_of(
                    id,
                    EventView::Done {
                        status: DoneStatus::Interrupted,
                        result: None,
                        error: if state.error is Some {
                            state.error
                        } else {
                            state.mapper.failure
                        },
                        session_id: None,
                    },
                ),
            )
        }
    }
}

proof fn lemma_cancelled_ends(roster: Roster)
    ensures
        open_ends(roster) == cancelled_ends(roster),
    decreases roster.len(),
{
    reveal_strlit("error");
    reveal_strlit("cancelled");
    assert("error"@.len() == 5);
    assert("cancelled"@.len() == 9);
    if roster.len() > 0 {
        let step = |entry: (Seq<char>, ChildView)| cut_off(entry).1;
        lemma_cancelled_ends(roster.drop_last());
        assert(roster.map_values(step).drop_last() =~= roster.drop_last().map_values(step));
    }
}

/// At the close every open child is cancelled and its end told as interrupted,
/// in order; those that have settled are left as they are.
pub proof fn the_close_cancels_what_is_open(children: &mut Children, found: Vec<AgentEvent>)
    requires
        call_ensures(Children::finish_open, (children,), found),
    ensures
        final(children)@.len() == old(children)@.len(),
        forall|k: int|
            0 <= k < old(children)@.len() ==> {
                let (id, before) = old(children)@[k];
                (#[trigger] final(children)@[k]) == (
                    id,
                    if before.settled {
                        before
                    } else {
                        ChildView { status: "cancelled"@, settled: true, ..before }
                    },
                )
            },
        events(found@) == cancelled_ends(old(children)@),
{
    lemma_cancelled_ends(old(children)@);
}

} // verus!
