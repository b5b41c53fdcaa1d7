//! What holds of the life of every child, from its first event to its last.

use vstd::prelude::*;

#[allow(unused_imports)]
use crate::children::{
    after_close, after_due, after_release, all_tagged, announcement, backlog, begun,
    children_stay_distinct, closing_ends_every_open_child, concluded, cut_off, distinct, due_ends,
    finished, is_child_end, lemma_watch_position, open_ends, overheard, settled_if_due,
    snapshot_id, snapshot_status, tool_id_of, watch_position, watched, ChildView, Roster,
};
#[allow(unused_imports)]
use crate::events::{
    is_in_turn, mapped, mapping_never_ends_a_turn, replayed, replaying_never_ends_a_turn,
};
#[allow(unused_imports)]
use crate::json::{lemma_position, lemma_position_is, position, text_or, JsonView};
#[allow(unused_imports)]
use crate::lists::{lemma_somes_from, somes};
#[allow(unused_imports)]
use crate::proto::{DoneStatus, EventView};

verus! {

/// Something that the children of a session are told of.
#[allow(inconsistent_fields)]
pub enum Call {
    /// A snapshot of a child. The reply is that to the attempt to observe the
    /// child, where one is made and succeeds.
    Update {
        child: JsonView,
        cwd: Seq<char>,
        message_id: Seq<char>,
        reply: Option<JsonView>,
        now: u64,
    },
    /// A message of an observed session.
    Heard { message: JsonView },
    /// The time.
    Due { now: u64 },
    /// The observations that are over are given up.
    Release,
}

/// What a whole snapshot makes of the roster, and the events that it brings.
pub open spec fn updated(
    roster: Roster,
    child: JsonView,
    cwd: Seq<char>,
    message_id: Seq<char>,
    reply: Option<JsonView>,
    now: u64,
) -> (Roster, Seq<EventView>) {
    let (middle, found, observe) = begun(roster, child, cwd, message_id);
    let answer = if observe is Some {
        reply
    } else {
        None
    };
    let (after, more) = finished(middle, child, answer, now);
    (after, found + more)
}

/// What a call makes of the roster, and the events that it brings.
pub open spec fn called(roster: Roster, call: Call) -> (Roster, Seq<EventView>) {
    match call {
        Call::Update { child, cwd, message_id, reply, now } => updated(
            roster,
            child,
            cwd,
            message_id,
            reply,
            now,
        ),
        Call::Heard { message } => overheard(roster, message),
        Call::Due { now } => (after_due(roster, now), due_ends(roster, now)),
        Call::Release => (after_release(roster), Seq::empty()),
    }
}

/// The roster after some calls, and the events that they brought.
pub open spec fn history(calls: Seq<Call>) -> (Roster, Seq<EventView>)
    decreases calls.len(),
{
    if calls.len() == 0 {
        (Seq::empty(), Seq::empty())
    } else {
        let (roster, found) = history(calls.drop_last());
        let (after, more) = called(roster, calls.last());
        (after, found + more)
    }
}

/// All events of the children of a session that is closed after some calls.
pub open spec fn whole_history(calls: Seq<Call>) -> Seq<EventView> {
    history(calls).1 + open_ends(history(calls).0)
}

/// Whether some call is a snapshot of a child.
pub open spec fn is_named(calls: Seq<Call>, id: Seq<char>) -> bool {
    exists|i: int| 0 <= i < calls.len() && names(#[trigger] calls[i], id)
}

/// Whether a call is a snapshot of a child.
pub open spec fn names(call: Call, id: Seq<char>) -> bool {
    match call {
        Call::Update { child, .. } => snapshot_id(child) == Some(id),
        _ => false,
    }
}

/// Whether an event is one of a child: the tool call that stands for it, or an
/// event under its name.
pub open spec fn is_of(event: EventView, id: Seq<char>) -> bool {
    match event {
        EventView::ToolCall { id: tool, .. } => tool == tool_id_of(id),
        EventView::Subagent { parent_tool_use_id, .. } => parent_tool_use_id == tool_id_of(id),
        _ => false,
    }
}

/// The events of a child, in order.
pub open spec fn of_child(list: Seq<EventView>, id: Seq<char>) -> Seq<EventView>
    decreases list.len(),
{
    if list.len() == 0 {
        Seq::empty()
    } else if is_of(list.last(), id) {
        of_child(list.drop_last(), id).push(list.last())
    } else {
        of_child(list.drop_last(), id)
    }
}

/// Whether an event of a child is neither its start nor its end.
pub open spec fn is_in_between(event: EventView) -> bool {
    match event {
        EventView::Subagent { event, .. } => is_in_turn(*event),
        _ => false,
    }
}

/// Whether the events of a child are those of one at work: the tool call that
/// stands for it, its start, and then neither.
pub open spec fn is_at_work(list: Seq<EventView>) -> bool {
    &&& list.len() >= 2
    &&& list[0] is ToolCall
    &&& list[1] matches EventView::Subagent { event, .. } && *event is SessionStarted
    &&& forall|k: int| 2 <= k < list.len() ==> is_in_between(#[trigger] list[k])
}

/// Whether the events of a child are those of one that came to its end: those of
/// one at work, and its end.
pub open spec fn is_complete(list: Seq<EventView>) -> bool {
    list.len() > 0 && is_at_work(list.drop_last()) && is_child_end(list.last())
}

/// Whether the events of a child are what the roster says of it.
pub open spec fn accords(roster: Roster, list: Seq<EventView>, id: Seq<char>) -> bool {
    let at = position(roster, id);
    if at >= roster.len() {
        list.len() == 0
    } else if roster[at].1.settled {
        is_complete(list)
    } else {
        is_at_work(list)
    }
}

proof fn lemma_tool_ids_differ(a: Seq<char>, b: Seq<char>)
    requires
        a != b,
    ensures
        tool_id_of(a) != tool_id_of(b),
{
    let stem = "prime-child:"@;
    if tool_id_of(a) == tool_id_of(b) {
        assert((stem + a).skip(stem.len() as int) =~= a);
        assert((stem + b).skip(stem.len() as int) =~= b);
    }
}

proof fn lemma_of_concat(a: Seq<EventView>, b: Seq<EventView>, id: Seq<char>)
    ensures
        of_child(a + b, id) == of_child(a, id) + of_child(b, id),
    decreases b.len(),
{
    if b.len() == 0 {
        assert(a + b =~= a);
        assert(of_child(a, id) + of_child(b, id) =~= of_child(a, id));
    } else {
        lemma_of_concat(a, b.drop_last(), id);
        assert((a + b).drop_last() =~= a + b.drop_last());
        assert((a + b).last() == b.last());
        assert(of_child(a + b, id) =~= of_child(a, id) + of_child(b, id));
    }
}

proof fn lemma_of_own(list: Seq<EventView>, id: Seq<char>)
    requires
        forall|k: int| 0 <= k < list.len() ==> is_of(#[trigger] list[k], id),
    ensures
        of_child(list, id) == list,
    decreases list.len(),
{
    if list.len() > 0 {
        let before = list.drop_last();
        assert forall|k: int| 0 <= k < before.len() implies is_of(#[trigger] before[k], id) by {
            assert(before[k] == list[k]);
        }
        lemma_of_own(before, id);
        assert(is_of(list[list.len() - 1], id));
        assert(before.push(list.last()) =~= list);
    }
}

proof fn lemma_of_other(list: Seq<EventView>, other: Seq<char>, id: Seq<char>)
    requires
        other != id,
        forall|k: int| 0 <= k < list.len() ==> is_of(#[trigger] list[k], other),
    ensures
        of_child(list, id) == Seq::<EventView>::empty(),
    decreases list.len(),
{
    lemma_tool_ids_differ(other, id);
    if list.len() > 0 {
        let before = list.drop_last();
        assert forall|k: int| 0 <= k < before.len() implies is_of(#[trigger] before[k], other) by {
            assert(before[k] == list[k]);
        }
        lemma_of_other(before, other, id);
        assert(is_of(list[list.len() - 1], other));
    }
}

/// Of events that come one to an entry at most, the child at an index has the
/// one of its entry.
proof fn lemma_of_entries(roster: Roster, list: Seq<Option<EventView>>, id: Seq<char>)
    requires
        list.len() == roster.len(),
        distinct(roster),
        forall|k: int|
            0 <= k < list.len() ==> ((#[trigger] list[k]) matches Some(event) ==> is_of(
                event,
                roster[k].0,
            )),
    ensures
        ({
            let at = position(roster, id);
            of_child(somes(list), id) == if at < roster.len() && list[at] is Some {
                seq![list[at]->0]
            } else {
                Seq::<EventView>::empty()
            }
        }),
    decreases roster.len(),
{
    if roster.len() > 0 {
        let before = roster.drop_last();
        let rest = list.drop_last();
        assert forall|k: int| 0 <= k < rest.len() implies ((#[trigger] rest[k]) matches Some(
            event,
        ) ==> is_of(event, before[k].0)) by {
            assert(rest[k] == list[k]);
            assert(before[k] == roster[k]);
        }
        assert(distinct(before)) by {
            assert forall|i: int, j: int| 0 <= i < j < before.len() implies (
            #[trigger] before[i]).0 != (#[trigger] before[j]).0 by {
                assert(roster[i].0 != roster[j].0);
            }
        }
        lemma_of_entries(before, rest, id);
        lemma_position(before, id);
        lemma_position(roster, id);
        let n = before.len() as int;
        let at = position(before, id);
        let last = roster[n];
        assert(forall|k: int| 0 <= k < n ==> #[trigger] roster[k] == before[k]);
        if at < n {
            lemma_position_is(roster, id, at);
            assert(roster[at].0 != roster[n].0);
            lemma_tool_ids_differ(last.0, id);
            assert(rest[at] == list[at]);
        } else if last.0 == id {
            lemma_position_is(roster, id, n);
        } else {
            lemma_position_is(roster, id, n + 1);
            lemma_tool_ids_differ(last.0, id);
        }
        let kept = somes(rest);
        match list[n] {
            Some(event) => {
                assert(is_of(event, last.0));
                assert(somes(list) == kept.push(event));
                assert(kept.push(event).drop_last() =~= kept);
                if last.0 == id {
                    assert(of_child(somes(list), id) =~= seq![event]);
                }
            },
            None => {},
        }
    }
}

proof fn lemma_push_end(list: Seq<EventView>, end: EventView)
    requires
        is_at_work(list),
        is_child_end(end),
    ensures
        is_complete(list.push(end)),
{
    assert(list.push(end).drop_last() =~= list);
}

proof fn lemma_more_work(list: Seq<EventView>, more: Seq<EventView>)
    requires
        is_at_work(list),
        forall|k: int| 0 <= k < more.len() ==> is_in_between(#[trigger] more[k]),
    ensures
        is_at_work(list + more),
{
    let all = list + more;
    assert(all[0] == list[0]);
    assert(all[1] == list[1]);
    assert forall|k: int| 2 <= k < all.len() implies is_in_between(#[trigger] all[k]) by {
        if k < list.len() {
            assert(all[k] == list[k]);
        } else {
            assert(all[k] == more[k - list.len()]);
        }
    }
}

proof fn lemma_tagged(id: Seq<char>, found: Seq<EventView>)
    requires
        forall|k: int| 0 <= k < found.len() ==> is_in_turn(#[trigger] found[k]),
    ensures
        forall|k: int|
            0 <= k < found.len() ==> is_in_between(#[trigger] all_tagged(id, found)[k]) && is_of(
                all_tagged(id, found)[k],
                id,
            ),
{
    assert forall|k: int| 0 <= k < found.len() implies is_in_between(
        #[trigger] all_tagged(id, found)[k],
    ) && is_of(all_tagged(id, found)[k], id) by {
        assert(is_in_turn(found[k]));
    }
}

proof fn lemma_backlog(id: Seq<char>, reply: Option<JsonView>)
    ensures
        forall|k: int|
            0 <= k < backlog(id, reply).len() ==> is_in_between(#[trigger] backlog(id, reply)[k])
                && is_of(backlog(id, reply)[k], id),
{
    match reply {
        Some(data) => match data.get("messages"@) {
            Some(messages) => match messages.as_array() {
                Some(list) => {
                    replaying_never_ends_a_turn(list);
                    lemma_tagged(id, replayed(list));
                },
                None => {},
            },
            None => {},
        },
        None => {},
    }
}

/// A change of one entry that keeps its name leaves the others where they were.
proof fn lemma_kept_positions(roster: Roster, at: int, entry: (Seq<char>, ChildView), id: Seq<char>)
    requires
        0 <= at < roster.len(),
        entry.0 == roster[at].0,
    ensures
        position(roster.update(at, entry), id) == position(roster, id),
{
    lemma_position(roster, id);
    lemma_position_is(roster.update(at, entry), id, position(roster, id));
}

proof fn lemma_update_accords(
    roster: Roster,
    list: Seq<EventView>,
    id: Seq<char>,
    child: JsonView,
    cwd: Seq<char>,
    message_id: Seq<char>,
    reply: Option<JsonView>,
    now: u64,
)
    requires
        distinct(roster),
        accords(roster, list, id),
    ensures
        ({
            let (after, found) = updated(roster, child, cwd, message_id, reply, now);
            accords(after, list + of_child(found, id), id)
        }),
{
    let (after, found) = updated(roster, child, cwd, message_id, reply, now);
    let (middle, first, observe) = begun(roster, child, cwd, message_id);
    match snapshot_id(child) {
        Some(own) => {
            let at = position(roster, own);
            lemma_position(roster, own);
            lemma_position(roster, id);
            let answer = if observe is Some {
                reply
            } else {
                None
            };
            lemma_backlog(own, answer);
            // The child stands in the roster at one place, before and after.
            if at < roster.len() {
                lemma_kept_positions(roster, at, middle[at], own);
                lemma_kept_positions(roster, at, middle[at], id);
            } else {
                lemma_position_is(middle, own, at);
                if id != own {
                    let there = position(roster, id);
                    if there < roster.len() {
                        lemma_position_is(middle, id, there);
                    } else {
                        lemma_position_is(middle, id, middle.len() as int);
                    }
                }
            }
            assert(position(middle, own) == at);
            assert(middle[at].0 == own);
            let seen = watched(middle[at].1, answer);
            let (state, end) = concluded(own, seen, snapshot_status(child), now);
            let more = backlog(own, answer) + end;
            assert(after == middle.update(at, (own, state)));
            assert(found == first + more);
            lemma_kept_positions(middle, at, (own, state), id);
            assert forall|k: int| 0 <= k < found.len() implies is_of(#[trigger] found[k], own) by {
                if k >= first.len() {
                    let m = k - first.len();
                    if m < backlog(own, answer).len() {
                        assert(found[k] == backlog(own, answer)[m]);
                    } else {
                        assert(found[k] == end[m - backlog(own, answer).len()]);
                    }
                }
            }
            if own != id {
                lemma_of_other(found, own, id);
                assert(list + of_child(found, id) =~= list);
            } else {
                lemma_of_own(found, id);
                let start = list + first;
                if at >= roster.len() {
                    assert(start =~= first);
                }
                assert(middle[at].1.settled == (at < roster.len() && roster[at].1.settled));
                if middle[at].1.settled {
                    assert(answer is None);
                    assert(more =~= Seq::<EventView>::empty());
                    assert(first =~= Seq::<EventView>::empty());
                    assert(list + found =~= list);
                } else {
                    assert(is_at_work(start)) by {
                        if at < roster.len() {
                            assert(start =~= list);
                        } else {
                            assert(start =~= announcement(own, child, cwd, message_id));
                        }
                    }
                    let worked = start + backlog(own, answer);
                    lemma_more_work(start, backlog(own, answer));
                    assert(list + found =~= worked + end);
                    if end.len() > 0 {
                        assert(worked + end =~= worked.push(end[0]));
                        lemma_push_end(worked, end[0]);
                    } else {
                        assert(worked + end =~= worked);
                    }
                }
            }
        },
        None => {
            assert(found =~= Seq::<EventView>::empty());
            assert(list + of_child(found, id) =~= list);
        },
    }
}

proof fn lemma_heard_accords(
    roster: Roster,
    list: Seq<EventView>,
    id: Seq<char>,
    message: JsonView,
)
    requires
        distinct(roster),
        accords(roster, list, id),
    ensures
        ({
            let (after, found) = overheard(roster, message);
            accords(after, list + of_child(found, id), id)
        }),
{
    let (after, found) = overheard(roster, message);
    if after == roster && found.len() == 0 {
        assert(found =~= Seq::<EventView>::empty());
        assert(list + of_child(found, id) =~= list);
    } else {
        let key = message.field("activeSessionId"@)->0;
        let at = watch_position(roster, key);
        lemma_watch_position(roster, key);
        let (own, state) = roster[at];
        lemma_kept_positions(roster, at, after[at], id);
        lemma_position(roster, id);
        if message.field("type"@) == Some("observed_session_event"@) {
            let event = message.at("event"@);
            let brought = mapped(state.mapper, event).1;
            mapping_never_ends_a_turn(state.mapper, event);
            lemma_tagged(own, brought);
            let tagged = all_tagged(own, brought);
            assert forall|k: int| 0 <= k < found.len() implies is_of(#[trigger] found[k], own) by {
                if k < tagged.len() {
                    assert(found[k] == tagged[k]);
                }
            }
            if own == id {
                lemma_position_is(roster, id, at);
                lemma_of_own(found, id);
                lemma_more_work(list, tagged);
                if found.len() > tagged.len() {
                    assert(list + found =~= (list + tagged).push(found.last()));
                    lemma_push_end(list + tagged, found.last());
                } else {
                    assert(found =~= tagged);
                }
            }
        } else {
            assert forall|k: int| 0 <= k < found.len() implies is_of(#[trigger] found[k], own) by {}
            if own == id {
                lemma_position_is(roster, id, at);
                lemma_of_own(found, id);
                assert(list + found =~= list.push(found[0]));
                lemma_push_end(list, found[0]);
            }
        }
        if own != id {
            lemma_of_other(found, own, id);
            assert(list + of_child(found, id) =~= list);
            if position(roster, id) < roster.len() {
                assert(position(roster, id) != at);
            }
        }
    }
}

proof fn lemma_due_accords(roster: Roster, list: Seq<EventView>, id: Seq<char>, now: u64)
    requires
        distinct(roster),
        accords(roster, list, id),
    ensures
        accords(after_due(roster, now), list + of_child(due_ends(roster, now), id), id),
{
    let step = |entry: (Seq<char>, ChildView)| settled_if_due(entry, now).1;
    let ends = roster.map_values(step);
    assert forall|k: int| 0 <= k < ends.len() implies ((#[trigger] ends[k]) matches Some(
        event,
    ) ==> is_of(event, roster[k].0)) by {}
    lemma_of_entries(roster, ends, id);
    lemma_position(roster, id);
    let at = position(roster, id);
    lemma_position_is(after_due(roster, now), id, at);
    let found = of_child(due_ends(roster, now), id);
    if at < roster.len() && ends[at] is Some {
        assert(list + found =~= list.push(ends[at]->0));
        lemma_push_end(list, ends[at]->0);
    } else {
        assert(list + found =~= list);
    }
}

proof fn lemma_release_accords(roster: Roster, list: Seq<EventView>, id: Seq<char>)
    requires
        accords(roster, list, id),
    ensures
        accords(after_release(roster), list, id),
{
    lemma_position(roster, id);
    lemma_position_is(after_release(roster), id, position(roster, id));
}

/// At every time, each child stands in the roster once, and its events so far
/// are what the roster says of it: none if it is not known, those of a child at
/// work if it is open, and those of a whole life if it has settled.
pub proof fn the_roster_tells_each_childs_life(calls: Seq<Call>, id: Seq<char>)
    ensures
        distinct(history(calls).0),
        accords(history(calls).0, of_child(history(calls).1, id), id),
    decreases calls.len(),
{
    if calls.len() > 0 {
        let before = calls.drop_last();
        the_roster_tells_each_childs_life(before, id);
        let (roster, found) = history(before);
        let list = of_child(found, id);
        let more = called(roster, calls.last()).1;
        lemma_of_concat(found, more, id);
        match calls.last() {
            Call::Update { child, cwd, message_id, reply, now } => {
                lemma_update_accords(roster, list, id, child, cwd, message_id, reply, now);
                let (middle, _, observe) = begun(roster, child, cwd, message_id);
                let answer = if observe is Some {
                    reply
                } else {
                    None
                };
                children_stay_distinct(roster, child, cwd, message_id, reply, child, now);
                children_stay_distinct(middle, child, cwd, message_id, answer, child, now);
            },
            Call::Heard { message } => {
                lemma_heard_accords(roster, list, id, message);
                children_stay_distinct(roster, message, id, id, None, message, 0);
            },
            Call::Due { now } => {
                lemma_due_accords(roster, list, id, now);
                children_stay_distinct(roster, JsonView::Null, id, id, None, JsonView::Null, now);
            },
            Call::Release => {
                lemma_release_accords(roster, list, id);
                children_stay_distinct(roster, JsonView::Null, id, id, None, JsonView::Null, 0);
                assert(list + of_child(more, id) =~= list);
            },
        }
    }
}

/// A child is in the roster if and only if some snapshot was of it.
proof fn lemma_roster_names(calls: Seq<Call>, id: Seq<char>)
    ensures
        is_named(calls, id) <==> position(history(calls).0, id) < history(calls).0.len(),
    decreases calls.len(),
{
    if calls.len() > 0 {
        let before = calls.drop_last();
        let call = calls.last();
        lemma_roster_names(before, id);
        let (roster, _) = history(before);
        let after = history(calls).0;
        lemma_position(roster, id);
        let there = position(roster, id);
        assert(is_named(calls, id) <==> is_named(before, id) || names(call, id)) by {
            if is_named(before, id) {
                let i = choose|i: int| 0 <= i < before.len() && names(#[trigger] before[i], id);
                assert(names(calls[i], id));
            }
            if is_named(calls, id) && !names(call, id) {
                let i = choose|i: int| 0 <= i < calls.len() && names(#[trigger] calls[i], id);
                assert(names(before[i], id));
            }
            if names(call, id) {
                assert(names(calls[calls.len() - 1], id));
            }
        }
        match call {
            Call::Update { child, cwd, message_id, reply, now } => {
                let middle = begun(roster, child, cwd, message_id).0;
                match snapshot_id(child) {
                    Some(own) => {
                        let at = position(roster, own);
                        lemma_position(roster, own);
                        if at < roster.len() {
                            lemma_kept_positions(roster, at, middle[at], id);
                            lemma_kept_positions(roster, at, middle[at], own);
                        } else {
                            lemma_position_is(middle, own, at);
                            if id != own {
                                if there < roster.len() {
                                    lemma_position_is(middle, id, there);
                                } else {
                                    lemma_position_is(middle, id, middle.len() as int);
                                }
                            }
                        }
                        lemma_kept_positions(middle, at, after[at], id);
                    },
                    None => {},
                }
            },
            Call::Heard { message } => {
                match message.field("activeSessionId"@) {
                    Some(key) => {
                        let at = watch_position(roster, key);
                        lemma_watch_position(roster, key);
                        if at < roster.len() {
                            lemma_kept_positions(roster, at, after[at], id);
                            assert(roster.update(at, roster[at]) =~= roster);
                            assert(after =~= roster.update(at, after[at]));
                        }
                    },
                    None => {},
                }
            },
            Call::Due { now } => {
                lemma_position_is(after, id, there);
            },
            Call::Release => {
                lemma_position_is(after, id, there);
            },
        }
    }
}

/// Whatever the children of a session are told of, once the session is closed
/// the events of each child that a snapshot was of are those of one whole life:
/// first the one tool call that stands for it and its one start, last its one
/// end. A child that no snapshot was of has no events.
pub proof fn every_child_has_one_whole_life(calls: Seq<Call>, id: Seq<char>)
    ensures
        is_named(calls, id) ==> is_complete(of_child(whole_history(calls), id)),
        !is_named(calls, id) ==> of_child(whole_history(calls), id).len() == 0,
{
    let (roster, found) = history(calls);
    the_roster_tells_each_childs_life(calls, id);
    lemma_roster_names(calls, id);
    let list = of_child(found, id);
    let step = |entry: (Seq<char>, ChildView)| cut_off(entry).1;
    let ends = roster.map_values(step);
    assert forall|k: int| 0 <= k < ends.len() implies ((#[trigger] ends[k]) matches Some(
        event,
    ) ==> is_of(event, roster[k].0)) by {}
    lemma_of_entries(roster, ends, id);
    lemma_of_concat(found, open_ends(roster), id);
    lemma_position(roster, id);
    let at = position(roster, id);
    let last = of_child(open_ends(roster), id);
    if at < roster.len() && ends[at] is Some {
        assert(list + last =~= list.push(ends[at]->0));
        lemma_push_end(list, ends[at]->0);
    } else {
        assert(list + last =~= list);
    }
}

/// Whether an event is the end of a child that was interrupted.
pub open spec fn is_interrupted_end(event: EventView) -> bool {
    match event {
        EventView::Subagent { event, .. } => match *event {
            EventView::Done { status, .. } => status == DoneStatus::Interrupted,
            _ => false,
        },
        _ => false,
    }
}

/// The close of a session brings the interrupted end of each child that had
/// none, and nothing else; a second close brings nothing.
pub proof fn closing_interrupts_what_is_open(calls: Seq<Call>, id: Seq<char>)
    ensures
        forall|k: int|
            0 <= k < open_ends(history(calls).0).len() ==> is_interrupted_end(
                #[trigger] open_ends(history(calls).0)[k],
            ),
        of_child(open_ends(history(calls).0), id).len() == if is_named(calls, id) && !is_complete(
            of_child(history(calls).1, id),
        ) {
            1nat
        } else {
            0
        },
        open_ends(after_close(history(calls).0)) == Seq::<EventView>::empty(),
{
    let (roster, found) = history(calls);
    the_roster_tells_each_childs_life(calls, id);
    lemma_roster_names(calls, id);
    closing_ends_every_open_child(roster);
    let step = |entry: (Seq<char>, ChildView)| cut_off(entry).1;
    let ends = roster.map_values(step);
    assert forall|k: int| 0 <= k < ends.len() implies ((#[trigger] ends[k]) matches Some(
        event,
    ) ==> is_of(event, roster[k].0)) by {}
    lemma_of_entries(roster, ends, id);
    lemma_position(roster, id);
    let list = of_child(found, id);
    if is_at_work(list) && is_complete(list) {
        let end = list[list.len() - 1];
        if list.len() > 2 {
            assert(is_in_between(end));
        }
        assert(false);
    }
    reveal_strlit("error");
    reveal_strlit("cancelled");
    assert("error"@.len() != "cancelled"@.len());
    let all = open_ends(roster);
    assert forall|k: int| 0 <= k < all.len() implies is_interrupted_end(#[trigger] all[k]) by {
        lemma_somes_from(ends, k);
        let i = choose|i: int| 0 <= i < ends.len() && ends[i] == Some(#[trigger] somes(ends)[k]);
        assert(ends[i] == cut_off(roster[i]).1);
    }
}

/// The last session key in the snapshots of a child; its name where there was
/// none.
pub open spec fn key_after(calls: Seq<Call>, id: Seq<char>) -> Seq<char>
    decreases calls.len(),
{
    if calls.len() == 0 {
        id
    } else {
        let before = key_after(calls.drop_last(), id);
        match calls.last() {
            Call::Update { child, .. } => if snapshot_id(child) == Some(id) {
                text_or(child.field("activeSessionId"@), before)
            } else {
                before
            },
            _ => before,
        }
    }
}

/// Whether a call is a snapshot on which a child was to be observed, and the
/// attempt succeeded.
pub open spec fn observation(calls: Seq<Call>, i: int, id: Seq<char>) -> bool {
    0 <= i < calls.len() && match calls[i] {
        Call::Update { child, cwd, message_id, reply, .. } => {
            &&& snapshot_id(child) == Some(id)
            &&& begun(history(calls.take(i)).0, child, cwd, message_id).2 is Some
            &&& reply is Some
        },
        _ => false,
    }
}

/// Whether the session key of a child is still the one that it had after a call.
pub open spec fn key_kept(calls: Seq<Call>, i: int, id: Seq<char>) -> bool {
    forall|j: int|
        i < j <= calls.len() ==> key_after(#[trigger] calls.take(j), id) == key_after(calls, id)
}

/// Whether a child was observed by one of the first `n` calls, and its session
/// key has not changed since.
pub open spec fn is_observed(calls: Seq<Call>, n: int, id: Seq<char>) -> bool {
    exists|i: int| 0 <= i < n && #[trigger] observation(calls, i, id) && key_kept(calls, i, id)
}

/// Whether an end is among the events of a child.
pub open spec fn has_end(list: Seq<EventView>) -> bool {
    exists|k: int| 0 <= k < list.len() && is_child_end(#[trigger] list[k])
}

/// One more call leaves the observations before it, as long as the session key
/// stays.
proof fn lemma_observed_before(calls: Seq<Call>, id: Seq<char>)
    requires
        calls.len() > 0,
    ensures
        is_observed(calls, calls.len() - 1, id) <==> is_observed(
            calls.drop_last(),
            calls.len() - 1,
            id,
        ) && key_after(calls, id) == key_after(calls.drop_last(), id),
{
    let before = calls.drop_last();
    let n = before.len() as int;
    assert(calls.take(n) =~= before);
    assert(calls.take(n + 1) =~= calls);
    assert forall|j: int| 0 <= j <= n implies #[trigger] calls.take(j) == before.take(j) by {
        assert(calls.take(j) =~= before.take(j));
    }
    if is_observed(calls, n, id) {
        let i = choose|i: int|
            0 <= i < n && #[trigger] observation(calls, i, id) && key_kept(calls, i, id);
        assert(calls.take(i) == before.take(i));
        assert(observation(before, i, id));
        assert(key_after(calls.take(n), id) == key_after(calls, id));
        assert forall|j: int| i < j <= n implies key_after(#[trigger] before.take(j), id)
            == key_after(before, id) by {
            assert(calls.take(j) == before.take(j));
        }
    }
    if is_observed(before, n, id) && key_after(calls, id) == key_after(before, id) {
        let i = choose|i: int|
            0 <= i < n && #[trigger] observation(before, i, id) && key_kept(before, i, id);
        assert(calls.take(i) == before.take(i));
        assert(observation(calls, i, id));
        assert forall|j: int| i < j <= n + 1 implies key_after(#[trigger] calls.take(j), id)
            == key_after(calls, id) by {
            if j <= n {
                assert(calls.take(j) == before.take(j));
            }
        }
    }
}

/// The last call counts as well, where it is an observation.
proof fn lemma_observed_now(calls: Seq<Call>, id: Seq<char>)
    requires
        calls.len() > 0,
    ensures
        is_observed(calls, calls.len() as int, id) <==> is_observed(calls, calls.len() - 1, id)
            || observation(calls, calls.len() - 1, id),
{
    let n = calls.len() - 1;
    assert(calls.take(n + 1) =~= calls);
    if observation(calls, n, id) {
        assert(key_kept(calls, n, id));
    }
    if is_observed(calls, n + 1, id) {
        let i = choose|i: int|
            0 <= i < n + 1 && #[trigger] observation(calls, i, id) && key_kept(calls, i, id);
        if i < n {
            assert(is_observed(calls, n, id));
        }
    }
    if is_observed(calls, n, id) {
        let i = choose|i: int|
            0 <= i < n && #[trigger] observation(calls, i, id) && key_kept(calls, i, id);
        assert(0 <= i < n + 1 && observation(calls, i, id));
    }
}

/// Whether the roster knows of a child under which key it is to be observed,
/// and whether it is.
spec fn knows_watch(calls: Seq<Call>, id: Seq<char>) -> bool {
    let roster = history(calls).0;
    let at = position(roster, id);
    if at < roster.len() {
        roster[at].1.watch_key == key_after(calls, id) && roster[at].1.observed == is_observed(
            calls,
            calls.len() as int,
            id,
        )
    } else {
        key_after(calls, id) == id && !is_observed(calls, calls.len() as int, id)
    }
}

/// A call that is no snapshot of a child leaves its session key, and observes it
/// no further.
proof fn lemma_other_call(calls: Seq<Call>, id: Seq<char>)
    requires
        calls.len() > 0,
        !names(calls.last(), id),
    ensures
        key_after(calls, id) == key_after(calls.drop_last(), id),
        is_observed(calls, calls.len() as int, id) == is_observed(
            calls.drop_last(),
            calls.len() - 1,
            id,
        ),
{
    lemma_observed_before(calls, id);
    lemma_observed_now(calls, id);
}

proof fn lemma_update_watch(calls: Seq<Call>, id: Seq<char>)
    requires
        calls.len() > 0,
        calls.last() is Update,
        knows_watch(calls.drop_last(), id),
    ensures
        knows_watch(calls, id),
{
    let before = calls.drop_last();
    let n = before.len() as int;
    assert(calls.take(n) =~= before);
    let (roster, _) = history(before);
    lemma_position(roster, id);
    let there = position(roster, id);
    match calls.last() {
        Call::Update { child, cwd, message_id, reply, now } => {
            let (middle, _, observe) = begun(roster, child, cwd, message_id);
            let after = history(calls).0;
            match snapshot_id(child) {
                Some(own) => {
                    let at = position(roster, own);
                    lemma_position(roster, own);
                    if at < roster.len() {
                        lemma_kept_positions(roster, at, middle[at], id);
                        lemma_kept_positions(roster, at, middle[at], own);
                    } else {
                        lemma_position_is(middle, own, at);
                        if id != own {
                            if there < roster.len() {
                                lemma_position_is(middle, id, there);
                            } else {
                                lemma_position_is(middle, id, middle.len() as int);
                            }
                        }
                    }
                    lemma_kept_positions(middle, at, after[at], id);
                    if own == id {
                        lemma_observed_before(calls, id);
                        lemma_observed_now(calls, id);
                        assert(observation(calls, n, id) == (observe is Some && reply is Some));
                        assert(middle[at].1.watch_key == key_after(calls, id));
                    } else {
                        lemma_other_call(calls, id);
                        if there < roster.len() {
                            assert(there != at);
                            assert(after[there] == roster[there]);
                        }
                    }
                },
                None => {
                    lemma_other_call(calls, id);
                },
            }
        },
        _ => {},
    }
}

proof fn lemma_watch_known(calls: Seq<Call>, id: Seq<char>)
    ensures
        knows_watch(calls, id),
    decreases calls.len(),
{
    if calls.len() > 0 {
        let before = calls.drop_last();
        lemma_watch_known(before, id);
        let (roster, _) = history(before);
        let after = history(calls).0;
        lemma_position(roster, id);
        let there = position(roster, id);
        match calls.last() {
            Call::Update { .. } => {
                lemma_update_watch(calls, id);
            },
            Call::Heard { message } => {
                lemma_other_call(calls, id);
                match message.field("activeSessionId"@) {
                    Some(key) => {
                        let at = watch_position(roster, key);
                        lemma_watch_position(roster, key);
                        if at < roster.len() {
                            lemma_kept_positions(roster, at, after[at], id);
                            assert(after =~= roster.update(at, after[at]));
                        }
                    },
                    None => {},
                }
            },
            Call::Due { now } => {
                lemma_other_call(calls, id);
                lemma_position_is(after, id, there);
            },
            Call::Release => {
                lemma_other_call(calls, id);
                lemma_position_is(after, id, there);
            },
        }
    }
}

/// A snapshot asks for an observation of its child, under the last session key
/// of the child's snapshots, if and only if the child is not queued, has no end
/// yet, and was not observed since that key last changed. An observation that
/// succeeds brings the events of the messages in the reply, under the child's
/// name, behind the child's announcement, if it is new, and before its end, if
/// it ends; one that fails brings nothing.
pub proof fn a_child_is_observed_until_it_succeeds(
    calls: Seq<Call>,
    child: JsonView,
    cwd: Seq<char>,
    message_id: Seq<char>,
    reply: Option<JsonView>,
    now: u64,
)
    requires
        snapshot_id(child) is Some,
    ensures
        ({
            let id = snapshot_id(child)->0;
            let all = calls.push(Call::Update { child, cwd, message_id, reply, now });
            let (roster, so_far) = history(calls);
            let asks = snapshot_status(child) != "queued"@ && !has_end(of_child(so_far, id))
                && !is_observed(all, calls.len() as int, id);
            let first = if is_named(calls, id) {
                Seq::empty()
            } else {
                announcement(id, child, cwd, message_id)
            };
            let replay = if asks {
                backlog(id, reply)
            } else {
                Seq::empty()
            };
            let found = updated(roster, child, cwd, message_id, reply, now).1;
            &&& begun(roster, child, cwd, message_id).2 == if asks {
                Some(key_after(all, id))
            } else {
                None
            }
            &&& found == first + replay || (found.len() > 0 && found.drop_last() == first + replay
                && is_child_end(found.last()))
        }),
{
    let id = snapshot_id(child)->0;
    let all = calls.push(Call::Update { child, cwd, message_id, reply, now });
    let (roster, so_far) = history(calls);
    let list = of_child(so_far, id);
    assert(all.drop_last() =~= calls);
    the_roster_tells_each_childs_life(calls, id);
    lemma_roster_names(calls, id);
    lemma_watch_known(calls, id);
    lemma_observed_before(all, id);
    lemma_position(roster, id);
    let at = position(roster, id);
    // An end is among the events of a child if and only if it has settled.
    if at < roster.len() {
        if roster[at].1.settled {
            assert(is_child_end(list[list.len() - 1]));
        } else {
            assert forall|k: int| 0 <= k < list.len() implies !is_child_end(#[trigger] list[k]) by {
                if k >= 2 {
                    assert(is_in_between(list[k]));
                }
            }
        }
    }
    let (middle, first, observe) = begun(roster, child, cwd, message_id);
    assert(middle[at].0 == id);
    if at < roster.len() {
        lemma_kept_positions(roster, at, middle[at], id);
    } else {
        lemma_position_is(middle, id, at);
    }
    let answer = if observe is Some {
        reply
    } else {
        None
    };
    let seen = watched(middle[at].1, answer);
    let end = concluded(id, seen, snapshot_status(child), now).1;
    let found = updated(roster, child, cwd, message_id, reply, now).1;
    let told = first + backlog(id, answer);
    assert(found =~= told + end);
    if end.len() > 0 {
        assert(found.drop_last() =~= told);
    } else {
        assert(found =~= told);
    }
}

} // verus!
