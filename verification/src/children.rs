//! The sub-agents of a session.
//!
//! Prime reports each child by snapshots of its status. A child that runs is
//! observed: its own events then come in, and are handed on under the child's
//! name. A child that has come to its end is settled once.

use vstd::prelude::*;

use crate::events::{replay_messages, EventMapper, MapperView};
#[allow(unused_imports)]
use crate::events::{
    fresh_mapper, is_in_turn, mapped, mapping_never_ends_a_turn, replayed,
    replaying_never_ends_a_turn, some_text,
};
use crate::ids::fresh_uuid;
#[allow(unused_imports)]
use crate::ids::is_uuid_text;
use crate::json::{copy_text, text_is, text_or_else, Json, JsonView};
#[allow(unused_imports)]
use crate::json::{
    empty_object, lemma_position, lemma_position_is, opt_text, position, text_or, texts,
};
#[allow(unused_imports)]
use crate::lists::{lemma_somes_next, somes};
use crate::proto::{
    done_event, no_events, push_event, AgentEvent, CallView, DoneStatus, EventView, HarnessId,
    ToolCall,
};
#[allow(unused_imports)]
use crate::proto::{done, events};
use crate::text::same_text;

verus! {

/// How long, in milliseconds, a child that has come to its end is given for
/// its last events.
pub const SETTLE_AFTER: u64 = 500;

/// What is known of a child.
pub struct ChildView {
    pub watch_key: Seq<char>,
    pub status: Seq<char>,
    pub error: Option<Seq<char>>,
    pub observed: bool,
    pub unobserved: bool,
    pub settled: bool,
    pub terminal_since: Option<u64>,
    pub mapper: MapperView,
}

/// The children of a session, by name, in the order in which they came up.
pub type Roster = Seq<(Seq<char>, ChildView)>;

/// Whether each child stands in the roster once.
pub open spec fn distinct(roster: Roster) -> bool {
    forall|i: int, j: int|
        0 <= i < j < roster.len() ==> (#[trigger] roster[i]).0 != (#[trigger] roster[j]).0
}

/// The name of the tool call that stands for a child.
pub open spec fn tool_id_of(child_id: Seq<char>) -> Seq<char> {
    "prime-child:"@ + child_id
}

/// An event of a child.
pub open spec fn tagged_with(child_id: Seq<char>, event: EventView) -> EventView {
    EventView::Subagent { parent_tool_use_id: tool_id_of(child_id), event: Box::new(event) }
}

/// Events of a child.
pub open spec fn all_tagged(child_id: Seq<char>, list: Seq<EventView>) -> Seq<EventView> {
    list.map_values(|event: EventView| tagged_with(child_id, event))
}

/// How a child ended.
pub open spec fn end_status(status: Seq<char>) -> DoneStatus {
    if status == "error"@ {
        DoneStatus::Errored
    } else if status == "cancelled"@ {
        DoneStatus::Interrupted
    } else {
        DoneStatus::Completed
    }
}

/// The end of a child.
pub open spec fn end_of(child_id: Seq<char>, state: ChildView) -> EventView {
    tagged_with(
        child_id,
        done(
            end_status(state.status),
            match state.error {
                Some(error) => Some(error),
                None => state.mapper.failure,
            },
            None,
        ),
    )
}

/// A child after its end was announced.
pub open spec fn ended(state: ChildView) -> ChildView {
    ChildView { settled: true, ..state }
}

/// The name of the child that a snapshot is of.
pub open spec fn snapshot_id(child: JsonView) -> Option<Seq<char>> {
    some_text(child.field("id"@))
}

/// The status in a snapshot.
pub open spec fn snapshot_status(child: JsonView) -> Seq<char> {
    text_or(child.field("status"@), "running"@)
}

/// The model in a snapshot.
pub open spec fn snapshot_model(child: JsonView) -> Seq<char> {
    text_or(child.field("model"@), ""@)
}

/// What a child is called.
pub open spec fn snapshot_label(child: JsonView) -> Seq<char> {
    match child.field("sessionName"@) {
        Some(name) => name,
        None => text_or(child.field("label"@), "Prime subagent"@),
    }
}

/// A child that was not known before.
pub open spec fn new_child(id: Seq<char>, child: JsonView) -> ChildView {
    ChildView {
        watch_key: text_or(child.field("activeSessionId"@), id),
        status: snapshot_status(child),
        error: None,
        observed: false,
        unobserved: false,
        settled: false,
        terminal_since: None,
        mapper: fresh_mapper(),
    }
}

/// The events that announce a child.
pub open spec fn announcement(
    id: Seq<char>,
    child: JsonView,
    cwd: Seq<char>,
    message_id: Seq<char>,
) -> Seq<EventView> {
    let model = snapshot_model(child);
    seq![
        EventView::ToolCall {
            id: tool_id_of(id),
            call: CallView::Unknown {
                name: "Agent: "@ + snapshot_label(child),
                input: if model.len() > 0 {
                    Some(empty_object().set("model"@, JsonView::Text(model)))
                } else {
                    None
                },
            },
        },
        tagged_with(
            id,
            EventView::SessionStarted {
                harness: HarnessId::Prime,
                model,
                tools: Seq::empty(),
                cwd,
                session_id: text_or(child.field("activeSessionId"@), id),
                assistant_message_id: message_id,
            },
        ),
    ]
}

/// A child after a snapshot of it. A new session key has to be observed anew.
pub open spec fn refreshed(state: ChildView, child: JsonView) -> ChildView {
    let moved = match child.field("activeSessionId"@) {
        Some(key) => key != state.watch_key,
        None => false,
    };
    ChildView {
        watch_key: text_or(child.field("activeSessionId"@), state.watch_key),
        observed: state.observed && !moved,
        status: snapshot_status(child),
        error: child.field("error"@),
        ..state
    }
}

/// Whether a child should be observed now.
pub open spec fn wants_observation(state: ChildView) -> bool {
    state.status != "queued"@ && !state.observed && !state.settled
}

/// The roster with the child of a name, which is added where it is new.
pub open spec fn enrolled(roster: Roster, id: Seq<char>, child: JsonView) -> Roster {
    if position(roster, id) < roster.len() {
        roster
    } else {
        roster.push((id, new_child(id, child)))
    }
}

/// The first half of taking in a snapshot: the roster, the events, and the
/// session to observe, if any.
pub open spec fn begun(
    roster: Roster,
    child: JsonView,
    cwd: Seq<char>,
    message_id: Seq<char>,
) -> (Roster, Seq<EventView>, Option<Seq<char>>) {
    match snapshot_id(child) {
        Some(id) => {
            let known = position(roster, id) < roster.len();
            let all = enrolled(roster, id, child);
            let at = position(roster, id);
            let state = refreshed(all[at].1, child);
            (
                all.update(at, (id, state)),
                if known {
                    Seq::empty()
                } else {
                    announcement(id, child, cwd, message_id)
                },
                if wants_observation(state) {
                    Some(state.watch_key)
                } else {
                    None
                },
            )
        },
        None => (roster, Seq::empty(), None),
    }
}

/// Whether a status is one that a child does not leave.
pub open spec fn is_terminal(status: Seq<char>) -> bool {
    status == "done"@ || status == "error"@ || status == "cancelled"@
}

/// A child after an attempt to observe it.
pub open spec fn watched(state: ChildView, reply: Option<JsonView>) -> ChildView {
    match reply {
        Some(_) => ChildView { observed: true, ..state },
        None => state,
    }
}

/// The events of the messages that an observation begins with.
pub open spec fn backlog(id: Seq<char>, reply: Option<JsonView>) -> Seq<EventView> {
    match reply {
        Some(data) => match data.get("messages"@) {
            Some(messages) => match messages.as_array() {
                Some(list) => all_tagged(id, replayed(list)),
                None => Seq::empty(),
            },
            None => Seq::empty(),
        },
        None => Seq::empty(),
    }
}

/// A child whose snapshot may have been its last: it is due to settle, and
/// does so at once where it is not observed.
pub open spec fn concluded(id: Seq<char>, state: ChildView, status: Seq<char>, now: u64) -> (
    ChildView,
    Seq<EventView>,
) {
    if is_terminal(status) && !state.settled {
        let due = ChildView {
            terminal_since: match state.terminal_since {
                Some(at) => Some(at),
                None => Some(now),
            },
            ..state
        };
        if state.observed {
            (due, Seq::empty())
        } else {
            (ended(due), seq![end_of(id, due)])
        }
    } else {
        (state, Seq::empty())
    }
}

/// The second half of taking in a snapshot, after the observation, if any, was
/// answered.
pub open spec fn finished(
    roster: Roster,
    child: JsonView,
    reply: Option<JsonView>,
    now: u64,
) -> (Roster, Seq<EventView>) {
    match snapshot_id(child) {
        Some(id) => {
            let at = position(roster, id);
            if at < roster.len() {
                let seen = watched(roster[at].1, reply);
                let (state, end) = concluded(id, seen, snapshot_status(child), now);
                (roster.update(at, (id, state)), backlog(id, reply) + end)
            } else {
                (roster, Seq::empty())
            }
        },
        None => (roster, Seq::empty()),
    }
}

/// The index of the first child that is observed under a key.
pub open spec fn watch_position(roster: Roster, key: Seq<char>) -> int
    decreases roster.len(),
{
    if roster.len() == 0 {
        0
    } else if roster[0].1.watch_key == key {
        0
    } else {
        1 + watch_position(roster.drop_first(), key)
    }
}

/// What an observed child's event makes of it.
pub open spec fn heard(id: Seq<char>, state: ChildView, event: JsonView) -> (
    ChildView,
    Seq<EventView>,
) {
    let (mapper, found) = mapped(state.mapper, event);
    let next = ChildView { mapper, ..state };
    if event.field("type"@) == Some("agent_end"@) && state.terminal_since is Some {
        (ended(next), all_tagged(id, found).push(end_of(id, next)))
    } else {
        (next, all_tagged(id, found))
    }
}

/// What the end of an observed session makes of the child.
pub open spec fn closed(id: Seq<char>, state: ChildView, message: JsonView) -> (
    ChildView,
    Seq<EventView>,
) {
    let last = match message.field("error"@) {
        Some(error) => ChildView { status: "error"@, error: Some(error), ..state },
        None => state,
    };
    (ended(last), seq![end_of(id, last)])
}

/// What a message of an observed session makes of the roster.
pub open spec fn overheard(roster: Roster, message: JsonView) -> (Roster, Seq<EventView>) {
    match message.field("activeSessionId"@) {
        Some(key) => {
            let at = watch_position(roster, key);
            if at < roster.len() && !roster[at].1.settled && roster[at].1.observed {
                let (id, state) = roster[at];
                if message.field("type"@) == Some("observed_session_event"@) {
                    let (next, found) = heard(id, state, message.at("event"@));
                    (roster.update(at, (id, next)), found)
                } else if message.field("type"@) == Some("observed_session_closed"@) {
                    let (next, found) = closed(id, state, message);
                    (roster.update(at, (id, next)), found)
                } else {
                    (roster, Seq::empty())
                }
            } else {
                (roster, Seq::empty())
            }
        },
        None => (roster, Seq::empty()),
    }
}

/// Whether a child is due to settle.
pub open spec fn is_due(state: ChildView, now: u64) -> bool {
    match state.terminal_since {
        Some(at) => !state.settled && now - at >= SETTLE_AFTER,
        None => false,
    }
}

/// A child, settled if it is due, and its end if it is.
pub open spec fn settled_if_due(entry: (Seq<char>, ChildView), now: u64) -> (
    (Seq<char>, ChildView),
    Option<EventView>,
) {
    if is_due(entry.1, now) {
        ((entry.0, ended(entry.1)), Some(end_of(entry.0, entry.1)))
    } else {
        (entry, None)
    }
}

/// The roster with the children settled that are due.
pub open spec fn after_due(roster: Roster, now: u64) -> Roster {
    roster.map_values(|entry: (Seq<char>, ChildView)| settled_if_due(entry, now).0)
}

/// The ends of the children that are due.
pub open spec fn due_ends(roster: Roster, now: u64) -> Seq<EventView> {
    somes(roster.map_values(|entry: (Seq<char>, ChildView)| settled_if_due(entry, now).1))
}

/// A child, released if it was observed and has settled, and the key to
/// release it by.
pub open spec fn released(entry: (Seq<char>, ChildView)) -> (
    (Seq<char>, ChildView),
    Option<Seq<char>>,
) {
    let (id, state) = entry;
    if state.settled && state.observed && !state.unobserved {
        ((id, ChildView { unobserved: true, ..state }), Some(state.watch_key))
    } else {
        (entry, None)
    }
}

/// The roster with the children released whose observation is over.
pub open spec fn after_release(roster: Roster) -> Roster {
    roster.map_values(|entry: (Seq<char>, ChildView)| released(entry).0)
}

/// The keys of the observations that are over.
pub open spec fn releases(roster: Roster) -> Seq<Seq<char>> {
    somes(roster.map_values(|entry: (Seq<char>, ChildView)| released(entry).1))
}

/// A child, cancelled if it is open, and its end if it was.
pub open spec fn cut_off(entry: (Seq<char>, ChildView)) -> (
    (Seq<char>, ChildView),
    Option<EventView>,
) {
    let (id, state) = entry;
    if state.settled {
        (entry, None)
    } else {
        let last = ChildView { status: "cancelled"@, ..state };
        ((id, ended(last)), Some(end_of(id, last)))
    }
}

/// The roster with every child settled.
pub open spec fn after_close(roster: Roster) -> Roster {
    roster.map_values(|entry: (Seq<char>, ChildView)| cut_off(entry).0)
}

/// The ends of the children that were open.
pub open spec fn open_ends(roster: Roster) -> Seq<EventView> {
    somes(roster.map_values(|entry: (Seq<char>, ChildView)| cut_off(entry).1))
}

/// What is known of a child.
pub struct ChildState {
    pub watch_key: String,
    pub status: String,
    pub error: Option<String>,
    pub observed: bool,
    pub unobserved: bool,
    pub settled: bool,
    pub terminal_since: Option<u64>,
    pub mapper: EventMapper,
}

impl View for ChildState {
    type V = ChildView;

    open spec fn view(&self) -> ChildView {
        ChildView {
            watch_key: self.watch_key@,
            status: self.status@,
            error: opt_text(self.error),
            observed: self.observed,
            unobserved: self.unobserved,
            settled: self.settled,
            terminal_since: self.terminal_since,
            mapper: self.mapper@,
        }
    }
}

/// The children of a session.
pub struct Children {
    pub by_id: Vec<(String, ChildState)>,
}

/// The entries of a list of children.
pub open spec fn entries(list: Seq<(String, ChildState)>) -> Roster {
    list.map_values(|entry: (String, ChildState)| (entry.0@, entry.1@))
}

impl View for Children {
    type V = Roster;

    open spec fn view(&self) -> Roster {
        entries(self.by_id@)
    }
}

/// The name of the tool call that stands for a child.
pub fn child_tool_id(child_id: &str) -> (id: String)
    ensures
        id@ == tool_id_of(child_id@),
{
    "prime-child:".to_owned().concat(child_id)
}

/// An event of a child.
pub fn tagged(child_id: &str, event: AgentEvent) -> (tagged: AgentEvent)
    ensures
        tagged@ == tagged_with(child_id@, event@),
{
    AgentEvent::Subagent { parent_tool_use_id: child_tool_id(child_id), event: Box::new(event) }
}

/// Events of a child.
fn tag_all(child_id: &str, list: Vec<AgentEvent>) -> (found: Vec<AgentEvent>)
    ensures
        events(found@) == all_tagged(child_id@, events(list@)),
{
    let ghost all = list@;
    let mut found = no_events();
    proof {
        assert(events(found@) =~= all_tagged(child_id@, events(all)).take(0));
    }
    for event in iter: list
        invariant
            iter.seq() == all,
            events(found@) == all_tagged(child_id@, events(all)).take(iter.index() as int),
    {
        proof {
            let i = iter.index() as int;
            let whole = all_tagged(child_id@, events(all));
            assert(whole.take(i + 1) =~= whole.take(i).push(whole[i]));
        }
        push_event(&mut found, tagged(child_id, event));
    }
    proof {
        let whole = all_tagged(child_id@, events(all));
        assert(whole.take(all.len() as int) =~= whole);
    }
    found
}

/// Announces the end of a child.
pub fn child_done(child_id: &str, state: &mut ChildState) -> (event: AgentEvent)
    ensures
        event@ == end_of(child_id@, old(state)@),
        final(state)@ == ended(old(state)@),
{
    state.settled = true;
    let status = if same_text(state.status.as_str(), "error") {
        DoneStatus::Errored
    } else if same_text(state.status.as_str(), "cancelled") {
        DoneStatus::Interrupted
    } else {
        DoneStatus::Completed
    };
    let error = match &state.error {
        Some(error) => Some(error.clone()),
        None => copy_text(state.mapper.failure()),
    };
    tagged(child_id, done_event(status, error, None))
}

/// Replacing an entry of a list replaces the entry of the roster.
proof fn lemma_entries_update(before: Seq<(String, ChildState)>, after: Seq<(String, ChildState)>, at: int)
    requires
        0 <= at < before.len(),
        after.len() == before.len(),
        forall|k: int| 0 <= k < before.len() && k != at ==> #[trigger] after[k] == before[k],
    ensures
        entries(after) == entries(before).update(at, (after[at].0@, after[at].1@)),
{
    assert(entries(after) =~= entries(before).update(at, (after[at].0@, after[at].1@)));
}

/// The first child observed under a key is where the key stands and did not
/// stand before.
pub proof fn lemma_watch_position_is(roster: Roster, key: Seq<char>, at: int)
    requires
        0 <= at <= roster.len(),
        at < roster.len() ==> roster[at].1.watch_key == key,
        forall|k: int| 0 <= k < at ==> (#[trigger] roster[k]).1.watch_key != key,
    ensures
        watch_position(roster, key) == at,
    decreases roster.len(),
{
    if roster.len() > 0 && at > 0 {
        assert(roster[0].1.watch_key != key);
        let rest = roster.drop_first();
        assert forall|k: int| 0 <= k < at - 1 implies (#[trigger] rest[k]).1.watch_key != key by {
            assert(rest[k] == roster[k + 1]);
        }
        lemma_watch_position_is(rest, key, at - 1);
    }
}

impl Default for Children {
    fn default() -> (children: Self)
        ensures
            children@ == Roster::empty(),
    {
        let children = Children { by_id: Vec::new() };
        proof {
            assert(children@ =~= Roster::empty());
        }
        children
    }
}

impl Children {
    /// The index of a child, or the number of children.
    fn find(&self, id: &str) -> (at: usize)
        ensures
            at == position(self@, id@),
            at <= self.by_id@.len(),
    {
        let mut i: usize = 0;
        while i < self.by_id.len()
            invariant
                i <= self.by_id@.len(),
                forall|k: int| 0 <= k < i ==> (#[trigger] self@[k]).0 != id@,
            decreases self.by_id@.len() - i,
        {
            if same_text(self.by_id[i].0.as_str(), id) {
                proof {
                    lemma_position_is(self@, id@, i as int);
                }
                return i;
            }
            i = i + 1;
        }
        proof {
            lemma_position_is(self@, id@, i as int);
        }
        i
    }

    /// The index of the first child that is observed under a key.
    fn find_watched(&self, key: &str) -> (at: usize)
        ensures
            at == watch_position(self@, key@),
            at <= self.by_id@.len(),
    {
        let mut i: usize = 0;
        while i < self.by_id.len()
            invariant
                i <= self.by_id@.len(),
                forall|k: int| 0 <= k < i ==> (#[trigger] self@[k]).1.watch_key != key@,
            decreases self.by_id@.len() - i,
        {
            if same_text(self.by_id[i].1.watch_key.as_str(), key) {
                proof {
                    lemma_watch_position_is(self@, key@, i as int);
                }
                return i;
            }
            i = i + 1;
        }
        proof {
            lemma_watch_position_is(self@, key@, i as int);
        }
        i
    }

    /// Takes in a snapshot of a child, up to the attempt to observe it: gives
    /// the events, and the session to observe, if any. The given name is that
    /// of the message which a new child begins with.
    pub fn begin_update_as(&mut self, child: &Json, cwd: &str, message_id: &str) -> (begun: (
        Vec<AgentEvent>,
        Option<String>,
    ))
        ensures
            (final(self)@, events(begun.0@), opt_text(begun.1)) == self::begun(
                old(self)@,
                child@,
                cwd@,
                message_id@,
            ),
    {
        let id = match child.field("id") {
            Some(id) => id,
            None => {
                return (no_events(), None);
            },
        };
        if id.is_empty() {
            return (no_events(), None);
        }
        let status = text_or_else(child.field("status"), "running");
        let mut found = no_events();
        let at = self.find(id);
        let ghost roster = self@;
        if at == self.by_id.len() {
            let label = match child.field("sessionName") {
                Some(name) => name,
                None => text_or_else(child.field("label"), "Prime subagent"),
            };
            let model = text_or_else(child.field("model"), "");
            let watch_key = text_or_else(child.field("activeSessionId"), id);
            let input = if model.is_empty() {
                None
            } else {
                Some(Json::object().set("model", Json::text(model)))
            };
            push_event(
                &mut found,
                AgentEvent::ToolCall {
                    id: child_tool_id(id),
                    call: ToolCall::Unknown { name: "Agent: ".to_owned().concat(label), input },
                },
            );
            let tools: Vec<String> = Vec::new();
            proof {
                assert(texts(tools@) =~= Seq::<Seq<char>>::empty());
            }
            push_event(
                &mut found,
                tagged(
                    id,
                    AgentEvent::SessionStarted {
                        harness: HarnessId::Prime,
                        model: model.to_owned(),
                        tools,
                        cwd: cwd.to_owned(),
                        session_id: watch_key.to_owned(),
                        assistant_message_id: message_id.to_owned(),
                    },
                ),
            );
            proof {
                assert(events(found@) =~= announcement(id@, child@, cwd@, message_id@));
            }
            let ghost before = self.by_id@;
            self.by_id.push(
                (
                    id.to_owned(),
                    ChildState {
                        watch_key: watch_key.to_owned(),
                        status: status.to_owned(),
                        error: None,
                        observed: false,
                        unobserved: false,
                        settled: false,
                        terminal_since: None,
                        mapper: EventMapper::new(),
                    },
                ),
            );
            proof {
                assert(self@ =~= roster.push((id@, new_child(id@, child@))));
            }
        }
        let ghost all = self@;
        let ghost list = self.by_id@;
        proof {
            lemma_position(roster, id@);
            assert(all == enrolled(roster, id@, child@));
            assert(all[at as int].0 == id@);
        }
        let moved = match child.field("activeSessionId") {
            Some(key) => !same_text(self.by_id[at].1.watch_key.as_str(), key),
            None => false,
        };
        let state = &mut self.by_id[at].1;
        if moved {
            state.watch_key = text_or_else(child.field("activeSessionId"), "").to_owned();
            state.observed = false;
        }
        state.status = status.to_owned();
        state.error = copy_text(child.field("error"));
        proof {
            lemma_entries_update(list, self.by_id@, at as int);
        }
        let state = &self.by_id[at].1;
        let watch = if !same_text(status, "queued") && !state.observed && !state.settled {
            Some(state.watch_key.clone())
        } else {
            None
        };
        (found, watch)
    }
}

/// What a snapshot of a child asks for: events to hand on, and a session to
/// observe.
pub struct Begun {
    pub events: Vec<AgentEvent>,
    pub observe: Option<String>,
}

impl Children {
    /// Takes in a snapshot of a child, up to the attempt to observe it. A new
    /// child's first message gets a fresh name.
    pub fn begin_update(&mut self, child: &Json, cwd: &str) -> (result: Begun)
        ensures
            exists|message_id: Seq<char>|
                is_uuid_text(message_id) && (
                    final(self)@,
                    events(result.events@),
                    opt_text(result.observe),
                ) == #[trigger] begun(old(self)@, child@, cwd@, message_id),
    {
        let message_id = fresh_uuid();
        let (events, observe) = self.begin_update_as(child, cwd, message_id.as_str());
        Begun { events, observe }
    }

    /// Takes in the rest of a snapshot. The reply is what the observation gave,
    /// and is missing where none was asked for or the attempt failed: a later
    /// snapshot then tries again.
    pub fn finish_update(&mut self, child: &Json, reply: Option<&Json>, now: u64) -> (found: Vec<
        AgentEvent,
    >)
        ensures
            (final(self)@, events(found@)) == finished(
                old(self)@,
                child@,
                match reply {
                    Some(data) => Some(data@),
                    None => None,
                },
                now,
            ),
    {
        let id = match child.field("id") {
            Some(id) => id,
            None => {
                return no_events();
            },
        };
        if id.is_empty() {
            return no_events();
        }
        let status = text_or_else(child.field("status"), "running");
        let mut found = no_events();
        let at = self.find(id);
        let ghost roster = self@;
        let ghost list = self.by_id@;
        proof {
            lemma_position(roster, id@);
        }
        if at == self.by_id.len() {
            return found;
        }
        let ghost answer = match reply {
            Some(data) => Some(data@),
            None => None,
        };
        let state = &mut self.by_id[at].1;
        match reply {
            Some(data) => {
                state.observed = true;
                match data.get("messages") {
                    Some(messages) => match messages.as_array() {
                        Some(messages) => {
                            let replay = replay_messages(messages);
                            found = tag_all(id, replay);
                        },
                        None => {},
                    },
                    None => {},
                }
            },
            None => {},
        }
        proof {
            assert(events(found@) == backlog(id@, answer));
        }
        let terminal = same_text(status, "done") || same_text(status, "error") || same_text(
            status,
            "cancelled",
        );
        if terminal && !state.settled {
            if state.terminal_since.is_none() {
                state.terminal_since = Some(now);
            }
            if !state.observed {
                let end = child_done(id, state);
                push_event(&mut found, end);
            }
        }
        proof {
            lemma_entries_update(list, self.by_id@, at as int);
            let seen = watched(roster[at as int].1, answer);
            let (next, end) = concluded(id@, seen, status@, now);
            assert(self@ == roster.update(at as int, (id@, next)));
            assert(events(found@) =~= backlog(id@, answer) + end);
        }
        found
    }

    /// Takes in a message of an observed session.
    pub fn observed(&mut self, message: &Json) -> (found: Vec<AgentEvent>)
        ensures
            (final(self)@, events(found@)) == overheard(old(self)@, message@),
    {
        let key = match message.field("activeSessionId") {
            Some(key) => key,
            None => {
                return no_events();
            },
        };
        let at = self.find_watched(key);
        let ghost roster = self@;
        let ghost list = self.by_id@;
        if at == self.by_id.len() {
            return no_events();
        }
        let id = self.by_id[at].0.clone();
        let state = &mut self.by_id[at].1;
        if state.settled || !state.observed {
            return no_events();
        }
        let found = if text_is(message.field("type"), "observed_session_event") {
            let event = message.at("event");
            let mapped = state.mapper.map(event);
            let mut found = tag_all(id.as_str(), mapped);
            if text_is(event.field("type"), "agent_end") && state.terminal_since.is_some() {
                let end = child_done(id.as_str(), state);
                push_event(&mut found, end);
            }
            found
        } else if text_is(message.field("type"), "observed_session_closed") {
            match message.field("error") {
                Some(error) => {
                    state.status = "error".to_owned();
                    state.error = Some(error.to_owned());
                },
                None => {},
            }
            let end = child_done(id.as_str(), state);
            let mut found = no_events();
            push_event(&mut found, end);
            proof {
                assert(events(found@) =~= seq![end@]);
            }
            found
        } else {
            no_events()
        };
        proof {
            lemma_entries_update(list, self.by_id@, at as int);
            assert(roster.update(at as int, roster[at as int]) =~= roster);
        }
        found
    }

    /// Settles the children that are due.
    pub fn settle_due(&mut self, now: u64) -> (found: Vec<AgentEvent>)
        ensures
            final(self)@ == after_due(old(self)@, now),
            events(found@) == due_ends(old(self)@, now),
    {
        let ghost roster = self@;
        let ghost ends = roster.map_values(
            |entry: (Seq<char>, ChildView)| settled_if_due(entry, now).1,
        );
        let mut found = no_events();
        let mut i: usize = 0;
        proof {
            assert(ends.take(0) =~= Seq::<Option<EventView>>::empty());
        }
        while i < self.by_id.len()
            invariant
                i <= self.by_id@.len(),
                self@.len() == roster.len(),
                forall|k: int|
                    0 <= k < i ==> #[trigger] self@[k] == settled_if_due(roster[k], now).0,
                forall|k: int| i <= k < roster.len() ==> #[trigger] self@[k] == roster[k],
                ends == roster.map_values(
                    |entry: (Seq<char>, ChildView)| settled_if_due(entry, now).1,
                ),
                events(found@) == somes(ends.take(i as int)),
            decreases self.by_id@.len() - i,
        {
            proof {
                lemma_somes_next(ends, i as int);
                assert(self@[i as int] == roster[i as int]);
            }
            let ghost list = self.by_id@;
            let due = match self.by_id[i].1.terminal_since {
                Some(at) => !self.by_id[i].1.settled && now >= at && now - at >= SETTLE_AFTER,
                None => false,
            };
            if due {
                let id = self.by_id[i].0.clone();
                let end = child_done(id.as_str(), &mut self.by_id[i].1);
                push_event(&mut found, end);
                proof {
                    lemma_entries_update(list, self.by_id@, i as int);
                }
            }
            i = i + 1;
        }
        proof {
            assert(ends.take(i as int) =~= ends);
            assert(self@ =~= after_due(roster, now));
        }
        found
    }

    /// Gives the keys of the observations that are over, each once.
    pub fn finished_observations(&mut self) -> (keys: Vec<String>)
        ensures
            final(self)@ == after_release(old(self)@),
            texts(keys@) == releases(old(self)@),
    {
        let ghost roster = self@;
        let ghost all = roster.map_values(|entry: (Seq<char>, ChildView)| released(entry).1);
        let mut keys: Vec<String> = Vec::new();
        let mut i: usize = 0;
        proof {
            assert(all.take(0) =~= Seq::<Option<Seq<char>>>::empty());
            assert(texts(keys@) =~= Seq::<Seq<char>>::empty());
        }
        while i < self.by_id.len()
            invariant
                i <= self.by_id@.len(),
                self@.len() == roster.len(),
                forall|k: int| 0 <= k < i ==> #[trigger] self@[k] == released(roster[k]).0,
                forall|k: int| i <= k < roster.len() ==> #[trigger] self@[k] == roster[k],
                all == roster.map_values(|entry: (Seq<char>, ChildView)| released(entry).1),
                texts(keys@) == somes(all.take(i as int)),
            decreases self.by_id@.len() - i,
        {
            proof {
                lemma_somes_next(all, i as int);
                assert(self@[i as int] == roster[i as int]);
            }
            let ghost list = self.by_id@;
            let ghost before = keys@;
            let state = &mut self.by_id[i].1;
            if state.settled && state.observed && !state.unobserved {
                state.unobserved = true;
                keys.push(state.watch_key.clone());
                proof {
                    assert(texts(keys@) =~= texts(before).push(keys@.last()@));
                }
            }
            proof {
                lemma_entries_update(list, self.by_id@, i as int);
            }
            i = i + 1;
        }
        proof {
            assert(all.take(i as int) =~= all);
            assert(self@ =~= after_release(roster));
        }
        keys
    }

    /// Cancels the children that are still open.
    pub fn finish_open(&mut self) -> (found: Vec<AgentEvent>)
        ensures
            final(self)@ == after_close(old(self)@),
            events(found@) == open_ends(old(self)@),
    {
        let ghost roster = self@;
        let ghost ends = roster.map_values(|entry: (Seq<char>, ChildView)| cut_off(entry).1);
        let mut found = no_events();
        let mut i: usize = 0;
        proof {
            assert(ends.take(0) =~= Seq::<Option<EventView>>::empty());
        }
        while i < self.by_id.len()
            invariant
                i <= self.by_id@.len(),
                self@.len() == roster.len(),
                forall|k: int| 0 <= k < i ==> #[trigger] self@[k] == cut_off(roster[k]).0,
                forall|k: int| i <= k < roster.len() ==> #[trigger] self@[k] == roster[k],
                ends == roster.map_values(|entry: (Seq<char>, ChildView)| cut_off(entry).1),
                events(found@) == somes(ends.take(i as int)),
            decreases self.by_id@.len() - i,
        {
            proof {
                lemma_somes_next(ends, i as int);
                assert(self@[i as int] == roster[i as int]);
            }
            let ghost list = self.by_id@;
            if !self.by_id[i].1.settled {
                let id = self.by_id[i].0.clone();
                let state = &mut self.by_id[i].1;
                state.status = "cancelled".to_owned();
                let end = child_done(id.as_str(), state);
                push_event(&mut found, end);
                proof {
                    lemma_entries_update(list, self.by_id@, i as int);
                }
            }
            i = i + 1;
        }
        proof {
            assert(ends.take(i as int) =~= ends);
            assert(self@ =~= after_close(roster));
        }
        found
    }
}

/// How many children have not settled.
pub open spec fn open_count(roster: Roster) -> nat
    decreases roster.len(),
{
    if roster.len() == 0 {
        0
    } else if roster.last().1.settled {
        open_count(roster.drop_last())
    } else {
        open_count(roster.drop_last()) + 1
    }
}

/// Whether an event is the end of a child.
pub open spec fn is_child_end(event: EventView) -> bool {
    match event {
        EventView::Subagent { event, .. } => *event is Done,
        _ => false,
    }
}

/// How many of the events are ends of children.
pub open spec fn end_count(list: Seq<EventView>) -> nat
    decreases list.len(),
{
    if list.len() == 0 {
        0
    } else if is_child_end(list.last()) {
        end_count(list.drop_last()) + 1
    } else {
        end_count(list.drop_last())
    }
}

proof fn lemma_open_push(roster: Roster, entry: (Seq<char>, ChildView))
    ensures
        open_count(roster.push(entry)) == open_count(roster) + (if entry.1.settled {
            0int
        } else {
            1
        }),
{
    assert(roster.push(entry).drop_last() =~= roster);
}

proof fn lemma_open_update(roster: Roster, at: int, entry: (Seq<char>, ChildView))
    requires
        0 <= at < roster.len(),
    ensures
        open_count(roster.update(at, entry)) + (if roster[at].1.settled {
            0int
        } else {
            1
        }) == open_count(roster) + (if entry.1.settled {
            0int
        } else {
            1
        }),
    decreases roster.len(),
{
    let before = roster.drop_last();
    let changed = roster.update(at, entry);
    if at == roster.len() - 1 {
        assert(changed.drop_last() =~= before);
    } else {
        lemma_open_update(before, at, entry);
        assert(changed.drop_last() =~= before.update(at, entry));
    }
}

proof fn lemma_end_concat(a: Seq<EventView>, b: Seq<EventView>)
    ensures
        end_count(a + b) == end_count(a) + end_count(b),
    decreases b.len(),
{
    if b.len() == 0 {
        assert(a + b =~= a);
    } else {
        lemma_end_concat(a, b.drop_last());
        assert((a + b).drop_last() =~= a + b.drop_last());
    }
}

proof fn lemma_end_one(event: EventView)
    ensures
        end_count(seq![event]) == (if is_child_end(event) {
            1nat
        } else {
            0
        }),
{
    reveal_with_fuel(end_count, 2);
    assert(seq![event].drop_last() =~= Seq::<EventView>::empty());
}

proof fn lemma_tagged_end_count(id: Seq<char>, list: Seq<EventView>)
    requires
        forall|k: int| 0 <= k < list.len() ==> is_in_turn(#[trigger] list[k]),
    ensures
        end_count(all_tagged(id, list)) == 0,
    decreases list.len(),
{
    if list.len() > 0 {
        let before = list.drop_last();
        assert forall|k: int| 0 <= k < before.len() implies is_in_turn(#[trigger] before[k]) by {
            assert(before[k] == list[k]);
        }
        lemma_tagged_end_count(id, before);
        assert(all_tagged(id, list).drop_last() =~= all_tagged(id, before));
        assert(is_in_turn(list[list.len() - 1]));
    }
}

proof fn lemma_backlog_end_count(id: Seq<char>, reply: Option<JsonView>)
    ensures
        end_count(backlog(id, reply)) == 0,
{
    match reply {
        Some(data) => match data.get("messages"@) {
            Some(messages) => match messages.as_array() {
                Some(list) => {
                    replaying_never_ends_a_turn(list);
                    lemma_tagged_end_count(id, replayed(list));
                },
                None => {},
            },
            None => {},
        },
        None => {},
    }
}

/// A snapshot brings up at most one child, which is open, and ends none.
pub proof fn a_new_child_is_open(
    roster: Roster,
    child: JsonView,
    cwd: Seq<char>,
    message_id: Seq<char>,
)
    ensures
        end_count(begun(roster, child, cwd, message_id).1) == 0,
        open_count(begun(roster, child, cwd, message_id).0) == open_count(roster) + (begun(
            roster,
            child,
            cwd,
            message_id,
        ).0.len() - roster.len()),
{
    match snapshot_id(child) {
        Some(id) => {
            lemma_position(roster, id);
            let at = position(roster, id);
            let all = enrolled(roster, id, child);
            let (after, found, _) = begun(roster, child, cwd, message_id);
            if at < roster.len() {
                lemma_open_update(roster, at, after[at]);
            } else {
                lemma_open_push(roster, (id, new_child(id, child)));
                lemma_open_update(all, at, after[at]);
                let both = announcement(id, child, cwd, message_id);
                assert(both =~= seq![both[0]] + seq![both[1]]);
                lemma_end_concat(seq![both[0]], seq![both[1]]);
                lemma_end_one(both[0]);
                lemma_end_one(both[1]);
            }
        },
        None => {},
    }
}

/// Each child that the rest of a snapshot settles is ended once, and no other.
pub proof fn a_snapshot_ends_what_it_settles(
    roster: Roster,
    child: JsonView,
    reply: Option<JsonView>,
    now: u64,
)
    ensures
        open_count(finished(roster, child, reply, now).0) + end_count(
            finished(roster, child, reply, now).1,
        ) == open_count(roster),
{
    match snapshot_id(child) {
        Some(id) => {
            lemma_position(roster, id);
            let at = position(roster, id);
            if at < roster.len() {
                let seen = watched(roster[at].1, reply);
                let (state, end) = concluded(id, seen, snapshot_status(child), now);
                lemma_open_update(roster, at, (id, state));
                lemma_backlog_end_count(id, reply);
                lemma_end_concat(backlog(id, reply), end);
                if end.len() > 0 {
                    lemma_end_one(end[0]);
                    assert(end =~= seq![end[0]]);
                }
            }
        },
        None => {},
    }
}

/// Each child that a message of its session settles is ended once, and no
/// other.
pub proof fn a_message_ends_what_it_settles(roster: Roster, message: JsonView)
    ensures
        open_count(overheard(roster, message).0) + end_count(overheard(roster, message).1)
            == open_count(roster),
{
    match message.field("activeSessionId"@) {
        Some(key) => {
            let at = watch_position(roster, key);
            lemma_watch_position(roster, key);
            if at < roster.len() && !roster[at].1.settled && roster[at].1.observed {
                let (id, state) = roster[at];
                let event = message.at("event"@);
                mapping_never_ends_a_turn(state.mapper, event);
                let found = mapped(state.mapper, event).1;
                lemma_tagged_end_count(id, found);
                let (next, list) = heard(id, state, event);
                lemma_open_update(roster, at, (id, next));
                if list.len() > found.len() {
                    let last = list.last();
                    assert(list =~= all_tagged(id, found) + seq![last]);
                    lemma_end_concat(all_tagged(id, found), seq![last]);
                    lemma_end_one(last);
                }
                let (shut, end) = closed(id, state, message);
                lemma_open_update(roster, at, (id, shut));
                lemma_end_one(end[0]);
            }
        },
        None => {},
    }
}

/// The first child that is observed under a key is within the roster, or past it.
pub proof fn lemma_watch_position(roster: Roster, key: Seq<char>)
    ensures
        0 <= watch_position(roster, key) <= roster.len(),
    decreases roster.len(),
{
    if roster.len() > 0 {
        lemma_watch_position(roster.drop_first(), key);
    }
}

/// Each child that settles for want of further events is ended once.
pub proof fn settling_ends_what_is_due(roster: Roster, now: u64)
    ensures
        open_count(after_due(roster, now)) + end_count(due_ends(roster, now)) == open_count(
            roster,
        ),
    decreases roster.len(),
{
    let step = |entry: (Seq<char>, ChildView)| settled_if_due(entry, now).1;
    if roster.len() > 0 {
        let before = roster.drop_last();
        let last = roster.last();
        settling_ends_what_is_due(before, now);
        assert(after_due(roster, now).drop_last() =~= after_due(before, now));
        assert(roster.map_values(step).drop_last() =~= before.map_values(step));
        assert(roster.map_values(step).last() == settled_if_due(last, now).1);
        if is_due(last.1, now) {
            let list = due_ends(before, now).push(end_of(last.0, last.1));
            assert(due_ends(roster, now) == list);
            assert(list.drop_last() =~= due_ends(before, now));
        } else {
            assert(due_ends(roster, now) == due_ends(before, now));
        }
    }
}

/// At the close of a session every child that was open is ended once, and none
/// is left open.
pub proof fn closing_ends_every_open_child(roster: Roster)
    ensures
        end_count(open_ends(roster)) == open_count(roster),
        open_count(after_close(roster)) == 0,
        open_ends(after_close(roster)) == Seq::<EventView>::empty(),
    decreases roster.len(),
{
    let step = |entry: (Seq<char>, ChildView)| cut_off(entry).1;
    if roster.len() > 0 {
        let before = roster.drop_last();
        let last = roster.last();
        closing_ends_every_open_child(before);
        assert(after_close(roster).drop_last() =~= after_close(before));
        assert(roster.map_values(step).drop_last() =~= before.map_values(step));
        assert(roster.map_values(step).last() == cut_off(last).1);
        let shut = after_close(roster);
        assert(shut.map_values(step).drop_last() =~= after_close(before).map_values(step));
        assert(shut.map_values(step).last() == cut_off(shut.last()).1);
        if last.1.settled {
            assert(open_ends(roster) == open_ends(before));
        } else {
            let list = open_ends(before).push(
                end_of(last.0, ChildView { status: "cancelled"@, ..last.1 }),
            );
            assert(open_ends(roster) == list);
            assert(list.drop_last() =~= open_ends(before));
        }
    }
}

/// Each observation that is over is given up once.
pub proof fn an_observation_is_given_up_once(roster: Roster)
    ensures
        releases(after_release(roster)) == Seq::<Seq<char>>::empty(),
        after_release(after_release(roster)) == after_release(roster),
    decreases roster.len(),
{
    let step = |entry: (Seq<char>, ChildView)| released(entry).1;
    let after = after_release(roster);
    if roster.len() > 0 {
        let before = roster.drop_last();
        an_observation_is_given_up_once(before);
        assert(after.drop_last() =~= after_release(before));
        assert(after.map_values(step).drop_last() =~= after_release(before).map_values(step));
        assert(after.map_values(step).last() == released(after.last()).1);
    }
    assert(after_release(after) =~= after);
}

/// A child that has settled stays settled under its name, whatever comes in.
pub proof fn a_settled_child_stays_settled(
    roster: Roster,
    i: int,
    child: JsonView,
    cwd: Seq<char>,
    message_id: Seq<char>,
    reply: Option<JsonView>,
    message: JsonView,
    now: u64,
)
    requires
        0 <= i < roster.len(),
        roster[i].1.settled,
    ensures
        ({
            let after = begun(roster, child, cwd, message_id).0;
            i < after.len() && after[i].0 == roster[i].0 && after[i].1.settled
        }),
        ({
            let after = finished(roster, child, reply, now).0;
            i < after.len() && after[i].0 == roster[i].0 && after[i].1.settled
        }),
        ({
            let after = overheard(roster, message).0;
            i < after.len() && after[i].0 == roster[i].0 && after[i].1.settled
        }),
        after_due(roster, now)[i] == roster[i],
        after_close(roster)[i] == roster[i],
        after_release(roster)[i].0 == roster[i].0,
        after_release(roster)[i].1.settled,
{
    match snapshot_id(child) {
        Some(id) => {
            lemma_position(roster, id);
        },
        None => {},
    }
    match message.field("activeSessionId"@) {
        Some(key) => {
            lemma_watch_position(roster, key);
        },
        None => {},
    }
}

/// Each child stands in the roster once, whatever comes in.
pub proof fn children_stay_distinct(
    roster: Roster,
    child: JsonView,
    cwd: Seq<char>,
    message_id: Seq<char>,
    reply: Option<JsonView>,
    message: JsonView,
    now: u64,
)
    requires
        distinct(roster),
    ensures
        distinct(begun(roster, child, cwd, message_id).0),
        distinct(finished(roster, child, reply, now).0),
        distinct(overheard(roster, message).0),
        distinct(after_due(roster, now)),
        distinct(after_release(roster)),
        distinct(after_close(roster)),
{
    match snapshot_id(child) {
        Some(id) => {
            lemma_position(roster, id);
        },
        None => {},
    }
    match message.field("activeSessionId"@) {
        Some(key) => {
            lemma_watch_position(roster, key);
        },
        None => {},
    }
}

} // verus!
