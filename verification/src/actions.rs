//! What a session asks of the program that runs it.

use vstd::prelude::*;

use crate::json::{Json, JsonView};
#[allow(unused_imports)]
use crate::lists::{lemma_somes_next, somes};
use crate::proto::{AgentEvent, EventView, QuestionView, UserInputQuestion};
#[allow(unused_imports)]
use crate::proto::events;

verus! {

/// What a request that is under way is for. A wait carries the number of the
/// turn that it belongs to.
#[derive(Debug, Clone, Copy, PartialEq, Eq, Structural)]
pub enum CommandKind {
    Initial,
    Steer,
    Goal,
    Completion(u64),
    Quiescence(u64),
}

/// One thing to do. The things of a list are done in order.
#[derive(Debug, PartialEq)]
#[allow(inconsistent_fields)]
pub enum Action {
    /// Hand an event to the engine.
    Emit(AgentEvent),
    /// Ask for the statistics of the session and hand on what they say; if they
    /// say nothing, declare the context unknown where that is asked for.
    RefreshUsage { or_clear: bool },
    /// Wait for the agent to complete a turn.
    AwaitCompletion { generation: u64 },
    /// Wait for the agent and its children to come to rest.
    AwaitQuiescence { generation: u64 },
    /// Ask how the turn ended, and report it.
    CollectEnd { generation: u64 },
    /// Send the agent a prompt while it may be working.
    Prompt { text: String, kind: CommandKind },
    /// Take in a snapshot of a child.
    UpdateChild { child: Json },
    /// Put a question to the user and send the answer to the extension.
    Ask { question: UserInputQuestion, method: String },
    /// Tell the agent to stop.
    Abort,
}

/// What an [`Action`] is, as a mathematical value.
#[allow(inconsistent_fields)]
pub enum ActionView {
    Emit(EventView),
    RefreshUsage { or_clear: bool },
    AwaitCompletion { generation: u64 },
    AwaitQuiescence { generation: u64 },
    CollectEnd { generation: u64 },
    Prompt { text: Seq<char>, kind: CommandKind },
    UpdateChild { child: JsonView },
    Ask { question: QuestionView, method: Seq<char> },
    Abort,
}

impl View for Action {
    type V = ActionView;

    open spec fn view(&self) -> ActionView {
        match self {
            Action::Emit(event) => ActionView::Emit(event@),
            Action::RefreshUsage { or_clear } => ActionView::RefreshUsage { or_clear: *or_clear },
            Action::AwaitCompletion { generation } => ActionView::AwaitCompletion {
                generation: *generation,
            },
            Action::AwaitQuiescence { generation } => ActionView::AwaitQuiescence {
                generation: *generation,
            },
            Action::CollectEnd { generation } => ActionView::CollectEnd {
                generation: *generation,
            },
            Action::Prompt { text, kind } => ActionView::Prompt { text: text@, kind: *kind },
            Action::UpdateChild { child } => ActionView::UpdateChild { child: child@ },
            Action::Ask { question, method } => ActionView::Ask {
                question: question@,
                method: method@,
            },
            Action::Abort => ActionView::Abort,
        }
    }
}

/// The actions of a list, in order.
pub open spec fn actions(list: Seq<Action>) -> Seq<ActionView> {
    list.map_values(|action: Action| action@)
}

/// The actions that hand on events, in order.
pub open spec fn emits(list: Seq<EventView>) -> Seq<ActionView> {
    list.map_values(|event: EventView| ActionView::Emit(event))
}

/// The list without actions.
pub fn no_actions() -> (list: Vec<Action>)
    ensures
        actions(list@) == Seq::<ActionView>::empty(),
{
    let list: Vec<Action> = Vec::new();
    proof {
        assert(actions(list@) =~= Seq::<ActionView>::empty());
    }
    list
}

/// The list of one action.
pub fn one_action(action: Action) -> (list: Vec<Action>)
    ensures
        actions(list@) == seq![action@],
{
    let mut list: Vec<Action> = Vec::new();
    list.push(action);
    proof {
        assert(actions(list@) =~= seq![action@]);
    }
    list
}

/// Adds an action at the end of a list.
pub fn push_action(list: &mut Vec<Action>, action: Action)
    ensures
        actions(final(list)@) == actions(old(list)@).push(action@),
{
    list.push(action);
    proof {
        assert(actions(list@) =~= actions(old(list)@).push(action@));
    }
}

/// Adds the actions of one list at the end of another.
pub fn push_actions(list: &mut Vec<Action>, more: Vec<Action>)
    ensures
        actions(final(list)@) == actions(old(list)@) + actions(more@),
{
    let mut more = more;
    let ghost added = more@;
    list.append(&mut more);
    proof {
        assert(list@ == old(list)@ + added);
        assert(actions(list@) =~= actions(old(list)@) + actions(added));
    }
}

/// The actions that hand on events.
pub fn emit_all(list: Vec<AgentEvent>) -> (found: Vec<Action>)
    ensures
        actions(found@) == emits(events(list@)),
{
    let ghost all = list@;
    let mut found = no_actions();
    proof {
        assert(emits(events(all)).take(0) =~= Seq::<ActionView>::empty());
    }
    for event in iter: list
        invariant
            iter.seq() == all,
            actions(found@) == emits(events(all)).take(iter.index() as int),
    {
        proof {
            let i = iter.index() as int;
            let whole = emits(events(all));
            assert(whole.take(i + 1) =~= whole.take(i).push(whole[i]));
        }
        push_action(&mut found, Action::Emit(event));
    }
    proof {
        let whole = emits(events(all));
        assert(whole.take(all.len() as int) =~= whole);
    }
    found
}

/// The action that hands on an event of the agent, if it is handed on: the
/// user's own messages are not sent back to the user.
pub open spec fn shown(event: EventView) -> Option<ActionView> {
    match event {
        EventView::UserMessage { .. } => None,
        _ => Some(ActionView::Emit(event)),
    }
}

/// The actions that hand on the events of the agent.
pub open spec fn shows(list: Seq<EventView>) -> Seq<ActionView> {
    somes(list.map_values(|event: EventView| shown(event)))
}

/// The actions that hand on the events of the agent.
pub fn show_all(list: Vec<AgentEvent>) -> (found: Vec<Action>)
    ensures
        actions(found@) == shows(events(list@)),
{
    let ghost all = list@;
    let ghost whole = events(all).map_values(|event: EventView| shown(event));
    let mut found = no_actions();
    proof {
        assert(whole.take(0) =~= Seq::<Option<ActionView>>::empty());
    }
    for event in iter: list
        invariant
            iter.seq() == all,
            whole == events(all).map_values(|event: EventView| shown(event)),
            actions(found@) == somes(whole.take(iter.index() as int)),
    {
        proof {
            lemma_somes_next(whole, iter.index() as int);
        }
        match event {
            AgentEvent::UserMessage { .. } => {},
            event => {
                push_action(&mut found, Action::Emit(event));
            },
        }
    }
    proof {
        assert(whole.take(all.len() as int) =~= whole);
    }
    found
}

} // verus!
