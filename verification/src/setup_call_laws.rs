//! What holds of the requests that set up a session and of their answers.

use vstd::prelude::*;

#[allow(unused_imports)]
use crate::catalog::{knows_level, model_id, parse_commands, reasoning_name};
#[allow(unused_imports)]
use crate::event_laws::says;
#[allow(unused_imports)]
use crate::json::{empty_object, lemma_get_set, opt_str, opt_text, Json, JsonView};
#[allow(unused_imports)]
use crate::proto::{
    commands, AgentEvent, DoneStatus, ErrorView, EventView, HarnessError, HarnessId, ReasoningLevel,
    SlashCommand,
};
#[allow(unused_imports)]
use crate::requests::requests;
#[allow(unused_imports)]
use crate::setup::{
    begin_setup, goal_event, kills_failed_setup, level_request, model_request, plan_setup,
    selected_model, setup_failure, Plan, PlanView, Setup, SetupStep, SetupStepView, SetupView,
    StageView,
};
#[allow(unused_imports)]
use crate::text::lemma_char_position_step;
#[allow(unused_imports)]
use crate::turn::usage_event;

verus! {

/// A selector selects what stands before and behind its first stroke, and
/// nothing where one of the two is empty or there is no stroke.
pub proof fn a_selector_is_split_at_its_first_stroke(
    value: &str,
    choice: Result<(String, String), HarnessError>,
    at: int,
)
    requires
        call_ensures(selected_model, (value,), choice),
        0 <= at <= value@.len(),
        at < value@.len() ==> value@[at] == '/',
        forall|k: int| 0 <= k < at ==> #[trigger] value@[k] != '/',
    ensures
        0 < at < value@.len() - 1 ==> (choice matches Ok((provider, model)) && provider@
            == value@.take(at) && model@ == value@.skip(at + 1)),
        !(0 < at < value@.len() - 1) ==> (choice matches Err(error) && error@
            == ErrorView::Protocol("Invalid Prime model selector: "@ + value@)),
{
    lemma_char_position_step(value@, '/', at);
    if at < value@.len() {
        assert(value@.skip(at)[0] == '/');
    }
}

/// The text under a key of a session's state that is not empty.
pub open spec fn names_file(state: JsonView, path: Seq<char>) -> bool {
    says(state, "sessionFile"@, path) && path.len() > 0
}

/// A session that no file keeps cannot be set up.
pub proof fn a_session_without_a_file_is_refused(
    state: Json,
    model: Option<&str>,
    level: Option<ReasoningLevel>,
    plan: Result<Plan, HarnessError>,
)
    requires
        call_ensures(plan_setup, (&state, model, level), plan),
        forall|path: Seq<char>| !#[trigger] names_file(state@, path),
    ensures
        plan matches Err(error) && error@ == ErrorView::Protocol(
            "Prime RPC session has no persistent file"@,
        ),
{
    match state@.get("sessionFile"@) {
        Some(JsonView::Text(path)) => {
            assert(!names_file(state@, path));
        },
        _ => {},
    }
}

/// Whether a request sets a model.
pub open spec fn sets_model(
    request: (Seq<char>, JsonView),
    provider: Seq<char>,
    id: Seq<char>,
) -> bool {
    &&& request.0 == "set_model"@
    &&& says(request.1, "provider"@, provider)
    &&& says(request.1, "modelId"@, id)
}

/// Whether a request sets a level of thinking.
pub open spec fn sets_level(request: (Seq<char>, JsonView), level: Seq<char>) -> bool {
    &&& request.0 == "set_thinking_level"@
    &&& says(request.1, "level"@, level)
}

proof fn lemma_requests(provider: Seq<char>, id: Seq<char>, level: Seq<char>)
    ensures
        sets_model(model_request((provider, id)), provider, id),
        sets_level(level_request(level), level),
{
    broadcast use lemma_get_set;

    reveal_strlit("provider");
    reveal_strlit("modelId");
    assert("provider"@.len() == 8);
    assert("modelId"@.len() == 7);
    assert(empty_object().set("provider"@, JsonView::Text(provider)) is Object);
}

/// What setting up a session takes. The model is set first, if one was asked
/// for that the session does not work with yet; a selector that selects nothing
/// is refused. Then the level of thinking is set, if one was asked for that
/// Prime knows and the session does not think at yet. Nothing else is asked.
pub proof fn only_what_differs_is_set(
    state: Json,
    model: Option<&str>,
    level: Option<ReasoningLevel>,
    plan: Result<Plan, HarnessError>,
    path: Seq<char>,
    entry: Json,
    current: Option<String>,
    wanted: &str,
    choice: Result<(String, String), HarnessError>,
    name: &str,
    known: bool,
)
    requires
        call_ensures(plan_setup, (&state, model, level), plan),
        call_ensures(model_id, (&entry,), current),
        call_ensures(selected_model, (wanted,), choice),
        names_file(state@, path),
        entry@ == state@.at("model"@),
        model matches Some(model) ==> model@ == wanted@,
        level matches Some(level) ==> call_ensures(knows_level, (level,), known) && call_ensures(
            reasoning_name,
            (level,),
            name,
        ),
    ensures
        ({
            let now = match current {
                Some(current) => current@,
                None => "default"@,
            };
            let changes = model is Some && wanted@ != "default"@ && wanted@ != now;
            let thinks = level is Some && known && !says(state@, "thinkingLevel"@, name@);
            &&& changes && choice is Err ==> (plan matches Err(error) && error@
                == choice->Err_0@)
            &&& !(changes && choice is Err) ==> (plan matches Ok(plan) && {
                let list = requests(plan.requests@);
                &&& plan.session_file@ == path
                &&& plan.model@ == if changes {
                    wanted@
                } else {
                    now
                }
                &&& list.len() == (if changes {
                    1int
                } else {
                    0
                }) + (if thinks {
                    1int
                } else {
                    0
                })
                &&& changes ==> sets_model(list[0], choice->Ok_0.0@, choice->Ok_0.1@)
                &&& thinks ==> sets_level(list.last(), name@)
            })
        }),
{
    match choice {
        Ok((provider, id)) => {
            lemma_requests(provider@, id@, name@);
        },
        Err(_) => {
            lemma_requests(Seq::empty(), Seq::empty(), name@);
        },
    }
}

/// A session starts with the model and in the file of its plan, without tools.
pub proof fn a_session_starts_as_planned(
    plan: Plan,
    cwd: &str,
    message_id: String,
    event: AgentEvent,
)
    requires
        call_ensures(Plan::start_as, (&plan, cwd, message_id), event),
    ensures
        event@ matches EventView::SessionStarted {
            harness,
            model,
            tools,
            cwd: dir,
            session_id,
            assistant_message_id,
        } && harness == HarnessId::Prime && model == plan.model@ && tools.len() == 0 && dir == cwd@
            && session_id == plan.session_file@ && assistant_message_id == message_id@,
{
}

/// The goal of a session is told as it stands in the session's state.
pub proof fn the_goal_is_told_as_it_stands(state: Json, event: AgentEvent)
    requires
        call_ensures(goal_event, (&state,), event),
    ensures
        event@ matches EventView::PrimeEvent { event: told } && says(
            told,
            "type"@,
            "goal_update"@,
        ) && says(told, "source"@, "get_state"@) && told.get("goal"@) == Some(
            match state@.get("goal"@) {
                Some(goal) => goal,
                None => JsonView::Null,
            },
        ),
{
    broadcast use lemma_get_set;

    reveal_strlit("type");
    reveal_strlit("goal");
    reveal_strlit("source");
    assert("type"@.len() == 4);
    assert("goal"@.len() == 4);
    assert("source"@.len() == 6);
    assert("type"@[0] == 't');
    assert("goal"@[0] == 'g');
    let a = empty_object().set("type"@, JsonView::Text("goal_update"@));
    assert(a is Object);
    let b = a.set("goal"@, state@.at("goal"@));
    assert(b is Object);
}

/// A session that could not be set up ends with the error, and with no file.
pub proof fn a_failed_setup_is_told(error: String, event: AgentEvent)
    requires
        call_ensures(setup_failure, (error,), event),
    ensures
        event@ == (EventView::Done {
            status: DoneStatus::Errored,
            result: None,
            error: Some(error@),
            session_id: None,
        }),
{
}

/// A session that could not be set up is removed if and only if it was made for
/// this run, in a daemon.
pub proof fn a_session_of_a_failed_setup_is_removed(
    has_process: bool,
    resumed: bool,
    daemon: bool,
    kills: bool,
)
    requires
        call_ensures(kills_failed_setup, (has_process, resumed, daemon), kills),
    ensures
        kills <==> daemon && !has_process && !resumed,
{
}

/// The state of the session is asked for first.
pub proof fn the_state_is_asked_for_first(
    model: Option<String>,
    level: Option<ReasoningLevel>,
    cwd: String,
    step: SetupStep,
)
    requires
        call_ensures(begin_setup, (model, level, cwd), step),
    ensures
        step@ matches SetupStepView::Ask { told, request, setup } && told.len() == 0 && request.0
            == "get_state"@ && request.1 == empty_object() && setup.model == opt_text(model)
            && setup.level == level && setup.cwd == cwd@ && setup.stage is State,
{
}

/// Whether a step asks for the next thing of a plan: the request after those
/// that were answered, or the commands behind the last of them.
pub open spec fn goes_on(
    step: SetupStepView,
    before: SetupView,
    state: JsonView,
    plan: PlanView,
    done: int,
) -> bool {
    step matches SetupStepView::Ask { told, request, setup } && told.len() == 0 && setup.model
        == before.model && setup.level == before.level && setup.cwd == before.cwd && if done
        < plan.requests.len() {
        &&& request == plan.requests[done]
        &&& setup.stage matches StageView::Change { state: kept, plan: all, answered } && kept
            == state && all == plan && answered == done
    } else {
        &&& request.0 == "get_commands"@ && request.1 == empty_object()
        &&& setup.stage matches StageView::Commands { state: kept, plan: all } && kept == state
            && all == plan
    }
}

/// The state of the session decides what is asked next: the first request of
/// the plan for it, or the commands where there is none. A state for which there
/// is no plan, or none at all, ends the setting up with the error.
pub proof fn the_state_decides_what_is_asked(
    setup: Setup,
    answer: Result<Json, HarnessError>,
    valid: Vec<String>,
    message_id: String,
    step: SetupStep,
    state: Json,
    model: Option<&str>,
    plan: Result<Plan, HarnessError>,
)
    requires
        call_ensures(Setup::answered_as, (setup, answer, &valid, message_id), step),
        call_ensures(plan_setup, (&state, model, setup.level), plan),
        setup.stage is State,
        opt_str(model) == opt_text(setup.model),
        answer matches Ok(answer) ==> answer@ == state@,
    ensures
        answer is Ok && plan is Ok ==> goes_on(step@, setup@, state@, plan->Ok_0@, 0),
        answer is Ok && plan is Err ==> step@ == (SetupStepView::Failed {
            error: plan->Err_0@,
        }),
        answer is Err ==> step@ == (SetupStepView::Failed { error: answer->Err_0@ }),
{
}

/// An answered request of the plan is followed by the next one, and the last by
/// the request for the commands. One that fails ends the setting up with its
/// error.
pub proof fn the_requests_of_a_plan_are_made_in_order(
    setup: Setup,
    answer: Result<Json, HarnessError>,
    valid: Vec<String>,
    message_id: String,
    step: SetupStep,
    state: JsonView,
    plan: PlanView,
    answered: nat,
)
    requires
        call_ensures(Setup::answered_as, (setup, answer, &valid, message_id), step),
        setup@.stage == (StageView::Change { state, plan, answered }),
    ensures
        answer is Ok ==> goes_on(step@, setup@, state, plan, answered as int + 1),
        answer is Err ==> step@ == (SetupStepView::Failed { error: answer->Err_0@ }),
{
}

/// The answer on the commands is followed by the start of the session and by the
/// request for its statistics. The commands are kept, where there is a list of
/// them. No answer ends the setting up with the error.
pub proof fn the_start_is_told_once_the_commands_are_known(
    setup: Setup,
    answer: Result<Json, HarnessError>,
    valid: Vec<String>,
    message_id: String,
    step: SetupStep,
    state: Json,
    plan: Plan,
    cwd: &str,
    start: AgentEvent,
    data: Json,
    list: Result<Vec<SlashCommand>, HarnessError>,
)
    requires
        call_ensures(Setup::answered_as, (setup, answer, &valid, message_id), step),
        call_ensures(Plan::start_as, (&plan, cwd, message_id), start),
        call_ensures(parse_commands, (&data, &valid), list),
        setup@.stage == (StageView::Commands { state: state@, plan: plan@ }),
        cwd@ == setup.cwd@,
        answer matches Ok(answer) ==> answer@ == data@,
    ensures
        answer is Ok ==> (step@ matches SetupStepView::Ask { told, request, setup: next } && told
            == seq![start@] && request.0 == "get_session_stats"@ && request.1 == empty_object()
            && next.model == setup@.model && next.level == setup@.level && next.cwd == setup@.cwd
            && next.stage == (StageView::Statistics {
            state: state@,
            plan: plan@,
            commands: match list {
                Ok(list) => Some(commands(list@)),
                Err(_) => None,
            },
        })),
        answer is Err ==> step@ == (SetupStepView::Failed { error: answer->Err_0@ }),
{
}

/// With the statistics, or without them, the session is set up. What is told is
/// how full the context is, where that is known, the goal, and the commands,
/// where there is a list of them, in this order.
pub proof fn a_session_is_set_up_with_its_statistics(
    setup: Setup,
    answer: Result<Json, HarnessError>,
    valid: Vec<String>,
    message_id: String,
    step: SetupStep,
    state: Json,
    goal: AgentEvent,
    statistics: Option<&Json>,
    usage: Option<AgentEvent>,
)
    requires
        call_ensures(Setup::answered_as, (setup, answer, &valid, message_id), step),
        call_ensures(goal_event, (&state,), goal),
        call_ensures(usage_event, (statistics, false), usage),
        statistics == match answer {
            Ok(data) => Some(&data),
            Err(_) => None,
        },
        setup@.stage matches StageView::Statistics { state: kept, plan, commands } && kept == state@,
    ensures
        ({
            let kept = setup@.stage->Statistics_commands;
            let file = setup@.stage->Statistics_plan.session_file;
            let first = match usage {
                Some(usage) => seq![usage@, goal@],
                None => seq![goal@],
            };
            step@ == (SetupStepView::Finished {
                told: match kept {
                    Some(commands) => first.push(EventView::AvailableCommands { commands }),
                    None => first,
                },
                session_file: file,
            })
        }),
{
    let first = match usage {
        Some(usage) => seq![usage@, goal@],
        None => seq![goal@],
    };
    let told = match usage {
        Some(usage) => seq![usage@],
        None => Seq::<EventView>::empty(),
    };
    assert(told.push(goal@) =~= first);
}

} // verus!
