//! How a session is set up before its first prompt.

use vstd::prelude::*;

use crate::catalog::{knows_level, model_id, parse_commands, reasoning_name};
#[allow(unused_imports)]
use crate::catalog::{entry_name, level_name, model_name, offered_commands, prime_levels};
#[allow(unused_imports)]
use crate::client::answer_view;
use crate::ids::fresh_uuid;
#[allow(unused_imports)]
use crate::ids::is_uuid_text;
use crate::json::{text_is, Json, JsonView};
#[allow(unused_imports)]
use crate::json::{empty_object, opt_str, opt_text, texts};
use crate::proto::{
    done_event, no_events, one_event, protocol_error, push_event, AgentEvent, CommandView,
    DoneStatus, ErrorView, EventView, HarnessError, HarnessId, ReasoningLevel, SlashCommand,
};
#[allow(unused_imports)]
use crate::proto::{commands, done, events};
#[allow(unused_imports)]
use crate::requests::requests;
use crate::requests::Request;
#[allow(unused_imports)]
use crate::text::{lemma_char_position_step, parted};
use crate::text::{same_text, split_once};
use crate::turn::usage_event;
#[allow(unused_imports)]
use crate::turn::usage_event_of;

verus! {

/// What a model selector selects: a provider and a model.
pub open spec fn selection(value: Seq<char>) -> Result<(Seq<char>, Seq<char>), ErrorView> {
    let refusal = ErrorView::Protocol("Invalid Prime model selector: "@ + value);
    match parted(value, '/') {
        Some((provider, model)) => if provider.len() > 0 && model.len() > 0 {
            Ok((provider, model))
        } else {
            Err(refusal)
        },
        None => Err(refusal),
    }
}

/// The file that keeps the session.
pub open spec fn file_of(state: JsonView) -> Option<Seq<char>> {
    match state.field("sessionFile"@) {
        Some(path) => if path.len() > 0 {
            Some(path)
        } else {
            None
        },
        None => None,
    }
}

/// The model that the session works with.
pub open spec fn current_model(state: JsonView) -> Seq<char> {
    match entry_name(state.at("model"@)) {
        Some(name) => name,
        None => "default"@,
    }
}

/// The model that has to be set, if any: the one that was asked for, unless the
/// session works with it already.
pub open spec fn wanted_model(state: JsonView, model: Option<Seq<char>>) -> Option<Seq<char>> {
    match model {
        Some(model) => if model == "default"@ || model == current_model(state) {
            None
        } else {
            Some(model)
        },
        None => None,
    }
}

/// The level of thinking that has to be set, if any: the one that was asked
/// for, if Prime knows it and does not think that way already.
pub open spec fn wanted_level(state: JsonView, level: Option<ReasoningLevel>) -> Option<
    Seq<char>,
> {
    match level {
        Some(level) => if prime_levels().contains(level) && state.at(
            "thinkingLevel"@,
        ).as_text() != Some(level_name(level)) {
            Some(level_name(level))
        } else {
            None
        },
        None => None,
    }
}

/// The request that sets a model.
pub open spec fn model_request(choice: (Seq<char>, Seq<char>)) -> (Seq<char>, JsonView) {
    (
        "set_model"@,
        empty_object().set("provider"@, JsonView::Text(choice.0)).set(
            "modelId"@,
            JsonView::Text(choice.1),
        ),
    )
}

/// The request that sets a level of thinking.
pub open spec fn level_request(level: Seq<char>) -> (Seq<char>, JsonView) {
    ("set_thinking_level"@, empty_object().set("level"@, JsonView::Text(level)))
}

/// What setting up a session takes.
pub struct PlanView {
    pub session_file: Seq<char>,
    pub model: Seq<char>,
    pub requests: Seq<(Seq<char>, JsonView)>,
}

/// What setting up a session takes, by the state that the session is in.
pub open spec fn plan_of(
    state: JsonView,
    model: Option<Seq<char>>,
    level: Option<ReasoningLevel>,
) -> Result<PlanView, ErrorView> {
    let choice = match wanted_model(state, model) {
        Some(model) => match selection(model) {
            Ok(choice) => Ok((model, seq![model_request(choice)])),
            Err(error) => Err(error),
        },
        None => Ok((current_model(state), Seq::empty())),
    };
    match file_of(state) {
        Some(session_file) => match choice {
            Ok((model, first)) => Ok(
                PlanView {
                    session_file,
                    model,
                    requests: match wanted_level(state, level) {
                        Some(level) => first.push(level_request(level)),
                        None => first,
                    },
                },
            ),
            Err(error) => Err(error),
        },
        None => Err(ErrorView::Protocol("Prime RPC session has no persistent file"@)),
    }
}

/// The event that a session starts with.
pub open spec fn start_of(plan: PlanView, cwd: Seq<char>, message_id: Seq<char>) -> EventView {
    EventView::SessionStarted {
        harness: HarnessId::Prime,
        model: plan.model,
        tools: Seq::empty(),
        cwd,
        session_id: plan.session_file,
        assistant_message_id: message_id,
    }
}

/// The goal that a session had when it was set up. It is marked, so that it can
/// be told from a notification of the agent.
pub open spec fn goal_of(state: JsonView) -> JsonView {
    empty_object().set("type"@, JsonView::Text("goal_update"@)).set("goal"@, state.at("goal"@)).set(
        "source"@,
        JsonView::Text("get_state"@),
    )
}

/// What a model selector selects.
pub fn selected_model(value: &str) -> (choice: Result<(String, String), HarnessError>)
    ensures
        match choice {
            Ok((provider, model)) => selection(value@) == Ok::<(Seq<char>, Seq<char>), ErrorView>(
                (provider@, model@),
            ),
            Err(error) => selection(value@) == Err::<(Seq<char>, Seq<char>), ErrorView>(error@),
        },
{
    match split_once(value, '/') {
        Some((provider, model)) => {
            if !provider.is_empty() && !model.is_empty() {
                return Ok((provider.to_owned(), model.to_owned()));
            }
        },
        None => {},
    }
    Err(HarnessError::Protocol("Invalid Prime model selector: ".to_owned().concat(value)))
}

/// What setting up a session takes.
#[derive(Debug, PartialEq)]
pub struct Plan {
    pub session_file: String,
    pub model: String,
    pub requests: Vec<Request>,
}

impl View for Plan {
    type V = PlanView;

    open spec fn view(&self) -> PlanView {
        PlanView {
            session_file: self.session_file@,
            model: self.model@,
            requests: requests(self.requests@),
        }
    }
}

/// Adds a request at the end of a list.
fn push_request(list: &mut Vec<Request>, kind: &str, fields: Json)
    ensures
        requests(final(list)@) == requests(old(list)@).push((kind@, fields@)),
{
    list.push(Request { kind: kind.to_owned(), fields });
    proof {
        assert(requests(list@) =~= requests(old(list)@).push((kind@, fields@)));
    }
}

/// What setting up a session takes, by the state that the session is in, the
/// model and the level of thinking that were asked for. The requests are made
/// in order; then the session's commands are asked for.
pub fn plan_setup(
    state: &Json,
    model: Option<&str>,
    level: Option<ReasoningLevel>,
) -> (plan: Result<Plan, HarnessError>)
    ensures
        match plan {
            Ok(plan) => plan_of(state@, opt_str(model), level) == Ok::<PlanView, ErrorView>(plan@),
            Err(error) => plan_of(state@, opt_str(model), level) == Err::<PlanView, ErrorView>(
                error@,
            ),
        },
{
    let session_file = match state.field("sessionFile") {
        Some(path) => path,
        None => {
            return Err(protocol_error("Prime RPC session has no persistent file"));
        },
    };
    if session_file.is_empty() {
        return Err(protocol_error("Prime RPC session has no persistent file"));
    }
    let current = match model_id(state.at("model")) {
        Some(name) => name,
        None => "default".to_owned(),
    };
    let mut list: Vec<Request> = Vec::new();
    proof {
        assert(requests(list@) =~= Seq::<(Seq<char>, JsonView)>::empty());
    }
    let selected = match model {
        Some(model) => {
            if same_text(model, "default") || same_text(model, current.as_str()) {
                current
            } else {
                match selected_model(model) {
                    Ok((provider, model_id)) => {
                        let fields = Json::object().set(
                            "provider",
                            Json::text(provider.as_str()),
                        ).set("modelId", Json::text(model_id.as_str()));
                        push_request(&mut list, "set_model", fields);
                        proof {
                            assert(requests(list@) =~= seq![
                                model_request((provider@, model_id@)),
                            ]);
                        }
                    },
                    Err(error) => {
                        return Err(error);
                    },
                }
                model.to_owned()
            }
        },
        None => current,
    };
    match level {
        Some(level) => {
            let name = reasoning_name(level);
            if knows_level(level) && !text_is(state.at("thinkingLevel").as_text(), name) {
                let fields = Json::object().set("level", Json::text(name));
                push_request(&mut list, "set_thinking_level", fields);
            }
        },
        None => {},
    }
    Ok(Plan { session_file: session_file.to_owned(), model: selected, requests: list })
}

impl Plan {
    /// The event that the session starts with. The given name is that of the
    /// first message of the assistant.
    pub fn start_as(&self, cwd: &str, message_id: String) -> (event: AgentEvent)
        ensures
            event@ == start_of(self@, cwd@, message_id@),
    {
        let tools: Vec<String> = Vec::new();
        proof {
            assert(texts(tools@) =~= Seq::<Seq<char>>::empty());
        }
        AgentEvent::SessionStarted {
            harness: HarnessId::Prime,
            model: self.model.clone(),
            tools,
            cwd: cwd.to_owned(),
            session_id: self.session_file.clone(),
            assistant_message_id: message_id,
        }
    }
}

/// The goal that a session had when it was set up.
pub fn goal_event(state: &Json) -> (event: AgentEvent)
    ensures
        event@ == (EventView::PrimeEvent { event: goal_of(state@) }),
{
    let event = Json::object().set("type", Json::text("goal_update")).set(
        "goal",
        state.at("goal").clone(),
    ).set("source", Json::text("get_state"));
    AgentEvent::PrimeEvent { event }
}

/// The end of a session that could not be set up.
pub fn setup_failure(error: String) -> (event: AgentEvent)
    ensures
        event@ == done(DoneStatus::Errored, Some(error@), None),
{
    done_event(DoneStatus::Errored, Some(error), None)
}

/// Whether a session that could not be set up has to be removed: one that was
/// made for this run in a daemon would be left behind.
pub fn kills_failed_setup(has_process: bool, resumed: bool, daemon: bool) -> (kills: bool)
    ensures
        kills == (!has_process && !resumed && daemon),
{
    !has_process && !resumed && daemon
}

/// The name of a model selects that model, where the name of its provider has
/// no stroke in it.
pub proof fn a_model_name_selects_the_model(provider: Seq<char>, id: Seq<char>)
    requires
        provider.len() > 0,
        id.len() > 0,
        !provider.contains('/'),
    ensures
        selection(model_name(provider, id)) == Ok::<(Seq<char>, Seq<char>), ErrorView>(
            (provider, id),
        ),
{
    reveal_strlit("/");
    let name = model_name(provider, id);
    let at = provider.len() as int;
    assert(name[at] == '/');
    assert forall|k: int| 0 <= k < at implies #[trigger] name[k] != '/' by {
        assert(name[k] == provider[k]);
        assert(provider.contains(provider[k]));
    }
    lemma_char_position_step(name, '/', at);
    assert(name.skip(at)[0] == '/');
    assert(name.take(at) =~= provider);
    assert(name.skip(at + 1) =~= id);
}

/// Asking for the model and the level of thinking that a session has, or for
/// none, changes nothing.
pub proof fn what_is_set_is_not_set_again(state: JsonView, level: Option<ReasoningLevel>)
    requires
        file_of(state) is Some,
        level is Some ==> state.at("thinkingLevel"@).as_text() == Some(level_name(level->0)),
    ensures
        plan_of(state, Some(current_model(state)), level) matches Ok(plan) && plan.requests.len()
            == 0 && plan.model == current_model(state),
        plan_of(state, None, level) == plan_of(state, Some(current_model(state)), level),
        plan_of(state, Some("default"@), level) == plan_of(state, None, level),
{
}

/// How far the setting up of a session has come: what it was asked for, what
/// the agent answered so far, and so what it is asked now.
#[allow(inconsistent_fields)]
pub enum StageView {
    /// The state of the session is asked for.
    State,
    /// A request of the plan is made; those before it were answered.
    Change { state: JsonView, plan: PlanView, answered: nat },
    /// The commands of the session are asked for.
    Commands { state: JsonView, plan: PlanView },
    /// The statistics of the session are asked for. The commands are those to
    /// tell of, if there is a list of them.
    Statistics { state: JsonView, plan: PlanView, commands: Option<Seq<CommandView>> },
}

/// A session that is being set up.
pub struct SetupView {
    pub model: Option<Seq<char>>,
    pub level: Option<ReasoningLevel>,
    pub cwd: Seq<char>,
    pub stage: StageView,
}

/// What comes next in the setting up of a session. What is told is told before
/// anything is asked.
#[allow(inconsistent_fields)]
pub enum SetupStepView {
    /// Tell of some events, make a request, and hand in its answer.
    Ask { told: Seq<EventView>, request: (Seq<char>, JsonView), setup: SetupView },
    /// Tell of some events: the session is set up, and this file keeps it.
    Finished { told: Seq<EventView>, session_file: Seq<char> },
    /// The session cannot be set up.
    Failed { error: ErrorView },
}

/// A request without fields.
pub open spec fn bare_request(kind: Seq<char>) -> (Seq<char>, JsonView) {
    (kind, empty_object())
}

/// The first step of setting up a session.
pub open spec fn first_step(
    model: Option<Seq<char>>,
    level: Option<ReasoningLevel>,
    cwd: Seq<char>,
) -> SetupStepView {
    SetupStepView::Ask {
        told: Seq::empty(),
        request: bare_request("get_state"@),
        setup: SetupView { model, level, cwd, stage: StageView::State },
    }
}

/// The step after some requests of the plan were answered: the next of them, or
/// the request for the commands.
pub open spec fn after_changes(
    s: SetupView,
    state: JsonView,
    plan: PlanView,
    answered: nat,
) -> SetupStepView {
    if answered < plan.requests.len() {
        SetupStepView::Ask {
            told: Seq::empty(),
            request: plan.requests[answered as int],
            setup: SetupView { stage: StageView::Change { state, plan, answered }, ..s },
        }
    } else {
        SetupStepView::Ask {
            told: Seq::empty(),
            request: bare_request("get_commands"@),
            setup: SetupView { stage: StageView::Commands { state, plan }, ..s },
        }
    }
}

/// The commands of an answer that are told of, if there is a list of them.
pub open spec fn commands_told(data: JsonView, valid: Seq<Seq<char>>) -> Option<
    Seq<CommandView>,
> {
    match offered_commands(data, valid) {
        Ok(list) => Some(list),
        Err(_) => None,
    }
}

/// The last events of the setting up of a session: how full the context is, where
/// that is known, the goal, and the commands, where there is a list of them.
pub open spec fn last_told(
    state: JsonView,
    statistics: Result<JsonView, ErrorView>,
    commands: Option<Seq<CommandView>>,
) -> Seq<EventView> {
    let usage = match usage_event_of(
        match statistics {
            Ok(data) => Some(data),
            Err(_) => None,
        },
        false,
    ) {
        Some(event) => seq![event],
        None => Seq::empty(),
    };
    let goal = usage.push(EventView::PrimeEvent { event: goal_of(state) });
    match commands {
        Some(commands) => goal.push(EventView::AvailableCommands { commands }),
        None => goal,
    }
}

/// What an answer makes of a session that is being set up. The names in the
/// answer that the grammar of commands takes are given, and the name of the
/// first message of the assistant.
pub open spec fn next_step(
    s: SetupView,
    answer: Result<JsonView, ErrorView>,
    valid: Seq<Seq<char>>,
    message_id: Seq<char>,
) -> SetupStepView {
    match s.stage {
        StageView::State => match answer {
            Ok(state) => match plan_of(state, s.model, s.level) {
                Ok(plan) => after_changes(s, state, plan, 0),
                Err(error) => SetupStepView::Failed { error },
            },
            Err(error) => SetupStepView::Failed { error },
        },
        StageView::Change { state, plan, answered } => match answer {
            Ok(_) => after_changes(s, state, plan, answered + 1),
            Err(error) => SetupStepView::Failed { error },
        },
        StageView::Commands { state, plan } => match answer {
            Ok(data) => SetupStepView::Ask {
                told: seq![start_of(plan, s.cwd, message_id)],
                request: bare_request("get_session_stats"@),
                setup: SetupView {
                    stage: StageView::Statistics {
                        state,
                        plan,
                        commands: commands_told(data, valid),
                    },
                    ..s
                },
            },
            Err(error) => SetupStepView::Failed { error },
        },
        StageView::Statistics { state, plan, commands } => SetupStepView::Finished {
            told: last_told(state, answer, commands),
            session_file: plan.session_file,
        },
    }
}

/// How far the setting up of a session has come.
#[allow(inconsistent_fields)]
pub enum Stage {
    State,
    Change { state: Json, plan: Plan, answered: usize },
    Commands { state: Json, plan: Plan },
    Statistics { state: Json, plan: Plan, commands: Option<Vec<SlashCommand>> },
}

/// A session that is being set up.
pub struct Setup {
    pub model: Option<String>,
    pub level: Option<ReasoningLevel>,
    pub cwd: String,
    pub stage: Stage,
}

impl View for Stage {
    type V = StageView;

    open spec fn view(&self) -> StageView {
        match self {
            Stage::State => StageView::State,
            Stage::Change { state, plan, answered } => StageView::Change {
                state: state@,
                plan: plan@,
                answered: *answered as nat,
            },
            Stage::Commands { state, plan } => StageView::Commands { state: state@, plan: plan@ },
            Stage::Statistics { state, plan, commands: list } => StageView::Statistics {
                state: state@,
                plan: plan@,
                commands: match list {
                    Some(list) => Some(commands(list@)),
                    None => None,
                },
            },
        }
    }
}

impl View for Setup {
    type V = SetupView;

    open spec fn view(&self) -> SetupView {
        SetupView {
            model: opt_text(self.model),
            level: self.level,
            cwd: self.cwd@,
            stage: self.stage@,
        }
    }
}

/// What comes next in the setting up of a session. What is told is told before
/// anything is asked.
#[allow(inconsistent_fields)]
pub enum SetupStep {
    /// Tell of some events, make a request, and hand in its answer.
    Ask { told: Vec<AgentEvent>, request: Request, setup: Setup },
    /// Tell of some events: the session is set up, and this file keeps it.
    Finished { told: Vec<AgentEvent>, session_file: String },
    /// The session cannot be set up.
    Failed { error: HarnessError },
}

impl View for SetupStep {
    type V = SetupStepView;

    open spec fn view(&self) -> SetupStepView {
        match self {
            SetupStep::Ask { told, request, setup } => SetupStepView::Ask {
                told: events(told@),
                request: (request.kind@, request.fields@),
                setup: setup@,
            },
            SetupStep::Finished { told, session_file } => SetupStepView::Finished {
                told: events(told@),
                session_file: session_file@,
            },
            SetupStep::Failed { error } => SetupStepView::Failed { error: error@ },
        }
    }
}

/// A request without fields.
fn bare(kind: &str) -> (request: Request)
    ensures
        (request.kind@, request.fields@) == bare_request(kind@),
{
    Request { kind: kind.to_owned(), fields: Json::object() }
}

/// Begins to set up a session, with the model and the level of thinking that were
/// asked for and the directory to work in.
pub fn begin_setup(model: Option<String>, level: Option<ReasoningLevel>, cwd: String) -> (step:
    SetupStep)
    ensures
        step@ == first_step(opt_text(model), level, cwd@),
{
    SetupStep::Ask {
        told: no_events(),
        request: bare("get_state"),
        setup: Setup { model, level, cwd, stage: Stage::State },
    }
}

impl Setup {
    /// The step after some requests of the plan were answered.
    fn proceed(self, state: Json, plan: Plan, answered: usize) -> (step: SetupStep)
        ensures
            step@ == after_changes(self@, state@, plan@, answered as nat),
    {
        if answered < plan.requests.len() {
            let request = Request {
                kind: plan.requests[answered].kind.clone(),
                fields: plan.requests[answered].fields.clone(),
            };
            SetupStep::Ask {
                told: no_events(),
                request,
                setup: Setup { stage: Stage::Change { state, plan, answered }, ..self },
            }
        } else {
            SetupStep::Ask {
                told: no_events(),
                request: bare("get_commands"),
                setup: Setup { stage: Stage::Commands { state, plan }, ..self },
            }
        }
    }

    /// Takes in the answer to the request that was made. The names in it that the
    /// grammar of commands takes are given, and the name of the first message of
    /// the assistant.
    pub fn answered_as(
        self,
        answer: Result<Json, HarnessError>,
        valid: &Vec<String>,
        message_id: String,
    ) -> (step: SetupStep)
        ensures
            step@ == next_step(self@, answer_view(answer), texts(valid@), message_id@),
    {
        let Setup { model, level, cwd, stage } = self;
        match stage {
            Stage::State => match answer {
                Ok(state) => {
                    let wanted = match &model {
                        Some(model) => Some(model.as_str()),
                        None => None,
                    };
                    match plan_setup(&state, wanted, level) {
                        Ok(plan) => {
                            let setup = Setup { model, level, cwd, stage: Stage::State };
                            setup.proceed(state, plan, 0)
                        },
                        Err(error) => SetupStep::Failed { error },
                    }
                },
                Err(error) => SetupStep::Failed { error },
            },
            Stage::Change { state, plan, answered } => match answer {
                Ok(_) => {
                    let setup = Setup { model, level, cwd, stage: Stage::State };
                    if answered < plan.requests.len() {
                        setup.proceed(state, plan, answered + 1)
                    } else {
                        setup.proceed(state, plan, answered)
                    }
                },
                Err(error) => SetupStep::Failed { error },
            },
            Stage::Commands { state, plan } => match answer {
                Ok(data) => {
                    let told = one_event(plan.start_as(cwd.as_str(), message_id));
                    let commands = match parse_commands(&data, valid) {
                        Ok(list) => Some(list),
                        Err(_) => None,
                    };
                    let stage = Stage::Statistics { state, plan, commands };
                    SetupStep::Ask {
                        told,
                        request: bare("get_session_stats"),
                        setup: Setup { model, level, cwd, stage },
                    }
                },
                Err(error) => SetupStep::Failed { error },
            },
            Stage::Statistics { state, plan, commands } => {
                let statistics = match &answer {
                    Ok(data) => Some(data),
                    Err(_) => None,
                };
                let mut told = no_events();
                match usage_event(statistics, false) {
                    Some(event) => {
                        push_event(&mut told, event);
                    },
                    None => {},
                }
                push_event(&mut told, goal_event(&state));
                match commands {
                    Some(commands) => {
                        push_event(&mut told, AgentEvent::AvailableCommands { commands });
                    },
                    None => {},
                }
                SetupStep::Finished { told, session_file: plan.session_file }
            },
        }
    }

    /// Takes in the answer to the request that was made. The names in it that the
    /// grammar of commands takes are given. The first message of the assistant
    /// gets a fresh name.
    pub fn answered(self, answer: Result<Json, HarnessError>, valid: &Vec<String>) -> (step:
        SetupStep)
        ensures
            exists|message_id: Seq<char>|
                is_uuid_text(message_id) && step@ == #[trigger] next_step(
                    self@,
                    answer_view(answer),
                    texts(valid@),
                    message_id,
                ),
    {
        self.answered_as(answer, valid, fresh_uuid())
    }
}

} // verus!
