//! What holds of the setting up of every session.

use vstd::prelude::*;

#[allow(unused_imports)]
use crate::json::JsonView;
#[allow(unused_imports)]
use crate::proto::{ErrorView, EventView, ReasoningLevel};
#[allow(unused_imports)]
use crate::setup::{
    after_changes, bare_request, commands_told, first_step, last_told, next_step, plan_of,
    start_of, PlanView, SetupStepView, SetupView, StageView,
};

verus! {

/// An answer of the agent, the names in it that the grammar of commands takes,
/// and the name for a message that is at hand when it comes.
pub struct Reply {
    pub answer: Result<JsonView, ErrorView>,
    pub valid: Seq<Seq<char>>,
    pub message_id: Seq<char>,
}

/// What came of the setting up of a session: what was asked, what was told, and
/// how it ended, if it did: with the file that keeps the session, or with an
/// error.
pub struct SetupRun {
    pub asked: Seq<(Seq<char>, JsonView)>,
    pub told: Seq<EventView>,
    pub end: Option<Result<Seq<char>, ErrorView>>,
}

/// What comes of a step when the agent's replies are these.
pub open spec fn carried(step: SetupStepView, replies: Seq<Reply>) -> SetupRun
    decreases replies.len(),
{
    match step {
        SetupStepView::Ask { told, request, setup } => if replies.len() == 0 {
            SetupRun { asked: seq![request], told, end: None }
        } else {
            let reply = replies[0];
            let next = next_step(setup, reply.answer, reply.valid, reply.message_id);
            let rest = carried(next, replies.drop_first());
            SetupRun {
                asked: seq![request] + rest.asked,
                told: told + rest.told,
                end: rest.end,
            }
        },
        SetupStepView::Finished { told, session_file } => SetupRun {
            asked: Seq::empty(),
            told,
            end: Some(Ok(session_file)),
        },
        SetupStepView::Failed { error } => SetupRun {
            asked: Seq::empty(),
            told: Seq::empty(),
            end: Some(Err(error)),
        },
    }
}

/// Whether the first so many replies are good ones.
pub open spec fn all_good(replies: Seq<Reply>, count: int) -> bool {
    &&& count <= replies.len()
    &&& forall|i: int| 0 <= i < count ==> (#[trigger] replies[i]).answer is Ok
}

proof fn lemma_changes_succeed(
    s: SetupView,
    state: JsonView,
    plan: PlanView,
    answered: nat,
    replies: Seq<Reply>,
)
    requires
        answered <= plan.requests.len(),
        replies.len() >= plan.requests.len() - answered + 2,
        all_good(replies, plan.requests.len() - answered + 1),
    ensures
        ({
            let left = plan.requests.len() - answered;
            let run = carried(after_changes(s, state, plan, answered), replies);
            let listed = replies[left];
            &&& run.asked == plan.requests.skip(answered as int) + seq![
                bare_request("get_commands"@),
                bare_request("get_session_stats"@),
            ]
            &&& run.told == seq![start_of(plan, s.cwd, listed.message_id)] + last_told(
                state,
                replies[left + 1].answer,
                commands_told(listed.answer->Ok_0, listed.valid),
            )
            &&& run.end == Some(Ok::<Seq<char>, ErrorView>(plan.session_file))
        }),
    decreases plan.requests.len() - answered,
{
    let rest = replies.drop_first();
    let left = plan.requests.len() - answered;
    assert(replies[0].answer is Ok);
    let run = carried(after_changes(s, state, plan, answered), replies);
    if left > 0 {
        assert forall|i: int| 0 <= i < left implies (#[trigger] rest[i]).answer is Ok by {
            assert(rest[i] == replies[i + 1]);
        }
        let next = SetupView { stage: StageView::Change { state, plan, answered }, ..s };
        lemma_changes_succeed(next, state, plan, answered + 1, rest);
        assert(rest[left - 1] == replies[left]);
        assert(rest[left] == replies[left + 1]);
        let inner = carried(after_changes(next, state, plan, answered + 1), rest);
        assert(plan.requests.skip(answered as int) =~= seq![plan.requests[answered as int]]
            + plan.requests.skip(answered as int + 1));
        lemma_same_changes(s, next, state, plan, answered + 1);
        assert(run.asked =~= plan.requests.skip(answered as int) + seq![
            bare_request("get_commands"@),
            bare_request("get_session_stats"@),
        ]);
        assert(run.told =~= inner.told);
    } else {
        reveal_with_fuel(carried, 4);
        let listed = replies[0];
        let data = listed.answer->Ok_0;
        let last = last_told(state, rest[0].answer, commands_told(data, listed.valid));
        assert(rest[0] == replies[1]);
        assert(run.asked =~= plan.requests.skip(answered as int) + seq![
            bare_request("get_commands"@),
            bare_request("get_session_stats"@),
        ]);
        assert(run.told =~= seq![start_of(plan, s.cwd, listed.message_id)] + last);
    }
}

/// The stage that a session is in is not looked at when its plan goes on.
proof fn lemma_same_changes(
    s: SetupView,
    t: SetupView,
    state: JsonView,
    plan: PlanView,
    answered: nat,
)
    requires
        s.model == t.model,
        s.level == t.level,
        s.cwd == t.cwd,
    ensures
        after_changes(s, state, plan, answered) == after_changes(t, state, plan, answered),
{
}

proof fn lemma_changes_fail(
    s: SetupView,
    state: JsonView,
    plan: PlanView,
    answered: nat,
    replies: Seq<Reply>,
    at: int,
)
    requires
        answered <= plan.requests.len(),
        0 <= at <= plan.requests.len() - answered,
        at < replies.len(),
        all_good(replies, at),
        replies[at].answer is Err,
    ensures
        ({
            let run = carried(after_changes(s, state, plan, answered), replies);
            &&& run.asked == plan.requests.skip(answered as int).push(
                bare_request("get_commands"@),
            ).take(at + 1)
            &&& run.told == Seq::<EventView>::empty()
            &&& run.end == Some(Err::<Seq<char>, ErrorView>(replies[at].answer->Err_0))
        }),
    decreases at,
{
    let rest = replies.drop_first();
    let run = carried(after_changes(s, state, plan, answered), replies);
    let asks = plan.requests.skip(answered as int).push(bare_request("get_commands"@));
    if at > 0 {
        assert(replies[0].answer is Ok);
        assert forall|i: int| 0 <= i < at - 1 implies (#[trigger] rest[i]).answer is Ok by {
            assert(rest[i] == replies[i + 1]);
        }
        let next = SetupView { stage: StageView::Change { state, plan, answered }, ..s };
        lemma_changes_fail(next, state, plan, answered + 1, rest, at - 1);
        let later = plan.requests.skip(answered as int + 1).push(bare_request("get_commands"@));
        assert(asks =~= seq![plan.requests[answered as int]] + later);
        assert(run.asked =~= asks.take(at + 1));
        assert(run.told =~= Seq::<EventView>::empty());
    } else {
        reveal_with_fuel(carried, 2);
        assert(run.asked =~= asks.take(1));
        assert(run.told =~= Seq::<EventView>::empty());
    }
}

proof fn lemma_changes_order(
    s: SetupView,
    state: JsonView,
    plan: PlanView,
    answered: nat,
    replies: Seq<Reply>,
)
    requires
        answered <= plan.requests.len(),
    ensures
        ({
            let left = plan.requests.len() - answered;
            let run = carried(after_changes(s, state, plan, answered), replies);
            &&& run.end matches Some(Err(_)) ==> run.told.len() == 0 && !all_good(
                replies,
                left + 1,
            )
            &&& run.told.len() > 0 ==> all_good(replies, left + 1) && run.told[0] == start_of(
                plan,
                s.cwd,
                replies[left].message_id,
            )
            &&& forall|k: int|
                0 < k < run.told.len() ==> !((#[trigger] run.told[k]) is SessionStarted)
        }),
    decreases plan.requests.len() - answered,
{
    let left = plan.requests.len() - answered;
    let rest = replies.drop_first();
    let run = carried(after_changes(s, state, plan, answered), replies);
    if replies.len() > 0 && replies[0].answer is Ok {
        if left > 0 {
            let next = SetupView { stage: StageView::Change { state, plan, answered }, ..s };
            lemma_changes_order(next, state, plan, answered + 1, rest);
            lemma_same_changes(s, next, state, plan, answered + 1);
            let inner = carried(after_changes(next, state, plan, answered + 1), rest);
            assert(run.told =~= inner.told);
            if all_good(rest, left) {
                assert forall|i: int| 0 <= i < left + 1 implies (
                #[trigger] replies[i]).answer is Ok by {
                    if i > 0 {
                        assert(replies[i] == rest[i - 1]);
                    }
                }
                assert(rest[left - 1] == replies[left]);
            }
            if all_good(replies, left + 1) {
                assert forall|i: int| 0 <= i < left implies (#[trigger] rest[i]).answer is Ok by {
                    assert(rest[i] == replies[i + 1]);
                }
            }
        } else {
            reveal_with_fuel(carried, 4);
            let start = start_of(plan, s.cwd, replies[0].message_id);
            if rest.len() > 0 {
                let commands = commands_told(replies[0].answer->Ok_0, replies[0].valid);
                let last = last_told(state, rest[0].answer, commands);
                assert(run.told =~= seq![start] + last);
                assert forall|k: int| 0 < k < run.told.len() implies !((#[trigger] run.told[k])
                    is SessionStarted) by {
                    assert(run.told[k] == last[k - 1]);
                }
            } else {
                assert(run.told =~= seq![start]);
            }
        }
    } else if replies.len() > 0 {
        reveal_with_fuel(carried, 2);
        assert(run.told =~= Seq::<EventView>::empty());
    }
}

/// A session whose state can be planned from, and whose requests up to the one
/// for its commands are all answered, is set up: everything is asked in order;
/// the start is told once the commands are there, and then how full the context
/// is, the goal and the commands. Missing statistics, or a missing list of
/// commands, only leave their event out.
pub proof fn an_answered_setup_finishes(
    model: Option<Seq<char>>,
    level: Option<ReasoningLevel>,
    cwd: Seq<char>,
    replies: Seq<Reply>,
    plan: PlanView,
)
    requires
        replies.len() >= plan.requests.len() + 3,
        all_good(replies, plan.requests.len() as int + 2),
        plan_of(replies[0].answer->Ok_0, model, level) == Ok::<PlanView, ErrorView>(plan),
    ensures
        ({
            let count = plan.requests.len() as int;
            let run = carried(first_step(model, level, cwd), replies);
            let listed = replies[count + 1];
            &&& run.asked == seq![bare_request("get_state"@)] + plan.requests + seq![
                bare_request("get_commands"@),
                bare_request("get_session_stats"@),
            ]
            &&& run.told == seq![start_of(plan, cwd, listed.message_id)] + last_told(
                replies[0].answer->Ok_0,
                replies[count + 2].answer,
                commands_told(listed.answer->Ok_0, listed.valid),
            )
            &&& run.end == Some(Ok::<Seq<char>, ErrorView>(plan.session_file))
        }),
{
    let rest = replies.drop_first();
    let count = plan.requests.len() as int;
    let state = replies[0].answer->Ok_0;
    assert(replies[0].answer is Ok);
    assert forall|i: int| 0 <= i < count + 1 implies (#[trigger] rest[i]).answer is Ok by {
        assert(rest[i] == replies[i + 1]);
    }
    let s = SetupView { model, level, cwd, stage: StageView::State };
    lemma_changes_succeed(s, state, plan, 0, rest);
    assert(rest[count] == replies[count + 1]);
    assert(rest[count + 1] == replies[count + 2]);
    assert(plan.requests.skip(0) =~= plan.requests);
    let run = carried(first_step(model, level, cwd), replies);
    let inner = carried(after_changes(s, state, plan, 0), rest);
    assert(run.told =~= inner.told);
    assert(run.asked =~= seq![bare_request("get_state"@)] + plan.requests + seq![
        bare_request("get_commands"@),
        bare_request("get_session_stats"@),
    ]);
}

/// The first request up to the one for the commands that fails ends the setting
/// up of a session with its error: nothing is told, and nothing more is asked.
pub proof fn a_failed_request_ends_the_setup(
    model: Option<Seq<char>>,
    level: Option<ReasoningLevel>,
    cwd: Seq<char>,
    replies: Seq<Reply>,
    at: int,
)
    requires
        0 <= at < replies.len(),
        all_good(replies, at),
        replies[at].answer is Err,
        at > 0 ==> (plan_of(replies[0].answer->Ok_0, model, level) matches Ok(plan) && at
            <= plan.requests.len() + 1),
    ensures
        ({
            let run = carried(first_step(model, level, cwd), replies);
            &&& run.asked.len() == at + 1
            &&& run.told == Seq::<EventView>::empty()
            &&& run.end == Some(Err::<Seq<char>, ErrorView>(replies[at].answer->Err_0))
        }),
{
    let rest = replies.drop_first();
    let s = SetupView { model, level, cwd, stage: StageView::State };
    let run = carried(first_step(model, level, cwd), replies);
    if at > 0 {
        assert(replies[0].answer is Ok);
        let state = replies[0].answer->Ok_0;
        let plan = plan_of(state, model, level)->Ok_0;
        assert forall|i: int| 0 <= i < at - 1 implies (#[trigger] rest[i]).answer is Ok by {
            assert(rest[i] == replies[i + 1]);
        }
        lemma_changes_fail(s, state, plan, 0, rest, at - 1);
        assert(run.told =~= Seq::<EventView>::empty());
    } else {
        reveal_with_fuel(carried, 2);
        assert(run.told =~= Seq::<EventView>::empty());
    }
}

/// A state that cannot be planned from ends the setting up of a session with
/// the plan's error: nothing is told, and nothing more is asked.
pub proof fn a_refused_plan_ends_the_setup(
    model: Option<Seq<char>>,
    level: Option<ReasoningLevel>,
    cwd: Seq<char>,
    replies: Seq<Reply>,
)
    requires
        replies.len() > 0,
        replies[0].answer is Ok,
        plan_of(replies[0].answer->Ok_0, model, level) is Err,
    ensures
        carried(first_step(model, level, cwd), replies) == (SetupRun {
            asked: seq![bare_request("get_state"@)],
            told: Seq::empty(),
            end: Some(Err(plan_of(replies[0].answer->Ok_0, model, level)->Err_0)),
        }),
{
    reveal_with_fuel(carried, 2);
    let run = carried(first_step(model, level, cwd), replies);
    assert(run.asked =~= seq![bare_request("get_state"@)]);
    assert(run.told =~= Seq::<EventView>::empty());
}

/// Whatever the agent answers: a setup that fails has told nothing, and fails
/// only because its plan was refused or a request up to the one for the
/// commands failed. One that tells anything tells its start first, and once, and
/// only when all those requests were answered.
pub proof fn a_setup_tells_nothing_before_its_start(
    model: Option<Seq<char>>,
    level: Option<ReasoningLevel>,
    cwd: Seq<char>,
    replies: Seq<Reply>,
)
    ensures
        ({
            let run = carried(first_step(model, level, cwd), replies);
            let planned = if all_good(replies, 1) {
                plan_of(replies[0].answer->Ok_0, model, level)
            } else {
                Err(ErrorView::Protocol(""@))
            };
            &&& run.end matches Some(Err(_)) ==> run.told.len() == 0 && (planned is Err
                || !all_good(replies, planned->Ok_0.requests.len() as int + 2))
            &&& run.told.len() > 0 ==> planned is Ok && all_good(
                replies,
                planned->Ok_0.requests.len() as int + 2,
            ) && run.told[0] == start_of(
                planned->Ok_0,
                cwd,
                replies[planned->Ok_0.requests.len() as int + 1].message_id,
            )
            &&& forall|k: int|
                0 < k < run.told.len() ==> !((#[trigger] run.told[k]) is SessionStarted)
        }),
{
    let rest = replies.drop_first();
    let s = SetupView { model, level, cwd, stage: StageView::State };
    let run = carried(first_step(model, level, cwd), replies);
    if all_good(replies, 1) {
        assert(replies[0].answer is Ok);
        let state = replies[0].answer->Ok_0;
        match plan_of(state, model, level) {
            Ok(plan) => {
                let count = plan.requests.len() as int;
                lemma_changes_order(s, state, plan, 0, rest);
                let inner = carried(after_changes(s, state, plan, 0), rest);
                assert(run.told =~= inner.told);
                if all_good(rest, count + 1) {
                    assert forall|i: int| 0 <= i < count + 2 implies (
                    #[trigger] replies[i]).answer is Ok by {
                        if i > 0 {
                            assert(replies[i] == rest[i - 1]);
                        }
                    }
                    assert(rest[count] == replies[count + 1]);
                }
                if all_good(replies, count + 2) {
                    assert forall|i: int| 0 <= i < count + 1 implies (
                    #[trigger] rest[i]).answer is Ok by {
                        assert(rest[i] == replies[i + 1]);
                    }
                }
            },
            Err(_) => {
                a_refused_plan_ends_the_setup(model, level, cwd, replies);
            },
        }
    } else if replies.len() > 0 {
        assert(replies[0].answer is Err);
        a_failed_request_ends_the_setup(model, level, cwd, replies, 0);
    }
}

} // verus!
