//! What holds where the machine decides a part: fresh names, and paths.

use vstd::prelude::*;

#[allow(unused_imports)]
use crate::children::{begun, Begun, Children};
#[allow(unused_imports)]
use crate::file_names::{may_be_absolute, stands_behind_dot};
#[allow(unused_imports)]
use crate::harness::PrimeHarness;
#[allow(unused_imports)]
use crate::ids::is_uuid_text;
#[allow(unused_imports)]
use crate::json::{opt_text, Json};
#[allow(unused_imports)]
use crate::proto::{events, AgentEvent, HarnessError};
#[allow(unused_imports)]
use crate::rollout::RolloutImages;
#[allow(unused_imports)]
use crate::setup::{Setup, SetupStep, SetupStepView};

verus! {

/// A snapshot of a child that was not new is taken in the same way whatever name
/// is given to its messages, and so with a fresh one.
pub proof fn a_known_child_needs_no_fresh_name(
    one: &mut Children,
    child: Json,
    cwd: &str,
    fresh: Begun,
    other: &mut Children,
    message_id: &str,
    named: (Vec<AgentEvent>, Option<String>),
)
    requires
        call_ensures(Children::begin_update, (one, &child, cwd), fresh),
        call_ensures(Children::begin_update_as, (other, &child, cwd, message_id), named),
        old(other)@ == old(one)@,
    ensures
        final(one)@ == final(other)@,
        opt_text(fresh.observe) == opt_text(named.1),
        fresh.events@.len() == named.0@.len(),
        forall|k: int|
            0 <= k < named.0@.len() && k != 1 ==> events(fresh.events@)[k] == #[trigger] events(
                named.0@,
            )[k],
{
    let id = choose|id: Seq<char>|
        is_uuid_text(id) && (final(one)@, events(fresh.events@), opt_text(fresh.observe))
            == #[trigger] begun(old(one)@, child@, cwd@, id);
    assert(events(fresh.events@).len() == fresh.events@.len());
    assert(events(named.0@).len() == named.0@.len());
}

/// An answer is taken in the same way whatever name is given to the first
/// message, but for that name in the start of the session.
pub proof fn an_answer_is_taken_in_under_a_fresh_name(
    setup: Setup,
    answer: Result<Json, HarnessError>,
    valid: Vec<String>,
    fresh: SetupStep,
    message_id: String,
    named: SetupStep,
)
    requires
        call_ensures(Setup::answered, (setup, answer, &valid), fresh),
        call_ensures(Setup::answered_as, (setup, answer, &valid, message_id), named),
    ensures
        !(setup@.stage is Commands) ==> fresh@ == named@,
        setup@.stage is Commands && answer is Err ==> fresh@ == named@,
        setup@.stage is Commands && answer is Ok ==> (fresh@ matches SetupStepView::Ask {
            told: a,
            request: b,
            setup: c,
        } && named@ matches SetupStepView::Ask { told: d, request: e, setup: f } && b == e && c
            == f && a.len() == d.len()),
{
}

/// A rollout that is followed by its path is one: its path may be absolute and
/// has the extension, and it is read from its start, or from its end where it was
/// there before.
pub proof fn a_followed_path_is_one_of_a_rollout(
    path: &str,
    resumed: bool,
    length: u64,
    rollout: Option<RolloutImages>,
)
    requires
        call_ensures(RolloutImages::new, (path, resumed, length), rollout),
    ensures
        rollout matches Some(rollout) ==> {
            &&& may_be_absolute(path@)
            &&& stands_behind_dot(path@, "jsonl"@)
            &&& rollout@.path == path@
            &&& rollout@.offset == if resumed {
                length
            } else {
                0
            }
            &&& rollout@.pending.len() == 0
        },
{
}

/// A new driver has no executable of its own.
pub proof fn a_new_driver_looks_for_the_agent(harness: PrimeHarness)
    requires
        call_ensures(PrimeHarness::new, (), harness),
    ensures
        harness.executable is None,
{
}

} // verus!
