//! What holds of where the data is kept, of how the agent is started, and of the
//! commands that the user types.

use vstd::prelude::*;

#[allow(unused_imports)]
use crate::harness::{
    arguments, missing_stream, not_installed, probe_timeout, start_error, PrimeHarness,
};
#[allow(unused_imports)]
use crate::invocation::{goal_may_start_turn, is_line_break, spans_lines};
#[allow(unused_imports)]
use crate::json::texts;
#[allow(unused_imports)]
use crate::paths::{
    names, resolve_data_dir, variable_name, DataDir, Environment, Platform, Setting, Variable,
};
#[allow(unused_imports)]
use crate::proto::{models, ErrorView, HarnessError, HarnessId, Model, ReasoningLevel, SteeringMode};

verus! {

/// Whether the data is kept in a directory within the one that a variable names.
pub open spec fn is_kept(
    dir: Result<DataDir, &'static str>,
    base: Variable,
    within: Seq<Seq<char>>,
) -> bool {
    dir matches Ok(dir) && dir.base == base && names(dir.within@) == within
}

/// The data is kept in the directory that was named for it, even an empty one,
/// and otherwise among the data of the user: on Windows in the first of two
/// directories that is named and not empty, elsewhere in the home directory,
/// even an empty one. Where none is named it cannot be told, and the reason says
/// so.
pub proof fn the_data_is_kept_where_the_environment_says(
    platform: Platform,
    e: Environment,
    dir: Result<DataDir, &'static str>,
)
    requires
        call_ensures(resolve_data_dir, (platform, e), dir),
    ensures
        e.zeron_data_dir != Setting::Unset ==> is_kept(dir, Variable::ZeronDataDir, seq![]),
        e.zeron_data_dir == Setting::Unset && platform == Platform::Unix ==> {
            &&& e.home != Setting::Unset ==> is_kept(dir, Variable::Home, seq![".jjzeron"@])
            &&& e.home == Setting::Unset ==> (dir matches Err(reason) && reason@
                == "HOME not set"@)
        },
        e.zeron_data_dir == Setting::Unset && platform == Platform::Windows ==> {
            &&& e.local_app_data == Setting::Filled ==> is_kept(
                dir,
                Variable::LocalAppData,
                seq!["JJzeron"@],
            )
            &&& e.local_app_data != Setting::Filled && e.user_profile == Setting::Filled ==> is_kept(
                dir,
                Variable::UserProfile,
                seq!["AppData"@, "Local"@, "JJzeron"@],
            )
            &&& e.local_app_data != Setting::Filled && e.user_profile != Setting::Filled ==> (
            dir matches Err(reason) && reason@
                == "LOCALAPPDATA and USERPROFILE not set; set ZERON_DATA_DIR"@)
        },
{
}

/// The variables are known by their names in the environment.
pub proof fn variables_have_their_names(variable: Variable, name: &'static str)
    requires
        call_ensures(variable_name, (variable,), name),
    ensures
        variable == Variable::ZeronDataDir ==> name@ == "ZERON_DATA_DIR"@,
        variable == Variable::LocalAppData ==> name@ == "LOCALAPPDATA"@,
        variable == Variable::UserProfile ==> name@ == "USERPROFILE"@,
        variable == Variable::Home ==> name@ == "HOME"@,
{
}

/// The agent is started as a server that is spoken to by lines. Then it is told
/// to keep no session, if none is wanted, and then which one to resume.
pub proof fn the_agent_is_started_as_a_server(
    resume: Option<&str>,
    no_session: bool,
    list: Vec<String>,
)
    requires
        call_ensures(arguments, (resume, no_session), list),
    ensures
        ({
            let all = texts(list@);
            let kept = if no_session {
                1int
            } else {
                0
            };
            &&& list@.len() == 2 + kept + (if resume is Some {
                2int
            } else {
                0
            })
            &&& all[0] == "--mode"@ && all[1] == "rpc"@
            &&& no_session ==> all[2] == "--no-session"@
            &&& resume matches Some(path) ==> all[2 + kept] == "--resume"@ && all[3 + kept] == path@
        }),
{
    assert(texts(list@).len() == list@.len());
}

/// The errors of an agent that cannot be started or does not answer.
pub proof fn what_goes_wrong_at_the_start_is_told(
    missing: bool,
    hint: String,
    error: String,
    failed: HarnessError,
    absent: HarnessError,
    stream: &str,
    streamless: HarnessError,
    command: &str,
    lines: &str,
    late: HarnessError,
)
    requires
        call_ensures(start_error, (missing, hint, error), failed),
        call_ensures(not_installed, (), absent),
        call_ensures(missing_stream, (stream,), streamless),
        call_ensures(probe_timeout, (command, lines), late),
    ensures
        missing ==> failed@ == ErrorView::NotInstalled(hint@),
        !missing ==> failed@ == ErrorView::Io(error@),
        absent@ == ErrorView::NotInstalled(
            "prime-agent (install Prime Agent or set PRIME_AGENT_EXECUTABLE)"@,
        ),
        streamless@ == ErrorView::Protocol("Prime RPC has no "@ + stream@),
        late@ == ErrorView::Protocol("Prime RPC "@ + command@ + " timed out; "@ + lines@),
{
}

/// An executable that the program names goes before one that the environment
/// names. The daemon is used first if and only if neither names one.
pub proof fn a_named_executable_is_used(
    harness: PrimeHarness,
    environment: Option<&std::path::PathBuf>,
    path: Option<&std::path::PathBuf>,
    prefers: bool,
)
    requires
        call_ensures(PrimeHarness::named_executable, (&harness, environment), path),
        call_ensures(PrimeHarness::prefers_daemon, (&harness, environment), prefers),
    ensures
        harness.executable matches Some(executable) ==> path == Some(&executable),
        harness.executable is None ==> path == environment,
        prefers <==> path is None,
{
}

/// What the driver says of the agent.
pub proof fn the_driver_is_that_of_prime(
    harness: PrimeHarness,
    id: HarnessId,
    name: &'static str,
    steering: bool,
    mode: SteeringMode,
    authoritative: bool,
    levels: Vec<ReasoningLevel>,
    list: Vec<Model>,
)
    requires
        call_ensures(PrimeHarness::id, (&harness,), id),
        call_ensures(PrimeHarness::display_name, (&harness,), name),
        call_ensures(PrimeHarness::supports_steering, (&harness,), steering),
        call_ensures(PrimeHarness::steering_mode, (&harness,), mode),
        call_ensures(PrimeHarness::authoritative_prompt_end, (&harness,), authoritative),
        call_ensures(PrimeHarness::reasoning_levels, (&harness,), levels),
        call_ensures(PrimeHarness::fallback_models, (&harness,), list),
    ensures
        id == HarnessId::Prime,
        name@ == "Prime Agent"@,
        steering,
        mode == SteeringMode::StepBoundary,
        authoritative,
        levels@ == seq![
            ReasoningLevel::Minimal,
            ReasoningLevel::Low,
            ReasoningLevel::Medium,
            ReasoningLevel::High,
            ReasoningLevel::XHigh,
            ReasoningLevel::Max,
        ],
        list@.len() == 1,
        models(list@)[0].id == "default"@,
{
    assert(models(list@).len() == list@.len());
}

/// A text spans lines if and only if one of four characters is in it.
pub proof fn a_text_spans_lines_if_it_breaks(text: &str, spans: bool)
    requires
        call_ensures(spans_lines, (text,), spans),
    ensures
        spans <==> text@.contains('\n') || text@.contains('\r') || text@.contains('\u{2028}')
            || text@.contains('\u{2029}'),
{
    if spans {
        let i = choose|i: int| 0 <= i < text@.len() && is_line_break(#[trigger] text@[i]);
        assert(text@.contains(text@[i]));
    }
    assert forall|c: char| text@.contains(c) && is_line_break(c) implies spans by {
        let i = choose|i: int| 0 <= i < text@.len() && text@[i] == c;
        assert(is_line_break(text@[i]));
    }
    assert(is_line_break('\n') && is_line_break('\r'));
    assert(is_line_break('\u{2028}') && is_line_break('\u{2029}'));
}

/// A goal starts a turn unless it is looked at or set aside.
pub proof fn a_goal_starts_a_turn_unless_it_is_set_aside(args: &str, may: bool)
    requires
        call_ensures(goal_may_start_turn, (args,), may),
    ensures
        !may <==> args@ == ""@ || args@ == "status"@ || args@ == "pause"@ || args@ == "clear"@
            || args@ == "stop"@,
{
}

} // verus!
