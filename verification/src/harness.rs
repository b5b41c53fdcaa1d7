//! The driver of Prime: what it is called, and how the agent is started.

use std::path::PathBuf;

use vstd::prelude::*;

use crate::catalog::reasoning_levels;
#[allow(unused_imports)]
use crate::catalog::{default_model, prime_levels};
#[allow(unused_imports)]
use crate::json::{opt_str, texts};
use crate::proto::{ErrorView, HarnessError, HarnessId, Model, ReasoningLevel, SteeringMode};
#[allow(unused_imports)]
use crate::proto::models;

verus! {

/// A path of this machine.
#[verifier::external_type_specification]
#[verifier::external_body]
pub struct ExPathBuf(std::path::PathBuf);

/// The driver of Prime.
pub struct PrimeHarness {
    pub executable: Option<PathBuf>,
}

impl Default for PrimeHarness {
    /// A driver that looks for the agent by itself.
    fn default() -> (harness: Self)
        ensures
            harness.executable is None,
    {
        Self::new()
    }
}

/// The arguments that the agent is started with.
pub open spec fn arguments_of(resume: Option<Seq<char>>, no_session: bool) -> Seq<Seq<char>> {
    let mode = seq!["--mode"@, "rpc"@];
    let session = if no_session {
        mode.push("--no-session"@)
    } else {
        mode
    };
    match resume {
        Some(path) => session.push("--resume"@).push(path),
        None => session,
    }
}

impl PrimeHarness {
    /// A driver that looks for the agent by itself.
    pub fn new() -> (harness: Self)
        ensures
            harness.executable is None,
    {
        PrimeHarness { executable: None }
    }

    /// The driver with a given executable in place of the one that it would
    /// find.
    pub fn with_executable<P: Into<PathBuf>>(self, executable: P) -> (harness: Self)
        ensures
            harness.executable is Some,
            call_ensures(<P as Into<PathBuf>>::into, (executable,), harness.executable->0),
    {
        PrimeHarness { executable: Some(executable.into()) }
    }

    /// The executable that was named, by the program or else by the
    /// environment.
    pub fn named_executable<'a>(&'a self, environment: Option<&'a PathBuf>) -> (path: Option<
        &'a PathBuf,
    >)
        ensures
            path == match self.executable {
                Some(path) => Some(&path),
                None => environment,
            },
    {
        match &self.executable {
            Some(path) => Some(path),
            None => environment,
        }
    }

    /// Whether a run goes to Prime's daemon first: it does unless an executable
    /// was named. Where the daemon cannot be used, the run goes to a process.
    pub fn prefers_daemon(&self, environment: Option<&PathBuf>) -> (prefers: bool)
        ensures
            prefers == (self.executable is None && environment is None),
    {
        self.named_executable(environment).is_none()
    }

    /// The agent that is driven.
    pub fn id(&self) -> (id: HarnessId)
        ensures
            id == HarnessId::Prime,
    {
        HarnessId::Prime
    }

    /// What the agent is called.
    pub fn display_name(&self) -> (name: &'static str)
        ensures
            name@ == "Prime Agent"@,
    {
        "Prime Agent"
    }

    /// Whether the agent takes in messages while it works.
    pub fn supports_steering(&self) -> (supports: bool)
        ensures
            supports,
    {
        true
    }

    /// How the agent takes in messages while it works.
    pub fn steering_mode(&self) -> (mode: SteeringMode)
        ensures
            mode == SteeringMode::StepBoundary,
    {
        SteeringMode::StepBoundary
    }

    /// The levels of thinking that the agent knows.
    pub fn reasoning_levels(&self) -> (levels: Vec<ReasoningLevel>)
        ensures
            levels@ == prime_levels(),
    {
        reasoning_levels()
    }

    /// Whether the agent says by itself when a prompt is done with.
    pub fn authoritative_prompt_end(&self) -> (authoritative: bool)
        ensures
            authoritative,
    {
        true
    }

    /// The models that can be chosen without asking the agent.
    pub fn fallback_models(&self) -> (list: Vec<Model>)
        ensures
            models(list@) == seq![default_model()],
    {
        crate::catalog::fallback_models()
    }
}

/// The arguments that the agent is started with: with a session that a file
/// keeps, with a new one, or with none.
pub fn arguments(resume: Option<&str>, no_session: bool) -> (list: Vec<String>)
    ensures
        texts(list@) == arguments_of(opt_str(resume), no_session),
{
    let mut list: Vec<String> = Vec::new();
    list.push("--mode".to_owned());
    list.push("rpc".to_owned());
    if no_session {
        list.push("--no-session".to_owned());
    }
    match resume {
        Some(path) => {
            list.push("--resume".to_owned());
            list.push(path.to_owned());
        },
        None => {},
    }
    proof {
        assert(texts(list@) =~= arguments_of(opt_str(resume), no_session));
    }
    list
}

/// The error of an agent that is not there.
pub fn not_installed() -> (error: HarnessError)
    ensures
        error@ == ErrorView::NotInstalled(
            "prime-agent (install Prime Agent or set PRIME_AGENT_EXECUTABLE)"@,
        ),
{
    HarnessError::NotInstalled(
        "prime-agent (install Prime Agent or set PRIME_AGENT_EXECUTABLE)".to_owned(),
    )
}

/// The error of an agent that could not be started: it is not there, which the
/// hint is on, or it is there and the system refused it.
pub fn start_error(missing: bool, hint: String, error: String) -> (result: HarnessError)
    ensures
        result@ == if missing {
            ErrorView::NotInstalled(hint@)
        } else {
            ErrorView::Io(error@)
        },
{
    if missing {
        HarnessError::NotInstalled(hint)
    } else {
        HarnessError::Io(error)
    }
}

/// The error of an agent that was started without one of its streams.
pub fn missing_stream(stream: &str) -> (error: HarnessError)
    ensures
        error@ == ErrorView::Protocol("Prime RPC has no "@ + stream@),
{
    HarnessError::Protocol("Prime RPC has no ".to_owned().concat(stream))
}

/// The error of an agent that did not answer in time, with the last lines that
/// it wrote.
pub fn probe_timeout(command: &str, lines: &str) -> (error: HarnessError)
    ensures
        error@ == ErrorView::Protocol("Prime RPC "@ + command@ + " timed out; "@ + lines@),
{
    HarnessError::Protocol(
        "Prime RPC ".to_owned().concat(command).concat(" timed out; ").concat(lines),
    )
}

} // verus!
