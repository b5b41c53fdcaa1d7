use std::path::{Path, PathBuf};

use zeron_harness::attachments::{extension_type, inline_image, path_type, MAX_IMAGE};
use zeron_harness::catalog::{
    all_models, command_names, fallback_models, knows_level, parse_commands, parse_models,
    parse_skills, reasoning_name, skill_name,
};
use zeron_harness::harness::{
    arguments, missing_stream, not_installed, probe_timeout, start_error, PrimeHarness,
};
use zeron_harness::invocation::{goal_may_start_turn, session_command_may_start_turn};
use zeron_harness::json::Json;
use zeron_harness::proto::{
    AgentEvent, DoneStatus, HarnessError, HarnessId, ReasoningLevel, SkillCommand, SteeringMode,
};
use zeron_harness::requests::Request;
use zeron_harness::setup::{
    begin_setup, goal_event, kills_failed_setup, plan_setup, selected_model, setup_failure,
    SetupStep,
};
use zeron_harness::wire;

fn json(text: &str) -> Json {
    wire::parse(text).unwrap()
}

fn protocol(text: &str) -> HarnessError {
    HarnessError::Protocol(text.into())
}

#[test]
fn models_are_listed_behind_the_default() {
    let data = json(r#"{"models":[
        {"provider":"local","id":"configured","name":"Configured","reasoning":true,"thinkingLevelMap":{"minimal":null,"max":null,"low":"x"}},
        {"provider":"other","id":"second"},
        {"id":"nameless"}
    ]}"#);
    let models = all_models(&data).unwrap();
    assert_eq!(models.len(), 3);
    assert_eq!(models[0].id, "default");
    assert!(models[0].reasoning_levels.is_empty());
    assert_eq!(models[1].id, "local/configured");
    assert_eq!(models[1].label, "Configured (local)");
    assert_eq!(
        models[1].reasoning_levels,
        vec![
            ReasoningLevel::Low,
            ReasoningLevel::Medium,
            ReasoningLevel::High,
            ReasoningLevel::XHigh
        ]
    );
    assert_eq!(models[2].id, "other/second");
    assert_eq!(models[2].label, "second (other)");
    assert!(models[2].reasoning_levels.is_empty());
    assert_eq!(parse_models(&data).unwrap().len(), 2);
    assert_eq!(parse_models(&json("{}")), Err(protocol("Prime RPC returned no model list")));
    assert_eq!(fallback_models()[0].label, "Prime default");
}

#[test]
fn built_in_commands_join_the_listed_ones() {
    let data = json(r#"{"commands":[{"name":"mine","description":"d"},{"name":"bad name"},{"name":"goal","description":"own"},{}]}"#);
    assert_eq!(command_names(&data), vec!["mine".to_owned(), "bad name".into(), "goal".into()]);
    let valid = vec!["mine".to_owned(), "goal".into()];
    let commands = parse_commands(&data, &valid).unwrap();
    let names: Vec<&str> = commands.iter().map(|command| command.name.as_str()).collect();
    assert_eq!(names, vec!["mine", "goal", "compact", "refine", "autonomous"]);
    assert_eq!(commands[1].description, "own");
    assert_eq!(commands[1].input_hint, None);
    assert_eq!(commands[2].input_hint, Some("optional instructions".into()));
    assert_eq!(
        parse_commands(&json("{}"), &valid),
        Err(protocol("Prime RPC returned no command list"))
    );
    assert!(command_names(&json("{}")).is_empty());
}

#[test]
fn skills_are_the_valid_skill_commands() {
    let data = json(r#"{"commands":[
        {"name":"skill:research","source":"skill","description":"find","sourceInfo":{"path":"/s/research"}},
        {"name":"skill:write","source":"skill","sourceInfo":{"path":""}},
        {"name":"skill:other","source":"extension"},
        {"name":"plain","source":"skill"},
        {"name":"skill:bad","source":"skill"}
    ]}"#);
    let commands = vec!["skill:research".to_owned(), "skill:write".into(), "skill:bad".into()];
    let names = vec!["research".to_owned(), "write".into()];
    let skills = parse_skills(&data, &commands, &names).unwrap();
    assert_eq!(skills.len(), 2);
    assert_eq!(skills[0].name, "research");
    assert_eq!(skills[0].path, "/s/research");
    assert_eq!(skills[0].description, "find");
    assert_eq!(
        skills[0].command,
        Some(SkillCommand { name: "skill:research".into(), harness: HarnessId::Prime })
    );
    assert_eq!(skills[1].path, "harness-skill:prime:write");
    assert_eq!(skill_name("skill:a"), Some("a"));
    assert_eq!(skill_name("a"), None);
    assert_eq!(
        parse_skills(&json("[]"), &commands, &names),
        Err(protocol("Prime RPC returned no command list"))
    );
}

#[test]
fn levels_have_names() {
    let names = [
        (ReasoningLevel::Minimal, "minimal"),
        (ReasoningLevel::Low, "low"),
        (ReasoningLevel::Medium, "medium"),
        (ReasoningLevel::High, "high"),
        (ReasoningLevel::XHigh, "xhigh"),
        (ReasoningLevel::Max, "max"),
        (ReasoningLevel::Other, "off"),
    ];
    for (level, name) in names {
        assert_eq!(reasoning_name(level), name);
        assert_eq!(knows_level(level), level != ReasoningLevel::Other);
    }
}

#[test]
fn a_selector_names_a_provider_and_a_model() {
    assert_eq!(selected_model("local/configured"), Ok(("local".into(), "configured".into())));
    assert_eq!(selected_model("a/b/c"), Ok(("a".into(), "b/c".into())));
    for bad in ["plain", "/b", "a/", ""] {
        assert_eq!(
            selected_model(bad),
            Err(protocol(&format!("Invalid Prime model selector: {bad}")))
        );
    }
}

#[test]
fn setup_asks_only_for_what_differs() {
    let state = json(r#"{"sessionFile":"/s.jsonl","model":{"provider":"local","id":"configured"},"thinkingLevel":"high","goal":{"text":"g"}}"#);
    let plan = plan_setup(&state, None, Some(ReasoningLevel::High)).unwrap();
    assert_eq!(plan.session_file, "/s.jsonl");
    assert_eq!(plan.model, "local/configured");
    assert!(plan.requests.is_empty());
    assert_eq!(plan_setup(&state, Some("local/configured"), None).unwrap().requests, vec![]);
    let plan = plan_setup(&state, Some("other/second"), Some(ReasoningLevel::Low)).unwrap();
    assert_eq!(plan.model, "other/second");
    assert_eq!(
        plan.requests,
        vec![
            Request {
                kind: "set_model".into(),
                fields: Json::object()
                    .set("provider", Json::text("other"))
                    .set("modelId", Json::text("second"))
            },
            Request {
                kind: "set_thinking_level".into(),
                fields: Json::object().set("level", Json::text("low"))
            }
        ]
    );
    assert!(plan_setup(&state, None, Some(ReasoningLevel::Other)).unwrap().requests.is_empty());
    assert_eq!(
        plan_setup(&state, Some("odd"), None),
        Err(protocol("Invalid Prime model selector: odd"))
    );
    assert_eq!(
        plan_setup(&json(r#"{"sessionFile":""}"#), None, None),
        Err(protocol("Prime RPC session has no persistent file"))
    );
    assert_eq!(plan_setup(&json(r#"{"sessionFile":"f"}"#), None, None).unwrap().model, "default");
    let AgentEvent::PrimeEvent { event } = goal_event(&state) else { panic!("no event") };
    assert_eq!(event.at("type"), &Json::text("goal_update"));
    assert_eq!(event.at("goal"), &json(r#"{"text":"g"}"#));
    assert_eq!(event.at("source"), &Json::text("get_state"));
    let AgentEvent::SessionStarted { session_id, model, cwd, assistant_message_id, .. } =
        plan.start_as("/w", "m-1".into())
    else {
        panic!("no start")
    };
    assert_eq!((session_id.as_str(), model.as_str(), cwd.as_str()), ("/s.jsonl", "other/second", "/w"));
    assert_eq!(assistant_message_id, "m-1");
}

type Answer = Result<Json, HarnessError>;

/// Runs a setup: what was asked, what was told, and how it ended.
fn set_up(model: Option<&str>, answers: Vec<Answer>) -> (Vec<String>, Vec<AgentEvent>, Result<String, HarnessError>) {
    let mut asked = Vec::new();
    let mut events = Vec::new();
    let mut answers = answers.into_iter();
    let valid = vec!["mine".to_owned()];
    let mut step = begin_setup(model.map(str::to_owned), Some(ReasoningLevel::Low), "/w".into());
    loop {
        match step {
            SetupStep::Ask { told, request, setup } => {
                events.extend(told);
                asked.push(request.kind);
                step = setup.answered(answers.next().unwrap(), &valid);
            }
            SetupStep::Finished { told, session_file } => {
                events.extend(told);
                return (asked, events, Ok(session_file));
            }
            SetupStep::Failed { error } => return (asked, events, Err(error)),
        }
    }
}

fn state() -> Answer {
    Ok(json(r#"{"sessionFile":"/s","model":{"provider":"p","id":"m"},"thinkingLevel":"high","goal":1}"#))
}

#[test]
fn a_setup_asks_in_order_and_tells_its_start_first() {
    let listed = || Ok(json(r#"{"commands":[{"name":"mine"},{"name":"not valid"}]}"#));
    let statistics = || Ok(json(r#"{"contextUsage":{"tokens":1,"contextWindow":2}}"#));
    let (asked, told, end) =
        set_up(Some("q/n"), vec![state(), Ok(Json::Null), Ok(Json::Null), listed(), statistics()]);
    assert_eq!(
        asked,
        vec!["get_state", "set_model", "set_thinking_level", "get_commands", "get_session_stats"]
    );
    assert_eq!(end, Ok("/s".to_owned()));
    assert_eq!(told.len(), 4);
    assert!(matches!(&told[0], AgentEvent::SessionStarted { model, assistant_message_id, .. }
        if model == "q/n" && assistant_message_id.len() == 36));
    assert_eq!(told[1], AgentEvent::ContextUsageSnapshot { tokens: Some(1), window: Some(2) });
    assert!(matches!(&told[2], AgentEvent::PrimeEvent { event } if event.at("source").is_text("get_state")));
    assert!(matches!(&told[3], AgentEvent::AvailableCommands { commands }
        if commands.len() == 5 && commands[0].name == "mine"));

    let (asked, told, end) =
        set_up(None, vec![state(), Ok(Json::Null), Ok(Json::Null), Err(protocol("no"))]);
    assert_eq!(asked, vec!["get_state", "set_thinking_level", "get_commands", "get_session_stats"]);
    assert_eq!(end, Ok("/s".to_owned()));
    assert_eq!(told.len(), 2);
    assert!(matches!(&told[0], AgentEvent::SessionStarted { .. }));
    assert!(matches!(&told[1], AgentEvent::PrimeEvent { .. }));
}

#[test]
fn a_failed_request_ends_the_setup_untold() {
    let refused = || -> Answer { Err(protocol("no")) };
    for answers in [
        vec![refused()],
        vec![state(), refused()],
        vec![state(), Ok(Json::Null), refused()],
        vec![state(), Ok(Json::Null), Ok(Json::Null), refused()],
    ] {
        let count = answers.len();
        let (asked, told, end) = set_up(Some("q/n"), answers);
        assert_eq!(asked.len(), count);
        assert!(told.is_empty());
        assert_eq!(end, Err(protocol("no")));
    }
    let (asked, told, end) = set_up(Some("odd"), vec![state()]);
    assert_eq!(asked, vec!["get_state"]);
    assert!(told.is_empty());
    assert_eq!(end, Err(protocol("Invalid Prime model selector: odd")));
    let (_, told, end) = set_up(None, vec![Ok(json("{}"))]);
    assert!(told.is_empty());
    assert_eq!(end, Err(protocol("Prime RPC session has no persistent file")));
}

#[test]
fn a_run_prefers_the_daemon_unless_an_executable_is_named() {
    let named = PathBuf::from("/env/prime-agent");
    assert!(PrimeHarness::new().prefers_daemon(None));
    assert!(!PrimeHarness::new().prefers_daemon(Some(&named)));
    assert!(!PrimeHarness::new().with_executable("/given").prefers_daemon(None));
}

#[test]
fn a_failed_setup_is_told_and_cleaned_up() {
    assert_eq!(
        setup_failure("no".into()),
        AgentEvent::Done {
            status: DoneStatus::Errored,
            result: None,
            error: Some("no".into()),
            session_id: None
        }
    );
    assert!(kills_failed_setup(false, false, true));
    assert!(!kills_failed_setup(false, true, true));
    assert!(!kills_failed_setup(true, false, true));
    assert!(!kills_failed_setup(false, false, false));
}

#[test]
fn session_commands_are_told_from_prompts() {
    assert_eq!(session_command_may_start_turn("/compact", Some(("compact", ""))), Some(false));
    assert_eq!(session_command_may_start_turn("/refine x", Some(("refine", "x"))), Some(false));
    assert_eq!(session_command_may_start_turn("/autonomous", Some(("autonomous", ""))), Some(false));
    assert_eq!(session_command_may_start_turn("/goal ship", Some(("goal", "ship"))), Some(true));
    assert_eq!(session_command_may_start_turn("/goal  pause ", Some(("goal", "  pause "))), Some(false));
    assert_eq!(session_command_may_start_turn("/goal x", Some(("goal", "\u{3000}stop\u{a0}\t"))), Some(false));
    assert_eq!(session_command_may_start_turn("/goal x", Some(("goal", "st op"))), Some(true));
    assert_eq!(session_command_may_start_turn("/other", Some(("other", ""))), None);
    assert_eq!(session_command_may_start_turn("hello", None), None);
    for text in ["/goal a\nb", "/goal a\rb", "/goal a\u{2028}b", "/goal a\u{2029}b"] {
        assert_eq!(session_command_may_start_turn(text, Some(("goal", "a"))), None);
    }
    for args in ["", "status", "pause", "clear", "stop"] {
        assert!(!goal_may_start_turn(args));
    }
    assert!(goal_may_start_turn("resume"));
}

#[test]
fn the_driver_describes_itself() {
    let harness = PrimeHarness::new();
    assert_eq!(harness.id(), HarnessId::Prime);
    assert_eq!(harness.display_name(), "Prime Agent");
    assert!(harness.supports_steering());
    assert_eq!(harness.steering_mode(), SteeringMode::StepBoundary);
    assert!(harness.authoritative_prompt_end());
    assert_eq!(harness.reasoning_levels().len(), 6);
    assert_eq!(harness.fallback_models().len(), 1);
    assert_eq!(harness.fallback_models()[0].id, "default");
}

#[test]
fn a_given_executable_comes_before_the_environment() {
    let named = PathBuf::from("/env/prime-agent");
    let harness = PrimeHarness::default();
    assert_eq!(harness.named_executable(None), None);
    assert_eq!(harness.named_executable(Some(&named)), Some(&named));
    let harness = harness.with_executable("/given/prime-agent");
    assert_eq!(harness.executable.as_deref(), Some(Path::new("/given/prime-agent")));
    assert_eq!(harness.named_executable(Some(&named)), Some(&PathBuf::from("/given/prime-agent")));
}

#[test]
fn the_agent_is_started_with_its_session() {
    assert_eq!(arguments(None, false), vec!["--mode".to_owned(), "rpc".into()]);
    assert_eq!(arguments(None, true).last().unwrap(), "--no-session");
    assert_eq!(
        arguments(Some("/s.jsonl"), false),
        vec!["--mode".to_owned(), "rpc".into(), "--resume".into(), "/s.jsonl".into()]
    );
    assert_eq!(
        not_installed(),
        HarnessError::NotInstalled(
            "prime-agent (install Prime Agent or set PRIME_AGENT_EXECUTABLE)".into()
        )
    );
    assert_eq!(start_error(true, "hint".into(), "e".into()), HarnessError::NotInstalled("hint".into()));
    assert_eq!(start_error(false, "hint".into(), "e".into()), HarnessError::Io("e".into()));
    assert_eq!(missing_stream("stdin"), protocol("Prime RPC has no stdin"));
    assert_eq!(probe_timeout("get_commands", "tail"), protocol("Prime RPC get_commands timed out; tail"));
}

#[test]
fn pictures_go_along_in_base64() {
    assert_eq!(path_type("/a/shot.PNG"), Some("image/png"));
    assert_eq!(path_type("shot.jpg"), Some("image/jpeg"));
    assert_eq!(path_type("shot.svg"), None);
    assert_eq!(path_type("png"), None);
    assert_eq!(path_type("dir.x/y.gif"), Some("image/gif"));
    assert_eq!(path_type("two.dots.webp"), Some("image/webp"));
    assert_eq!(path_type("..png"), Some("image/png"));
    assert_eq!(path_type(".png"), None);
    assert_eq!(path_type("dir.png/file"), None);
    assert_eq!(extension_type("JpEg"), Some("image/jpeg"));
    assert_eq!(extension_type("gif"), Some("image/gif"));
    assert_eq!(extension_type("webp"), Some("image/webp"));
    assert_eq!(extension_type("bmp"), None);
    let data = |bytes: &[u8]| {
        let image = inline_image("image/png", &bytes.to_vec()).unwrap();
        assert_eq!(image.at("type"), &Json::text("image"));
        assert_eq!(image.at("mimeType"), &Json::text("image/png"));
        image.at("data").as_text().unwrap().to_owned()
    };
    assert_eq!(data(b""), "");
    assert_eq!(data(b"h"), "aA==");
    assert_eq!(data(b"he"), "aGU=");
    assert_eq!(data(b"hello"), "aGVsbG8=");
    assert_eq!(data(&[0xfb, 0xff, 0xbe]), "+/++");
    assert!(inline_image("image/png", &vec![0; MAX_IMAGE]).is_some());
    assert!(inline_image("image/png", &vec![0; MAX_IMAGE + 1]).is_none());
}
