use zeron_harness::actions::{Action, CommandKind};
use zeron_harness::daemon::{read_hello, Arrival, DaemonClient};
use zeron_harness::json::Json;
use zeron_harness::proto::{AgentEvent, DoneStatus, SteerMessage};
use zeron_harness::requests::closing_message;
use zeron_harness::session::{Flow, Session, Step};
use zeron_harness::setup::plan_setup;
use zeron_harness::turn::{context_usage, tell_end, terminal_result, usage_event};
use zeron_harness::wire;

fn json(text: &str) -> Json {
    wire::parse(text).unwrap()
}

fn is_done(action: &Action) -> bool {
    matches!(action, Action::Emit(AgentEvent::Done { .. }))
}

fn native(step: &Step, kind: &str) -> bool {
    step.actions.iter().any(|action| {
        matches!(action, Action::Emit(AgentEvent::PrimeEvent { event }) if event.at("type").is_text(kind))
    })
}

fn done(status: DoneStatus, error: Option<&str>, file: &str) -> Action {
    Action::Emit(AgentEvent::Done {
        status,
        result: None,
        error: error.map(str::to_owned),
        session_id: Some(file.to_owned()),
    })
}

fn steered() -> Action {
    Action::Emit(AgentEvent::Steered {
        assistant_message_id: None,
        next_assistant_message_id: None,
    })
}

fn lifecycle(phase: &str) -> Action {
    Action::Emit(AgentEvent::PrimeEvent {
        event: Json::object()
            .set("type", Json::text("lifecycle_update"))
            .set("phase", Json::text(phase)),
    })
}

fn copy(text: &str) -> Action {
    Action::Emit(AgentEvent::PrimeEvent { event: json(text) })
}

fn steer(prompt: &str) -> SteerMessage {
    SteerMessage { prompt: prompt.into(), message_id: Some("m".into()) }
}

#[test]
fn retrying_agent_end_cannot_finish_the_prime_response() {
    let version = read_hello("{\"type\":\"daemon_hello\",\"protocol\":{\"name\":\"prime-agent.daemon\",\"version\":7},\"serverCapabilities\":[\"rlm_quiescence_barrier\"]}").unwrap();
    let mut client = DaemonClient::new(version);
    client.created(&json(r#"{"activeSessionId":"root"}"#)).unwrap();
    let state = json(r#"{"sessionFile":"/tmp/jj-prime-test.jsonl","model":{"provider":"test","id":"model"},"thinkingLevel":"high","goal":null}"#);
    let plan = plan_setup(&state, Some("default"), None).unwrap();
    assert_eq!(plan.model, "test/model");
    assert!(plan.requests.is_empty());
    assert_eq!(
        usage_event(Some(&json(r#"{"contextUsage":{"tokens":100,"contextWindow":200000}}"#)), false),
        Some(AgentEvent::ContextUsageSnapshot { tokens: Some(100), window: Some(200000) })
    );

    let mut session = Session::open(&plan.session_file, true, "run", None);
    let mut ends = 0;
    let mut starts = 0;
    let mut feed = |client: &mut DaemonClient, session: &mut Session, event: &str| {
        let frame =
            format!("{{\"type\":\"session_event\",\"activeSessionId\":\"root\",\"event\":{event}}}");
        let Arrival::Messages(messages) = client.take_line(&frame) else {
            panic!("no message");
        };
        let mut actions = Vec::new();
        for message in messages {
            let step = session.on_message(&message);
            if native(&step, "agent_end") {
                ends += 1;
            }
            if native(&step, "agent_start") {
                starts += 1;
            }
            actions.extend(step.actions);
        }
        assert!(!actions.iter().any(is_done));
        actions
    };

    for event in [
        r#"{"type":"agent_start"}"#,
        r#"{"type":"message_end","message":{"role":"assistant","stopReason":"error","errorMessage":"transient provider error"}}"#,
        r#"{"type":"agent_end"}"#,
        r#"{"type":"auto_retry_start","attempt":1,"maxAttempts":3}"#,
    ] {
        feed(&mut client, &mut session, event);
    }
    let step = session.on_success(CommandKind::Initial);
    assert_eq!(step.actions, vec![Action::AwaitCompletion { generation: 1 }]);
    let mut told = step.actions;
    for event in [
        r#"{"type":"agent_start"}"#,
        r#"{"type":"message_end","message":{"role":"assistant","stopReason":"stop","content":[{"type":"text","text":"recovered"}]}}"#,
        r#"{"type":"auto_retry_end","attempt":1,"success":true}"#,
        r#"{"type":"agent_end"}"#,
    ] {
        told.extend(feed(&mut client, &mut session, event));
    }
    let messages = json(r#"{"messages":[{"role":"assistant","stopReason":"stop","content":[{"type":"text","text":"recovered"}]}]}"#);
    let active = json(r#"{"isSessionActive":true,"hasRunningRlmChildren":true,"unfinishedActionCount":0}"#);
    let step = session.on_success(CommandKind::Completion(1));
    assert_eq!(step.actions, vec![Action::CollectEnd { generation: 1 }]);
    let (status, error) = terminal_result(&messages).unwrap();
    let step = session.on_end(1, status, error, Some(&active));
    assert_eq!(step.actions[0], done(DoneStatus::Completed, None, "/tmp/jj-prime-test.jsonl"));
    assert!(native(&step, "lifecycle_update"));
    assert_eq!(step.actions.last(), Some(&Action::AwaitQuiescence { generation: 1 }));
    assert_eq!(step.flow, Flow::Release);
    told.extend(step.actions);

    let actions = feed(&mut client, &mut session, r#"{"type":"agent_start"}"#);
    assert_eq!(actions.last(), Some(&Action::AwaitCompletion { generation: 2 }));
    let resumed = told.iter().any(is_done) && actions.contains(&copy(r#"{"type":"agent_start"}"#));
    told.extend(actions);
    feed(&mut client, &mut session, r#"{"type":"message_end","message":{"role":"assistant","stopReason":"stop","content":[{"type":"text","text":"child received"}]}}"#);
    feed(&mut client, &mut session, r#"{"type":"agent_end"}"#);
    let step = session.on_success(CommandKind::Completion(2));
    assert_eq!(step.actions, vec![Action::CollectEnd { generation: 2 }]);
    let resting = json(r#"{"isSessionActive":false,"hasRunningRlmChildren":false,"unfinishedActionCount":0}"#);
    let (status, error) = terminal_result(&messages).unwrap();
    let step = session.on_end(2, status, error, Some(&resting));
    assert_eq!(
        step.actions,
        vec![
            done(DoneStatus::Completed, None, "/tmp/jj-prime-test.jsonl"),
            Action::AwaitQuiescence { generation: 2 }
        ]
    );
    told.extend(step.actions);
    let stale = session.on_success(CommandKind::Quiescence(1));
    assert!(stale.actions.is_empty());
    let step = session.on_success(CommandKind::Quiescence(2));
    assert_eq!(step.actions, vec![lifecycle("quiescent")]);
    told.extend(step.actions);
    assert_eq!(ends, 3);
    assert_eq!(told.iter().filter(|action| is_done(action)).count(), 2);
    assert_eq!(starts, 3);
    assert!(resumed);
    assert!(told.contains(&lifecycle("quiescent")));
}

#[test]
fn session_command_finishes_without_an_agent_turn() {
    let mut session = Session::open("s.jsonl", false, "/goal status", Some(("goal", "status")));
    assert_eq!(session.pending_controls.len(), 1);
    let step = session.on_steering_closed();
    assert!(step.actions.is_empty());
    assert_eq!(step.flow, Flow::Release);
    assert!(session.on_success(CommandKind::Initial).actions.is_empty());
    session.on_message(&json(r#"{"type":"session_action_update","actions":{"active":{"label":"/goal status","kind":"command"}}}"#));
    let step = session.on_message(&json(r#"{"type":"message_end","message":{"role":"custom","customType":"session_slash_command_result","display":true,"content":"Goal active: Finish work","details":{"success":true,"command":{"text":"/goal status"}}}}"#));
    assert_eq!(
        step.actions.last(),
        Some(&Action::Emit(AgentEvent::TextDelta { text: "Goal active: Finish work".into() }))
    );
    let step = session.on_message(&json(r#"{"type":"session_action_update","actions":{"active":null,"queuedCount":0}}"#));
    assert_eq!(step.actions.last(), Some(&done(DoneStatus::Completed, None, "s.jsonl")));
    assert_eq!(step.flow, Flow::End);
    assert!(session.close(None).is_empty());
}

#[test]
fn a_failed_command_ends_the_turn_with_its_error() {
    let mut session = Session::open("s", false, "/refine", Some(("refine", "")));
    session.on_message(&json(r#"{"type":"session_action_update","actions":{"active":{"label":"/refine"}}}"#));
    let step = session.on_message(&json(r#"{"type":"message_end","message":{"customType":"session_slash_command_result","details":{"success":false,"command":{"text":"/refine"}}}}"#));
    assert_eq!(step.actions.len(), 1);
    let step = session.on_message(&json(r#"{"type":"session_action_update","actions":{"active":{"label":"other"}}}"#));
    assert_eq!(
        step.actions.last(),
        Some(&done(DoneStatus::Errored, Some("Prime command failed"), "s"))
    );
    assert_eq!(step.flow, Flow::Release);
}

#[test]
fn a_goal_that_leads_to_a_turn_is_not_over() {
    let mut session = Session::open("s", false, "/goal ship it", Some(("goal", "ship it")));
    session.on_message(&json(r#"{"type":"session_action_update","actions":{"active":{"label":"/goal ship it"}}}"#));
    let step = session.on_message(&json(r#"{"type":"session_action_update","actions":{"active":{"kind":"turn","label":"x"}}}"#));
    assert!(!step.actions.iter().any(is_done));
    assert!(session.pending_controls.is_empty());

    let mut session = Session::open("s", false, "/goal ship it", Some(("goal", "ship it")));
    session.on_message(&json(r#"{"type":"session_action_update","actions":{"active":{"label":"/goal ship it"}}}"#));
    let step = session.on_message(&json(r#"{"type":"session_action_update","actions":{"queuedCount":1}}"#));
    assert!(!step.actions.iter().any(is_done));
}

#[test]
fn the_end_of_the_agent_ends_a_turn_of_a_process() {
    let mut session = Session::open("s", false, "hi", None);
    session.on_message(&json(r#"{"type":"agent_start"}"#));
    session.on_message(&json(r#"{"type":"message_end","message":{"role":"assistant","stopReason":"error","errorMessage":"down"}}"#));
    let step = session.on_message(&json(r#"{"type":"agent_end"}"#));
    assert_eq!(
        step.actions,
        vec![copy(r#"{"type":"agent_end"}"#), done(DoneStatus::Errored, Some("down"), "s")]
    );
    assert_eq!(step.flow, Flow::Release);
    assert!(!session.active);
    let step = session.on_message(&json(r#"{"type":"agent_end"}"#));
    assert_eq!(step.actions.last(), Some(&done(DoneStatus::Completed, None, "s")));
    assert_eq!(session.on_steering_closed().flow, Flow::End);
}

#[test]
fn native_steer_keeps_a_running_prime_child_alive() {
    let mut session = Session::open("s", false, "parent steer scenario", None);
    let child = json(r#"{"id":"c","status":"running","label":"child task","activeSessionId":"k"}"#);
    let step = session.on_message(&Json::object().set("type", Json::text("rlm_child_update")).set("child", child.clone()));
    assert_eq!(step.actions.last(), Some(&Action::UpdateChild { child: child.clone() }));
    let begun = session.children.begin_update(&child, "/tmp");
    assert_eq!(begun.observe, Some("k".into()));
    session.children.finish_update(&child, Some(&json("{}")), 0);
    let live = session.on_message(&json(r#"{"type":"observed_session_event","activeSessionId":"k","event":{"type":"message_update","assistantMessageEvent":{"type":"text_delta","delta":"child live"}}}"#));
    assert!(matches!(live.actions.last(), Some(Action::Emit(AgentEvent::Subagent { event, .. }))
        if **event == AgentEvent::TextDelta { text: "child live".into() }));

    assert!(session.hears_user());
    let step = session.on_steer(steer("Redirect while child runs"), None);
    assert_eq!(
        step.actions,
        vec![Action::Prompt { text: "Redirect while child runs".into(), kind: CommandKind::Steer }]
    );
    assert!(!session.hears_user());
    assert_eq!(session.on_success(CommandKind::Steer).actions, vec![steered()]);
    assert!(session.hears_user());
    assert_eq!(session.children.by_id.len(), 1);
    assert!(!session.children.by_id[0].1.settled);
    let live = session.on_message(&json(r#"{"type":"observed_session_event","activeSessionId":"k","event":{"type":"message_update","assistantMessageEvent":{"type":"text_delta","delta":" and finished"}}}"#));
    assert!(matches!(live.actions.last(), Some(Action::Emit(AgentEvent::Subagent { event, .. }))
        if **event == AgentEvent::TextDelta { text: " and finished".into() }));
    let closed = session.on_message(&json(r#"{"type":"observed_session_closed","activeSessionId":"k"}"#));
    assert!(matches!(closed.actions.last(), Some(Action::Emit(AgentEvent::Subagent { event, .. }))
        if matches!(**event, AgentEvent::Done { status: DoneStatus::Completed, .. })));
    assert_eq!(session.children.finished_observations(), vec!["k".to_owned()]);
    assert!(session.children.finished_observations().is_empty());
    let step = session.on_message(&json(r#"{"type":"agent_end"}"#));
    assert_eq!(step.actions.last(), Some(&done(DoneStatus::Completed, None, "s")));
}

#[test]
fn every_notification_is_forwarded_first() {
    let mut session = Session::open("s", false, "x", None);
    for text in [
        r#"{"type":"future_prime_event","extra":{"value":42}}"#,
        r#"{"type":"turn_start"}"#,
        r#"{"type":"rlm_child_update","child":{}}"#,
        r#"{"type":"extension_ui_request"}"#,
        r#"{"untyped":true}"#,
    ] {
        let step = session.on_message(&json(text));
        assert_eq!(step.actions[0], copy(text));
    }
    let step = session.on_message(&closing_message("gone"));
    assert_eq!(step.actions, vec![lifecycle("disconnected")]);
    assert_eq!(step.flow, Flow::End);
}

#[test]
fn compaction_and_messages_refresh_the_context_usage() {
    let mut session = Session::open("s", false, "x", None);
    let step = session.on_message(&json(r#"{"type":"compaction_end","result":{}}"#));
    assert_eq!(step.actions[1], Action::RefreshUsage { or_clear: true });
    let step = session.on_message(&json(r#"{"type":"compaction_end","result":null}"#));
    assert_eq!(step.actions.len(), 1);
    let step = session.on_message(&json(r#"{"type":"message_end","message":{"role":"assistant"}}"#));
    assert_eq!(step.actions[1], Action::RefreshUsage { or_clear: false });
    let step = session.on_message(&json(r#"{"type":"message_end","message":{"role":"user"}}"#));
    assert_eq!(step.actions.len(), 1);
}

#[test]
fn context_usage_is_read_from_the_statistics() {
    let usage = |text: &str| context_usage(&json(text));
    assert_eq!(usage(r#"{"contextUsage":null}"#), Some((None, None)));
    assert_eq!(usage("{}"), Some((None, None)));
    assert_eq!(usage(r#"{"contextUsage":{"tokens":null,"contextWindow":200000}}"#), Some((None, Some(200_000))));
    assert_eq!(usage(r#"{"contextUsage":{"tokens":42000,"contextWindow":200000}}"#), Some((Some(42_000), Some(200_000))));
    assert_eq!(usage(r#"{"contextUsage":{"tokens":-1,"contextWindow":200000}}"#), None);
    assert_eq!(usage(r#"{"contextUsage":{"tokens":1,"contextWindow":0}}"#), None);
    assert_eq!(usage(r#"{"contextUsage":{"tokens":1}}"#), None);
    assert_eq!(usage("[]"), None);
    assert_eq!(usage_event(None, false), None);
    assert_eq!(
        usage_event(None, true),
        Some(AgentEvent::ContextUsageSnapshot { tokens: None, window: None })
    );
    assert_eq!(usage_event(Some(&json("[]")), false), None);
}

#[test]
fn the_last_verdict_of_a_transcript_decides() {
    let end = |text: &str| terminal_result(&json(text));
    assert_eq!(end(r#"{"messages":[]}"#), Ok((DoneStatus::Completed, None)));
    assert_eq!(
        end(r#"{"messages":[{"role":"assistant","stopReason":"error","errorMessage":"bad"},{"role":"user"}]}"#),
        Ok((DoneStatus::Errored, Some("bad".into())))
    );
    assert_eq!(
        end(r#"{"messages":[{"role":"assistant","stopReason":"error"}]}"#),
        Ok((DoneStatus::Errored, Some("Prime model request failed".into())))
    );
    assert_eq!(
        end(r#"{"messages":[{"role":"assistant","stopReason":"error"},{"role":"assistant","stopReason":"aborted"}]}"#),
        Ok((DoneStatus::Interrupted, None))
    );
    assert_eq!(
        end(r#"{"messages":[{"customType":"session_slash_command_result","details":{"success":false}}]}"#),
        Ok((DoneStatus::Errored, Some("Prime command failed".into())))
    );
    assert_eq!(
        end(r#"{"messages":[{"customType":"session_slash_command_result","details":{"success":true}}]}"#),
        Ok((DoneStatus::Completed, None))
    );
    let error = end("{}").unwrap_err();
    assert_eq!(
        error,
        zeron_harness::proto::HarnessError::Protocol(
            "Prime daemon returned no terminal transcript".into()
        )
    );
}

#[test]
fn a_refused_first_prompt_ends_the_session() {
    let mut session = Session::open("s", true, "x", None);
    let step = session.on_failure(CommandKind::Initial, "x", None, "no".into());
    assert_eq!(step.actions, vec![done(DoneStatus::Errored, Some("no"), "s")]);
    assert_eq!(step.flow, Flow::End);
    assert!(session.close(None).is_empty());
}

#[test]
fn a_refused_message_of_the_user_ends_the_session_unless_it_is_a_command() {
    let mut session = Session::open("s", true, "x", None);
    session.on_steer(steer("more"), None);
    let step = session.on_failure(CommandKind::Steer, "more", None, "no".into());
    assert_eq!(step.actions, vec![done(DoneStatus::Errored, Some("no"), "s")]);
    assert_eq!(step.flow, Flow::End);

    let mut session = Session::open("s", true, "x", None);
    session.on_steer(steer("/compact"), Some(("compact", "")));
    assert_eq!(session.pending_controls.len(), 1);
    let step = session.on_failure(CommandKind::Steer, "/compact", Some(("compact", "")), "no".into());
    assert_eq!(step.actions, vec![steered(), done(DoneStatus::Errored, Some("no"), "s")]);
    assert_eq!(step.flow, Flow::Release);
    assert!(session.pending_controls.is_empty());
}

#[test]
fn a_goal_command_is_not_a_message_of_the_user() {
    let mut session = Session::open("s", true, "x", None);
    let goal = SteerMessage { prompt: "/goal pause".into(), message_id: None };
    let step = session.on_steer(goal, Some(("goal", "pause")));
    assert_eq!(
        step.actions,
        vec![Action::Prompt { text: "/goal pause".into(), kind: CommandKind::Goal }]
    );
    assert!(session.hears_user());
    assert!(session.pending_controls.is_empty());
    let step = session.on_failure(CommandKind::Goal, "/goal pause", None, "no".into());
    assert_eq!(step.actions, vec![Action::Emit(AgentEvent::Error { message: "no".into() })]);
    let step = session.on_success(CommandKind::Goal);
    assert_eq!(step.actions, vec![Action::AwaitCompletion { generation: 1 }]);
}

#[test]
fn a_failed_wait_ends_the_turn_only_if_it_is_current() {
    let mut session = Session::open("s", true, "x", None);
    session.on_success(CommandKind::Initial);
    session.on_success(CommandKind::Steer);
    let step = session.on_failure(CommandKind::Completion(1), "", None, "late".into());
    assert!(step.actions.is_empty());
    assert!(session.active);
    let step = session.on_failure(CommandKind::Quiescence(2), "", None, "odd".into());
    assert_eq!(step.actions, vec![Action::Emit(AgentEvent::Error { message: "odd".into() })]);
    let step = session.on_failure(CommandKind::Completion(2), "", None, "down".into());
    assert_eq!(step.actions, vec![done(DoneStatus::Errored, Some("down"), "s")]);
    assert_eq!(step.flow, Flow::Release);
    assert!(!session.active);
}

#[test]
fn an_interrupt_aborts_and_ends() {
    let mut session = Session::open("s", true, "x", None);
    let step = session.on_interrupt();
    assert_eq!(step.actions, vec![Action::Abort, done(DoneStatus::Interrupted, None, "s")]);
    assert_eq!(step.flow, Flow::End);
    assert!(!session.breaks_off());
    assert!(session.close(None).is_empty());
}

#[test]
fn a_broken_off_turn_ends_with_its_reason() {
    let last = |event: &Vec<AgentEvent>| match event.last() {
        Some(AgentEvent::Done { status: DoneStatus::Errored, error, .. }) => error.clone(),
        _ => None,
    };
    let mut session = Session::open("s", true, "x", None);
    assert!(session.breaks_off());
    assert_eq!(
        last(&session.close(None)),
        Some("Prime daemon session ended before completion".into())
    );
    session.on_message(&closing_message("Prime daemon connection closed"));
    assert_eq!(last(&session.close(None)), Some("Prime daemon connection closed".into()));
    assert_eq!(last(&session.close(Some("crashed".into()))), Some("crashed".into()));
}

#[test]
fn autonomous_status_is_shown_where_it_was_asked_for() {
    let status = r#"{"type":"message_end","message":{"customType":"autonomous_status","content":"on"}}"#;
    let mut session = Session::open("s", true, "/autonomous on", Some(("autonomous", "on")));
    let step = session.on_message(&json(status));
    assert_eq!(
        step.actions.last(),
        Some(&Action::Emit(AgentEvent::TextDelta { text: "on".into() }))
    );
    let mut session = Session::open("s", true, "go", None);
    assert_eq!(session.on_message(&json(status)).actions.len(), 1);
}

#[test]
fn snapshots_bring_up_the_children_at_work() {
    let mut session = Session::open("s", true, "x", None);
    let step = session.on_message(&json(r#"{"type":"session_attached","snapshot":{"children":[{"id":"a","status":"running"},{"id":"b","status":"done"},{"id":"c","status":"queued"}]}}"#));
    assert_eq!(
        step.actions[1..],
        [
            Action::UpdateChild { child: json(r#"{"id":"a","status":"running"}"#) },
            Action::UpdateChild { child: json(r#"{"id":"c","status":"queued"}"#) }
        ]
    );
}

#[test]
fn the_users_own_messages_are_not_sent_back() {
    let text = r#"{"type":"message_start","message":{"role":"user","content":"hi"}}"#;
    let mut session = Session::open("s", true, "hi", None);
    assert_eq!(session.on_message(&json(text)).actions, vec![copy(text)]);
    let text = r#"{"type":"message_end","message":{"role":"user","content":"hi"}}"#;
    assert_eq!(session.on_message(&json(text)).actions, vec![copy(text)]);
}

#[test]
fn time_settles_the_children_that_are_due() {
    let mut session = Session::open("s", true, "x", None);
    let child = json(r#"{"id":"c","status":"done"}"#);
    session.children.begin_update(&child, "/");
    session.children.finish_update(&child, Some(&json("{}")), 100);
    assert!(session.on_tick(599).actions.is_empty());
    let step = session.on_tick(600);
    assert_eq!(step.actions.len(), 1);
    assert!(matches!(&step.actions[0], Action::Emit(AgentEvent::Subagent { parent_tool_use_id, .. })
        if parent_tool_use_id == "prime-child:c"));
    assert_eq!(step.flow, Flow::Release);
    assert!(session.on_tick(9_000).actions.is_empty());
}

#[test]
fn a_new_wait_replaces_the_one_before() {
    let mut session = Session::open("s", true, "x", None);
    assert_eq!(
        session.on_success(CommandKind::Initial).actions,
        vec![Action::AwaitCompletion { generation: 1 }]
    );
    session.on_steer(steer("more"), None);
    assert_eq!(
        session.on_success(CommandKind::Steer).actions,
        vec![steered(), Action::AwaitCompletion { generation: 2 }]
    );
    assert!(session.on_success(CommandKind::Completion(1)).actions.is_empty());
    assert_eq!(
        session.on_success(CommandKind::Completion(2)).actions,
        vec![Action::CollectEnd { generation: 2 }]
    );
}

#[test]
fn a_session_without_a_user_ends_with_its_turn() {
    let mut session = Session::open("s", true, "x", None);
    assert_eq!(session.on_steering_closed().flow, Flow::Release);
    session.on_success(CommandKind::Initial);
    session.on_success(CommandKind::Completion(1));
    let step = session.on_end(1, DoneStatus::Completed, None, None);
    assert_eq!(step.actions, vec![done(DoneStatus::Completed, None, "s")]);
    assert_eq!(step.flow, Flow::End);
}

#[test]
fn an_unreadable_end_of_a_turn_is_told_as_an_error() {
    assert_eq!(tell_end(Ok((DoneStatus::Interrupted, None))), (DoneStatus::Interrupted, None));
    assert_eq!(tell_end(Err("gone".into())), (DoneStatus::Errored, Some("gone".into())));
}

#[test]
fn an_undisturbed_process_tells_one_end_for_each_end_of_the_agent() {
    let mut session = Session::open("f", false, "hi", None);
    let mut told = session.on_success(CommandKind::Initial).actions;
    let failed = r#"{"type":"message_end","message":{"role":"assistant","stopReason":"error","errorMessage":""}}"#;
    let fine = r#"{"type":"message_end","message":{"role":"assistant","stopReason":"stop"}}"#;
    for text in [
        r#"{"type":"agent_start"}"#,
        failed,
        fine,
        r#"{"type":"agent_end"}"#,
        failed,
        r#"{"type":"session_action_update","actions":{"active":{"label":"x"}}}"#,
        r#"{"type":"agent_end"}"#,
        r#"{"type":"agent_end"}"#,
    ] {
        told.extend(session.on_message(&json(text)).actions);
        told.extend(session.on_tick(1).actions);
    }
    let ends: Vec<Action> = told.into_iter().filter(is_done).collect();
    assert_eq!(
        ends,
        vec![
            done(DoneStatus::Completed, None, "f"),
            done(DoneStatus::Errored, Some("Prime model request failed"), "f"),
            done(DoneStatus::Completed, None, "f"),
        ]
    );
}

#[test]
fn only_the_newest_wait_ends_a_turn() {
    let mut session = Session::open("f", true, "hi", None);
    let wait = |generation| Action::AwaitCompletion { generation };
    assert_eq!(session.on_success(CommandKind::Initial).actions, vec![wait(1)]);
    session.on_steer(steer("more"), None);
    assert_eq!(session.on_success(CommandKind::Steer).actions.last(), Some(&wait(2)));
    assert_eq!(session.on_success(CommandKind::Goal).actions, vec![wait(3)]);
    let started = json(r#"{"type":"agent_start"}"#);
    assert_eq!(session.on_message(&started).actions.len(), 1);
    for stale in [1, 2] {
        assert!(session.on_success(CommandKind::Completion(stale)).actions.is_empty());
        assert!(session.on_success(CommandKind::Quiescence(stale)).actions.is_empty());
    }
    let step = session.on_success(CommandKind::Completion(3));
    assert_eq!(step.actions, vec![Action::CollectEnd { generation: 3 }]);
    let step = session.on_end(3, DoneStatus::Completed, None, None);
    assert_eq!(
        step.actions,
        vec![
            done(DoneStatus::Completed, None, "f"),
            Action::AwaitQuiescence { generation: 3 }
        ]
    );
    assert_eq!(
        session.on_success(CommandKind::Quiescence(3)).actions,
        vec![lifecycle("quiescent")]
    );
    assert_eq!(session.on_message(&started).actions.last(), Some(&wait(4)));
    assert_eq!(session.on_message(&started).actions.len(), 1);
    assert!(session.on_success(CommandKind::Quiescence(3)).actions.is_empty());
    let step = session.on_success(CommandKind::Completion(4));
    assert_eq!(step.actions, vec![Action::CollectEnd { generation: 4 }]);
}
