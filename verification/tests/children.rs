use zeron_harness::children::{child_tool_id, Children, SETTLE_AFTER};
use zeron_harness::json::Json;
use zeron_harness::proto::{AgentEvent, DoneStatus, HarnessId, ToolCall};
use zeron_harness::wire;

fn json(text: &str) -> Json {
    wire::parse(text).unwrap()
}

fn end(id: &str, status: DoneStatus, error: Option<&str>) -> AgentEvent {
    AgentEvent::Subagent {
        parent_tool_use_id: child_tool_id(id),
        event: Box::new(AgentEvent::Done {
            status,
            result: None,
            error: error.map(str::to_owned),
            session_id: None,
        }),
    }
}

#[test]
fn a_new_child_is_announced_once() {
    let mut children = Children::default();
    let child = json(r#"{"id":"c1","status":"running","sessionName":"child task","model":"m"}"#);
    let (events, observe) = children.begin_update_as(&child, "/work", "first");
    assert_eq!(observe, Some("c1".into()));
    assert_eq!(
        events,
        vec![
            AgentEvent::ToolCall {
                id: "prime-child:c1".into(),
                call: ToolCall::Unknown {
                    name: "Agent: child task".into(),
                    input: Some(json(r#"{"model":"m"}"#))
                }
            },
            AgentEvent::Subagent {
                parent_tool_use_id: "prime-child:c1".into(),
                event: Box::new(AgentEvent::SessionStarted {
                    harness: HarnessId::Prime,
                    model: "m".into(),
                    tools: Vec::new(),
                    cwd: "/work".into(),
                    session_id: "c1".into(),
                    assistant_message_id: "first".into(),
                })
            }
        ]
    );
    let (events, observe) = children.begin_update_as(&child, "/work", "second");
    assert!(events.is_empty());
    assert_eq!(observe, Some("c1".into()));
}

#[test]
fn each_new_child_gets_a_fresh_message_name() {
    let mut children = Children::default();
    let mut names = Vec::new();
    for id in ["a", "b"] {
        let begun = children.begin_update(&Json::object().set("id", Json::text(id)), "/");
        let AgentEvent::Subagent { event, .. } = &begun.events[1] else { panic!("no child") };
        let AgentEvent::SessionStarted { assistant_message_id, .. } = &**event else {
            panic!("no start")
        };
        assert_eq!(assistant_message_id.len(), 36);
        assert_eq!(assistant_message_id.as_bytes()[14], b'4');
        names.push(assistant_message_id.clone());
    }
    assert_ne!(names[0], names[1]);
}

#[test]
fn a_queued_child_is_not_observed_yet() {
    let mut children = Children::default();
    let begun = children.begin_update(&json(r#"{"id":"c","status":"queued"}"#), "/");
    assert_eq!(begun.observe, None);
    let begun =
        children.begin_update(&json(r#"{"id":"c","status":"running","activeSessionId":"k"}"#), "/");
    assert!(begun.events.is_empty());
    assert_eq!(begun.observe, Some("k".into()));
}

#[test]
fn a_child_without_a_name_is_passed_over() {
    let mut children = Children::default();
    for text in ["{}", r#"{"id":""}"#, r#"{"id":7}"#, "null"] {
        let begun = children.begin_update(&json(text), "/");
        assert!(begun.events.is_empty());
        assert_eq!(begun.observe, None);
        assert!(children.finish_update(&json(text), None, 0).is_empty());
    }
    assert!(children.by_id.is_empty());
}

#[test]
fn an_observation_begins_with_what_was_said() {
    let mut children = Children::default();
    let child = json(r#"{"id":"c"}"#);
    children.begin_update(&child, "/");
    let found = children.finish_update(
        &child,
        Some(&json(r#"{"messages":[{"role":"user","content":"task"}]}"#)),
        0,
    );
    assert_eq!(
        found,
        vec![AgentEvent::Subagent {
            parent_tool_use_id: "prime-child:c".into(),
            event: Box::new(AgentEvent::UserMessage { text: "task".into() })
        }]
    );
    assert_eq!(children.begin_update(&child, "/").observe, None);
}

#[test]
fn a_child_that_cannot_be_observed_ends_with_its_snapshot() {
    let mut children = Children::default();
    let child = json(r#"{"id":"c","status":"error","error":"broke"}"#);
    children.begin_update(&child, "/");
    let found = children.finish_update(&child, None, 5);
    assert_eq!(found, vec![end("c", DoneStatus::Errored, Some("broke"))]);
    assert!(children.finish_update(&child, None, 6).is_empty());
    assert!(children.finish_open().is_empty());
}

#[test]
fn an_observed_child_ends_with_its_last_event_or_in_time() {
    let done = json(r#"{"id":"c","status":"done"}"#);
    let mut children = Children::default();
    children.begin_update(&done, "/");
    assert!(children.finish_update(&done, Some(&json("{}")), 1_000).is_empty());
    assert!(children.settle_due(1_000 + SETTLE_AFTER - 1).is_empty());
    assert_eq!(
        children.settle_due(1_000 + SETTLE_AFTER),
        vec![end("c", DoneStatus::Completed, None)]
    );
    assert!(children.settle_due(9_000).is_empty());
    assert_eq!(children.finished_observations(), vec!["c".to_owned()]);
    assert!(children.finished_observations().is_empty());

    let mut children = Children::default();
    children.begin_update(&done, "/");
    children.finish_update(&done, Some(&json("{}")), 1_000);
    let found = children.observed(&json(
        r#"{"type":"observed_session_event","activeSessionId":"c","event":{"type":"agent_end"}}"#,
    ));
    assert_eq!(found, vec![end("c", DoneStatus::Completed, None)]);
    assert!(children.settle_due(9_000).is_empty());
}

#[test]
fn a_closed_child_session_ends_the_child() {
    let mut children = Children::default();
    let child = json(r#"{"id":"c"}"#);
    children.begin_update(&child, "/");
    children.finish_update(&child, Some(&json("{}")), 0);
    assert!(children
        .observed(&json(r#"{"type":"observed_session_closed","activeSessionId":"other"}"#))
        .is_empty());
    let found = children.observed(&json(
        r#"{"type":"observed_session_closed","activeSessionId":"c","error":"lost"}"#,
    ));
    assert_eq!(found, vec![end("c", DoneStatus::Errored, Some("lost"))]);
}

#[test]
fn closing_cancels_what_is_open() {
    let mut children = Children::default();
    for id in ["a", "b"] {
        children.begin_update(&Json::object().set("id", Json::text(id)), "/");
    }
    assert_eq!(
        children.finish_open(),
        vec![end("a", DoneStatus::Interrupted, None), end("b", DoneStatus::Interrupted, None)]
    );
    assert!(children.finish_open().is_empty());
}

#[test]
fn an_unobserved_child_is_not_overheard() {
    let mut children = Children::default();
    children.begin_update(&json(r#"{"id":"c"}"#), "/");
    assert!(children
        .observed(&json(r#"{"type":"observed_session_closed","activeSessionId":"c"}"#))
        .is_empty());
}

#[test]
fn a_child_has_one_whole_life() {
    let mut children = Children::default();
    let mut events = Vec::new();
    let running = json(r#"{"id":"c","status":"running","activeSessionId":"k"}"#);
    let other = json(r#"{"id":"d","status":"queued"}"#);
    let done = json(r#"{"id":"c","status":"done","activeSessionId":"k"}"#);
    for (child, reply) in [(&running, None), (&other, None), (&running, Some(json("{}"))), (&done, None)] {
        let begun = children.begin_update(child, "/");
        events.extend(begun.events);
        let reply = if begun.observe.is_some() { reply } else { None };
        events.extend(children.finish_update(child, reply.as_ref(), 10));
    }
    for text in [
        r#"{"type":"observed_session_event","activeSessionId":"k","event":{"type":"message_update","assistantMessageEvent":{"type":"text_delta","delta":"hi"}}}"#,
        r#"{"type":"observed_session_event","activeSessionId":"k","event":{"type":"agent_end"}}"#,
        r#"{"type":"observed_session_event","activeSessionId":"k","event":{"type":"agent_end"}}"#,
    ] {
        events.extend(children.observed(&json(text)));
    }
    events.extend(children.settle_due(10_000));
    events.extend(children.finish_open());
    assert!(children.finish_open().is_empty());
    let kinds = |id: &str| -> Vec<&str> {
        let tool = child_tool_id(id);
        events
            .iter()
            .filter_map(|event| match event {
                AgentEvent::ToolCall { id, .. } if *id == tool => Some("call"),
                AgentEvent::Subagent { parent_tool_use_id, event } if *parent_tool_use_id == tool => {
                    Some(match **event {
                        AgentEvent::SessionStarted { .. } => "start",
                        AgentEvent::Done { status: DoneStatus::Interrupted, .. } => "interrupted",
                        AgentEvent::Done { .. } => "end",
                        _ => "between",
                    })
                }
                _ => None,
            })
            .collect()
    };
    assert_eq!(kinds("c"), vec!["call", "start", "between", "end"]);
    assert_eq!(kinds("d"), vec!["call", "start", "interrupted"]);
}

#[test]
fn a_child_is_asked_for_until_an_observation_succeeds() {
    let mut children = Children::default();
    let mut ask = |snapshot: &str, reply: Option<&str>| {
        let child = json(snapshot);
        let begun = children.begin_update(&child, "/");
        let reply = if begun.observe.is_some() { reply.map(json) } else { None };
        let events = children.finish_update(&child, reply.as_ref(), 0);
        (begun.observe, events.len())
    };
    let said = r#"{"messages":[{"role":"assistant","content":[{"type":"text","text":"One"}]}]}"#;
    let key = |key: &str| Some(key.to_owned());
    assert_eq!(ask(r#"{"id":"c","status":"queued"}"#, Some(said)), (None, 0));
    assert_eq!(ask(r#"{"id":"c"}"#, None), (key("c"), 0));
    assert_eq!(ask(r#"{"id":"c","activeSessionId":"a"}"#, None), (key("a"), 0));
    assert_eq!(ask(r#"{"id":"c"}"#, Some(said)), (key("a"), 1));
    assert_eq!(ask(r#"{"id":"c","activeSessionId":"a"}"#, Some(said)), (None, 0));
    assert_eq!(ask(r#"{"id":"c","activeSessionId":"b"}"#, None), (key("b"), 0));
    assert_eq!(ask(r#"{"id":"c","activeSessionId":"a"}"#, None), (key("a"), 0));
    assert_eq!(ask(r#"{"id":"c","status":"done"}"#, None), (key("a"), 1));
    assert_eq!(ask(r#"{"id":"c","activeSessionId":"z"}"#, Some(said)), (None, 0));
}
