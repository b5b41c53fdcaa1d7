use zeron_harness::client::{answer, stdout_reason, Incoming, PrimeClient};
use zeron_harness::daemon::{
    check_hello, command_result, connection_reason, creation_fields, kills_unattached, read_hello,
    relay_answer, Arrival, DaemonClient,
};
use zeron_harness::extension_ui::{answer_request, method_asks_user, read_question};
use zeron_harness::json::{Json, JsonNumber};
use zeron_harness::proto::{HarnessError, UserInputAnswer};
use zeron_harness::requests::{closing_message, prompt_fields, quiescence_fields, steer_fields};
use zeron_harness::wire;

fn json(text: &str) -> Json {
    wire::parse(text).unwrap()
}

fn protocol(text: &str) -> HarnessError {
    HarnessError::Protocol(text.into())
}

#[test]
fn requests_are_numbered_and_named() {
    let mut client = PrimeClient::new();
    let (id, line) = client.request("prompt", prompt_fields("hi", vec![])).unwrap();
    assert_eq!(id, "0");
    assert_eq!(line.at("message"), &Json::text("hi"));
    assert_eq!(line.at("images"), &Json::Array(vec![]));
    assert_eq!(line.at("id"), &Json::text("0"));
    assert_eq!(line.at("type"), &Json::text("prompt"));
    let (id, line) = client.request("prompt", steer_fields("more")).unwrap();
    assert_eq!(id, "1");
    assert_eq!(line.at("streamingBehavior"), &Json::text("steer"));
    assert_eq!(
        client.request("x", Json::Null),
        Err(protocol("Prime RPC request fields must be an object"))
    );
    assert_eq!(client.request("x", Json::object()).unwrap().0, "3");
    assert_eq!(client.requests.waiting, vec!["0".to_owned(), "1".into(), "3".into()]);
}

#[test]
fn replies_may_overtake_one_another() {
    let mut client = PrimeClient::new();
    client.request("a", Json::object()).unwrap();
    client.request("b", Json::object()).unwrap();
    let line = r#"{"type":"response","id":"1","success":true,"data":{"x":1}}"#;
    assert_eq!(
        client.take_line(line),
        Incoming::Reply { id: "1".into(), reply: Ok(json(r#"{"x":1}"#)) }
    );
    assert_eq!(client.take_line(line), Incoming::Nothing);
    assert_eq!(
        client.take_line(r#"{"type":"response","id":"0","success":false,"error":"no"}"#),
        Incoming::Reply { id: "0".into(), reply: Err("no".into()) }
    );
}

#[test]
fn replies_without_data_or_error_have_defaults() {
    let mut client = PrimeClient::new();
    client.request("a", Json::object()).unwrap();
    client.request("b", Json::object()).unwrap();
    assert_eq!(
        client.take_line(r#"{"type":"response","id":"0","success":true}"#),
        Incoming::Reply { id: "0".into(), reply: Ok(Json::Null) }
    );
    assert_eq!(
        client.take_line(r#"{"type":"response","id":"1"}"#),
        Incoming::Reply { id: "1".into(), reply: Err("Prime RPC request failed".into()) }
    );
    assert_eq!(client.take_line(r#"{"type":"response"}"#), Incoming::Nothing);
    assert_eq!(client.take_line(""), Incoming::Nothing);
}

#[test]
fn other_lines_are_messages_and_broken_ones_close() {
    let mut client = PrimeClient::new();
    assert_eq!(
        client.take_line(r#"{"type":"agent_start"}"#),
        Incoming::Message(json(r#"{"type":"agent_start"}"#))
    );
    let Incoming::Failure(reason) = client.take_line("{") else { panic!("no failure") };
    assert!(reason.starts_with("Prime RPC sent invalid JSON: EOF while parsing"));
    client.request("a", Json::object()).unwrap();
    let (names, last) = client.close(&reason);
    assert_eq!(names, vec!["0".to_owned()]);
    assert_eq!(last, closing_message(&reason));
    assert_eq!(
        client.take_line(r#"{"type":"response","id":"0","success":true}"#),
        Incoming::Nothing
    );
}

#[test]
fn failed_requests_say_what_they_were() {
    let mut client = PrimeClient::new();
    let (id, _) = client.request("abort", Json::object()).unwrap();
    assert_eq!(client.unsent(&id, "abort"), protocol("Prime RPC stdin closed before abort"));
    assert!(client.requests.waiting.is_empty());
    assert_eq!(answer("abort", Some(Ok(Json::Null))), Ok(Json::Null));
    assert_eq!(answer("abort", Some(Err("no".into()))), Err(protocol("Prime RPC abort: no")));
    assert_eq!(answer("abort", None), Err(protocol("Prime RPC closed during abort")));
    assert_eq!(stdout_reason(None), "Prime RPC process closed stdout");
    assert_eq!(stdout_reason(Some("x")), "Prime RPC stdout failed: x");
    assert_eq!(connection_reason(None), "Prime daemon connection closed");
    assert_eq!(connection_reason(Some("x")), "Prime daemon connection failed: x");
    assert_eq!(command_result("create", Some(Ok(Json::Null))), Ok(Json::Null));
    assert_eq!(command_result("create", Some(Err("no".into()))), Err(protocol("Prime daemon create: no")));
    assert_eq!(command_result("create", None), Err(protocol("Prime daemon closed during create")));
}

#[test]
fn a_daemon_has_to_speak_the_protocol() {
    let refusal = Err(protocol(
        "Prime daemon lacks the native RLM completion protocol; update Prime Agent",
    ));
    let hello = |name: &str, version: &str, capability: &str| {
        check_hello(&json(&format!(
            "{{\"type\":\"daemon_hello\",\"protocol\":{{\"name\":\"{name}\",\"version\":{version}}},\"serverCapabilities\":[\"other\",\"{capability}\"]}}"
        )))
    };
    assert_eq!(hello("prime-agent.daemon", "7", "rlm_quiescence_barrier"), Ok(7));
    assert_eq!(hello("prime-agent.daemon", "9", "rlm_quiescence_barrier"), Ok(9));
    assert_eq!(hello("prime-agent.daemon", "6", "rlm_quiescence_barrier"), refusal);
    assert_eq!(hello("prime-agent.daemon", "\"7\"", "rlm_quiescence_barrier"), refusal);
    assert_eq!(hello("other", "7", "rlm_quiescence_barrier"), refusal);
    assert_eq!(hello("prime-agent.daemon", "7", "none"), refusal);
    assert_eq!(check_hello(&json("{}")), refusal);
    let Err(HarnessError::Protocol(text)) = read_hello("nope") else { panic!("no error") };
    assert!(text.starts_with("Invalid Prime daemon handshake: "));
}

#[test]
fn a_session_is_created_or_resumed() {
    assert_eq!(creation_fields("/w", None).at("config").at("cwd"), &Json::text("/w"));
    assert_eq!(creation_fields("/w", None).at("lifecycle"), &Json::text("resident"));
    assert!(creation_fields("/w", None).get("sessionPath").is_none());
    assert_eq!(creation_fields("/w", Some("s")).at("sessionPath"), &Json::text("s"));
    let mut client = DaemonClient::new_as("jjzeron:x".into(), 7);
    assert_eq!(
        client.created(&json("{}")),
        Err(protocol("Prime daemon create returned no activeSessionId"))
    );
    assert_eq!(client.root, None);
    assert_eq!(client.request("prompt", Json::object()), Err(protocol("Prime daemon session has no active ID")));
    assert_eq!(client.created(&json(r#"{"activeSessionId":"r"}"#)), Ok(()));
    assert_eq!(client.root, Some("r".into()));
    let fields = client.attachment_fields("r");
    assert_eq!(fields.at("capabilities").as_array().unwrap().len(), 3);
    assert_eq!(fields.at("clientId"), &Json::text("jjzeron:x"));
    assert!(kills_unattached(false));
    assert!(!kills_unattached(true));
}

#[test]
fn a_connection_has_a_fresh_name() {
    let a = DaemonClient::new(7);
    let b = DaemonClient::new(7);
    assert!(a.client_id.starts_with("jjzeron:"));
    assert_eq!(a.client_id.len(), "jjzeron:".len() + 36);
    assert_ne!(a.client_id, b.client_id);
}

fn daemon() -> DaemonClient {
    let mut client = DaemonClient::new_as("jjzeron:x".into(), 8);
    client.created(&json(r#"{"activeSessionId":"root"}"#)).unwrap();
    client
}

#[test]
fn commands_are_wrapped_and_renamed() {
    let mut client = daemon();
    let out = client.request("get_state", Json::object()).unwrap();
    assert_eq!(out.id, "jj-0");
    assert_eq!(out.kind, "get_connection_state");
    assert_eq!(out.target, "root");
    assert_eq!(out.message.at("type"), &Json::text("command"));
    assert_eq!(out.message.at("id"), &Json::text("jj-0"));
    assert_eq!(out.message.at("clientId"), &Json::text("jjzeron:x"));
    assert_eq!(out.message.at("protocol").at("version"), &Json::Number(JsonNumber::Unsigned(8)));
    assert_eq!(out.message.at("command").at("type"), &Json::text("get_connection_state"));
    assert_eq!(out.message.at("command").at("activeSessionId"), &Json::text("root"));
    assert_eq!(client.request("get_session_summary", Json::object()).unwrap().kind, "get_state");
    let out = client.request("wait_for_headless_completion", quiescence_fields()).unwrap();
    assert_eq!(out.id, "jj-2");
    assert_eq!(out.kind, "wait_for_headless_completion");
    assert_eq!(out.message.at("command").at("waitForRlmQuiescence"), &Json::Bool(true));
    assert_eq!(
        client.request("x", Json::Null),
        Err(protocol("Prime daemon request fields must be an object"))
    );
    assert_eq!(client.unsent("jj-2"), protocol("Prime daemon socket closed"));
    assert_eq!(client.requests.waiting, vec!["jj-0".to_owned(), "jj-1".into()]);
}

#[test]
fn an_observation_is_kept_unless_it_fails() {
    let mut client = daemon();
    let fields = || zeron_harness::requests::session_fields("child");
    let out = client.request("observe", fields()).unwrap();
    assert_eq!(out.kind, "attach");
    assert_eq!(out.target, "child");
    assert_eq!(client.observed, vec!["child".to_owned()]);
    let data = json(r#"{"snapshot":{"messages":[1]}}"#);
    assert_eq!(
        client.conclude("observe", "child", Ok(data)),
        Ok(json(r#"{"messages":[1]}"#))
    );
    assert_eq!(client.observed, vec!["child".to_owned()]);
    assert_eq!(client.request("unobserve", fields()).unwrap().kind, "detach");
    assert!(client.observed.is_empty());
    client.request("observe", fields()).unwrap();
    assert_eq!(client.conclude("observe", "child", Err(protocol("no"))), Err(protocol("no")));
    assert!(client.observed.is_empty());
    assert_eq!(client.conclude("prompt", "root", Ok(Json::Null)), Ok(Json::Null));
}

#[test]
fn replies_of_a_daemon_are_acknowledged() {
    let mut client = daemon();
    client.request("prompt", Json::object()).unwrap();
    let line = r#"{"type":"response","id":"jj-0","success":true,"data":1}"#;
    let Arrival::Reply { id, reply, acknowledgement } = client.take_line(line) else {
        panic!("no reply");
    };
    assert_eq!(id, "jj-0");
    assert_eq!(reply, Ok(Json::Number(JsonNumber::Unsigned(1))));
    assert_eq!(acknowledgement.at("id"), &Json::text("ack-jj-0"));
    assert_eq!(acknowledgement.at("command").at("type"), &Json::text("ack_result"));
    assert_eq!(acknowledgement.at("command").at("commandId"), &Json::text("jj-0"));
    assert_eq!(client.take_line(line), Arrival::Messages(vec![]));
    client.request("prompt", Json::object()).unwrap();
    let Arrival::Reply { reply, .. } = client.take_line(r#"{"type":"response","id":"jj-1"}"#)
    else {
        panic!("no reply");
    };
    assert_eq!(reply, Err("Prime daemon request failed".into()));
}

#[test]
fn messages_of_a_daemon_are_routed() {
    let mut client = daemon();
    client.request("observe", zeron_harness::requests::session_fields("child")).unwrap();
    let mut route = |text: &str| match client.take_line(text) {
        Arrival::Messages(list) => list,
        other => panic!("{other:?}"),
    };
    assert_eq!(
        route(r#"{"type":"session_event","activeSessionId":"root","event":{"type":"agent_start"}}"#),
        vec![json(r#"{"type":"agent_start"}"#)]
    );
    assert!(route(r#"{"type":"session_event","activeSessionId":"root"}"#).is_empty());
    let heard = route(r#"{"type":"session_event","activeSessionId":"child","event":7}"#);
    assert_eq!(heard[0].at("type"), &Json::text("observed_session_event"));
    assert_eq!(heard[0].at("activeSessionId"), &Json::text("child"));
    assert_eq!(heard[0].at("event"), &Json::Number(JsonNumber::Unsigned(7)));
    assert!(route(r#"{"type":"session_event","activeSessionId":"stranger","event":7}"#).is_empty());
    let closed = route(r#"{"type":"session_closed","activeSessionId":"root"}"#);
    assert_eq!(closed[0].at("type"), &Json::text("session_closed"));
    assert_eq!(closed[1], closing_message("Prime daemon session closed"));
    let closed = route(r#"{"type":"session_closed","activeSessionId":"child"}"#);
    assert_eq!(closed.len(), 1);
    assert_eq!(closed[0].at("type"), &Json::text("observed_session_closed"));
    let asked = route(r#"{"type":"extension_ui_request","activeSessionId":"root","id":"q","method":"confirm","payload":{"title":"T"}}"#);
    assert_eq!(asked[0].at("type"), &Json::text("extension_ui_request"));
    assert_eq!(asked[0].at("id"), &Json::text("q"));
    assert_eq!(asked[0].at("method"), &Json::text("confirm"));
    assert_eq!(asked[0].at("title"), &Json::text("T"));
    assert_eq!(route(r#"{"type":"session_resynced","activeSessionId":"root"}"#).len(), 1);
    assert!(route(r#"{"type":"session_resynced","activeSessionId":"child"}"#).is_empty());
    assert_eq!(route(r#"{"type":"daemon_closing"}"#).len(), 1);
    assert!(route(r#"{"type":"unknown","activeSessionId":"root"}"#).is_empty());
    assert!(route("").is_empty());
}

#[test]
fn a_broken_line_closes_the_daemon() {
    let mut client = daemon();
    client.request("prompt", Json::object()).unwrap();
    let Arrival::Failure(reason) = client.take_line("[1,") else { panic!("no failure") };
    assert!(reason.starts_with("Prime daemon sent invalid JSON: "));
    let (names, last) = client.close(&reason);
    assert_eq!(names, vec!["jj-0".to_owned()]);
    assert_eq!(last.at("error"), &Json::text(&reason));
}

#[test]
fn extensions_ask_and_are_answered() {
    assert!(method_asks_user("select"));
    assert!(!method_asks_user("notify"));
    let confirm = json(r#"{"id":"q","method":"confirm","title":"Sure?"}"#);
    let question = read_question(&confirm, "q");
    assert_eq!(question.header, "Sure?");
    assert_eq!(question.question, "Sure?");
    assert_eq!(question.options, vec!["Yes".to_owned(), "No".into()]);
    assert!(!question.multi_select);
    let select = json(r#"{"method":"select","message":"Pick","options":["a",1,"b"]}"#);
    let question = read_question(&select, "q");
    assert_eq!(question.header, "Prime Agent");
    assert_eq!(question.question, "Pick");
    assert_eq!(question.options, vec!["a".to_owned(), "b".into()]);
    assert_eq!(read_question(&json("{}"), "q").question, "Prime Agent requests input");

    let answers = |label: &str| {
        vec![UserInputAnswer { question_id: "q".into(), labels: vec![label.to_owned()] }]
    };
    let relay = |method: &str, answers: Vec<UserInputAnswer>| {
        relay_answer(&answer_request(method, "q", &answers)).unwrap().at("response").clone()
    };
    assert_eq!(relay("confirm", answers("Yes")), json(r#"{"confirmed":true}"#));
    assert_eq!(relay("confirm", answers("No")), json(r#"{"confirmed":false}"#));
    assert_eq!(relay("select", answers("a")), json(r#"{"value":"a"}"#));
    assert_eq!(relay("input", vec![]), json(r#"{"cancelled":true}"#));
    assert_eq!(
        relay_answer(&json(r#"{"type":"other"}"#)),
        Err(protocol("Unsupported Prime daemon notification"))
    );
    assert_eq!(
        relay_answer(&json(r#"{"type":"extension_ui_response"}"#)),
        Err(protocol("Prime extension UI response has no ID"))
    );
}

#[test]
fn a_conversation_with_a_process_is_carried_to_its_close() {
    let mut client = PrimeClient::new();
    for _ in 0..4 {
        client.request("a", Json::object()).unwrap();
    }
    client.unsent("3", "a");
    let mut messages = Vec::new();
    let mut outcomes = Vec::new();
    for line in [
        "",
        r#"{"type":"agent_start"}"#,
        r#"{"type":"response","id":"2","success":true,"data":2}"#,
        r#"{"type":"response","id":"3","success":true,"data":3}"#,
        r#"{"type":"response","success":true}"#,
        r#"[7]"#,
        r#"{"type":"response","id":"0","success":true,"data":0}"#,
        r#"{"type":"response","id":"0","success":true,"data":0}"#,
        "broken",
        r#"{"type":"agent_end"}"#,
    ] {
        match client.take_line(line) {
            Incoming::Nothing => {}
            Incoming::Reply { id, reply } => outcomes.push((id, reply)),
            Incoming::Message(value) => messages.push(value),
            Incoming::Failure(reason) => {
                assert!(reason.starts_with("Prime RPC sent invalid JSON: "));
                let (names, last) = client.close(&reason);
                assert_eq!(last, closing_message(&reason));
                messages.push(last);
                outcomes.extend(names.into_iter().map(|name| (name, Err(reason.clone()))));
                break;
            }
        }
    }
    assert_eq!(messages.len(), 3);
    assert_eq!(messages[0], json(r#"{"type":"agent_start"}"#));
    assert_eq!(messages[1], json("[7]"));
    assert_eq!(messages[2].at("type"), &Json::text("_transport_closed"));
    let names: Vec<&str> = outcomes.iter().map(|(name, _)| name.as_str()).collect();
    assert_eq!(names, vec!["2", "0", "1"]);
    assert_eq!(outcomes[0].1, Ok(json("2")));
    assert_eq!(outcomes[1].1, Ok(json("0")));
    assert!(outcomes[2].1.is_err());
}

#[test]
fn a_conversation_with_a_daemon_is_carried_to_its_close() {
    let mut client = daemon();
    let first = client.request("prompt", Json::object()).unwrap().id;
    let watch = client.request("observe", json(r#"{"activeSessionId":"k"}"#)).unwrap();
    let left = client.request("get_state", Json::object()).unwrap().id;
    let heard = r#"{"type":"session_event","activeSessionId":"k","event":{"type":"x"}}"#;
    let mut messages = Vec::new();
    let mut outcomes = Vec::new();
    let mut acknowledged = Vec::new();
    let reply =
        |id: &str| format!("{{\"type\":\"response\",\"id\":\"{id}\",\"success\":true,\"data\":1}}");
    let mut take = |client: &mut DaemonClient, line: &str| match client.take_line(line) {
        Arrival::Reply { id, reply, acknowledgement } => {
            acknowledged.push(acknowledgement.at("id").clone());
            outcomes.push((id, reply));
        }
        Arrival::Messages(list) => messages.extend(list),
        Arrival::Failure(reason) => {
            let (names, last) = client.close(&reason);
            messages.push(last);
            outcomes.extend(names.into_iter().map(|name| (name, Err(reason.clone()))));
        }
    };
    take(&mut client, heard);
    take(&mut client, &reply(&watch.id));
    take(&mut client, &reply(&watch.id));
    assert!(client.conclude("observe", "k", Err(protocol("no"))).is_err());
    take(&mut client, heard);
    take(&mut client, &reply(&first));
    take(&mut client, "");
    take(&mut client, "{");
    assert_eq!(messages.len(), 2);
    assert_eq!(messages[0].at("type"), &Json::text("observed_session_event"));
    assert_eq!(messages[1].at("type"), &Json::text("_transport_closed"));
    let names: Vec<&str> = outcomes.iter().map(|(name, _)| name.as_str()).collect();
    assert_eq!(names, vec![watch.id.as_str(), first.as_str(), left.as_str()]);
    assert!(outcomes[2].1.is_err());
    assert_eq!(
        acknowledged,
        vec![Json::text(&format!("ack-{}", watch.id)), Json::text(&format!("ack-{first}"))]
    );
}
