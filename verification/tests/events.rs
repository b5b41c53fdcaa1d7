use zeron_harness::events::{
    append_bounded, cap_text, message_text, replay_messages, typed_tool, EventMapper, OUTPUT_CAP,
};
use zeron_harness::json::Json;
use zeron_harness::media::without_image_data;
use zeron_harness::proto::{AgentEvent, ToolCall};
use zeron_harness::tool_images;
use zeron_harness::wire;

fn json(text: &str) -> Json {
    wire::parse(text).unwrap()
}

fn jsons(texts: &[&str]) -> Vec<Json> {
    texts.iter().map(|text| json(text)).collect()
}

#[test]
fn maps_live_and_replayed_prime_transcript_without_duplicate_deltas() {
    let mut mapper = EventMapper::new();
    assert_eq!(
        mapper.map(&json(r#"{"type":"message_update","assistantMessageEvent":{"type":"text_delta","delta":"Hello"}}"#)),
        vec![AgentEvent::TextDelta { text: "Hello".into() }]
    );
    assert_eq!(
        mapper.map(&json(r#"{"type":"tool_execution_start","toolCallId":"call-1","toolName":"ipython","args":{"code":"print(1)"}}"#)),
        vec![AgentEvent::ToolCall { id: "call-1".into(), call: ToolCall::Exec { command: "print(1)".into() } }]
    );
    assert_eq!(
        mapper.map(&json(r#"{"type":"tool_execution_end","toolCallId":"call-1","result":{"content":[{"type":"text","text":"1"}]},"isError":false}"#)),
        vec![AgentEvent::ToolResult { id: "call-1".into(), is_error: false, output: Some("1".into()), diff: None }]
    );
    assert!(mapper.map(&json(r#"{"type":"message_update","assistantMessageEvent":{"type":"text_end","content":"Hello"}}"#)).is_empty());
    assert!(mapper.map(&json(r#"{"type":"message_end","message":{"role":"assistant","stopReason":"error","errorMessage":"provider unavailable"}}"#)).is_empty());
    assert_eq!(mapper.failure(), Some("provider unavailable"));
    assert!(mapper
        .map(&json(r#"{"type":"message_end","message":{"role":"assistant","stopReason":"stop"}}"#))
        .is_empty());
    assert_eq!(mapper.failure(), None);
    assert_eq!(
        mapper.map(&json(r#"{"type":"extension_error","extensionPath":"/project/extension.ts","error":"hook failed"}"#)),
        vec![AgentEvent::Error { message: "Prime extension /project/extension.ts: hook failed".into() }]
    );
    assert_eq!(
        mapper.map(&json(r#"{"type":"bash_start","runId":"run-1","command":"echo ok"}"#)),
        vec![AgentEvent::ToolCall {
            id: "prime-bash-run-1".into(),
            call: ToolCall::Exec { command: "echo ok".into() }
        }]
    );
    assert!(mapper.map(&json(r#"{"type":"bash_output","chunk":"ok\n"}"#)).is_empty());
    assert_eq!(
        mapper.map(&json(r#"{"type":"bash_end","runId":"run-1","exitCode":0,"cancelled":false}"#)),
        vec![AgentEvent::ToolResult {
            id: "prime-bash-run-1".into(),
            is_error: false,
            output: Some("ok\n".into()),
            diff: None
        }]
    );

    let replay = replay_messages(&jsons(&[
        r#"{"role":"user","content":"Calculate"}"#,
        r#"{"role":"assistant","content":[{"type":"thinking","thinking":"Compute"},{"type":"text","text":"One"},{"type":"toolCall","id":"call-1","name":"ipython","arguments":{"code":"print(1)"}}]}"#,
        r#"{"role":"toolResult","toolCallId":"call-1","content":[{"type":"text","text":"1"}],"isError":false}"#,
    ]));
    assert_eq!(
        replay,
        vec![
            AgentEvent::UserMessage { text: "Calculate".into() },
            AgentEvent::ReasoningDelta { text: "Compute".into() },
            AgentEvent::TextDelta { text: "One".into() },
            AgentEvent::ToolCall {
                id: "call-1".into(),
                call: ToolCall::Exec { command: "print(1)".into() }
            },
            AgentEvent::ToolResult {
                id: "call-1".into(),
                is_error: false,
                output: Some("1".into()),
                diff: None
            },
        ]
    );
}

#[test]
fn tool_result_images_survive_live_and_replay_without_raw_media_publication() {
    let notification = json(
        r#"{
            "type": "tool_execution_end",
            "toolCallId": "call-image",
            "result": {"content": [
                {"type": "text", "text": "Screenshot"},
                {"type": "image", "mimeType": "image/png", "data": "aGVsbG8="}
            ]},
            "isError": false
        }"#,
    );
    let events = EventMapper::new().map(&notification);
    assert!(
        matches!(&events[0], AgentEvent::ToolResult { output: Some(text), .. } if text == "Screenshot")
    );
    assert!(
        matches!(&events[1], AgentEvent::InlineImage { id, data, .. } if id == "call-image:image:1" && data == "aGVsbG8=")
    );
    let public = without_image_data(&notification);
    let block = &public.at("result").at("content").as_array().unwrap()[1];
    assert!(block.at("data").is_null());
    assert_eq!(block.at("dataOmitted"), &Json::Bool(true));
    let input_image = without_image_data(&json(
        r#"{
            "type":"tool_execution_end",
            "result":{"content":[{"type":"input_image","image_url":"data:image/png;base64,aGVsbG8="}]}
        }"#,
    ));
    let block = &input_image.at("result").at("content").as_array().unwrap()[0];
    assert!(block.at("image_url").is_null());
    assert_eq!(block.at("dataOmitted"), &Json::Bool(true));

    let stored = json(r#"{"role":"toolResult","toolCallId":"call-image","isError":false}"#)
        .set("content", notification.at("result").at("content").clone());
    let replay = replay_messages(&vec![stored]);
    assert_eq!(replay, events);
}

#[test]
fn extracts_mixed_native_tool_images_in_order() {
    let result = tool_images::events(
        "call-1",
        &json(
            r#"[
                {"type":"text","text":"before"},
                {"type":"image","mimeType":"image/png","data":"aGVsbG8="},
                {"type":"input_image","image_url":"data:image/jpeg;base64,d29ybGQ="}
            ]"#,
        ),
    );
    assert!(
        matches!(&result[0], AgentEvent::InlineImage { id, mime_type, .. } if id == "call-1:image:1" && mime_type == "image/png")
    );
    assert!(
        matches!(&result[1], AgentEvent::InlineImage { id, mime_type, .. } if id == "call-1:image:2" && mime_type == "image/jpeg")
    );
}

#[test]
fn images_without_a_raster_type_or_a_data_url_are_left_out() {
    let result = tool_images::events(
        "call",
        &json(
            r#"[
                {"type":"image","mimeType":"image/svg+xml","data":"eA=="},
                {"type":"input_image","image_url":"https://host/a.png"},
                {"type":"input_image","image_url":"data:image/png,raw"},
                {"type":"inputImage","imageUrl":"data:image/webp;base64,eA=="},
                {"type":"image","mimeType":"image/gif"}
            ]"#,
        ),
    );
    assert_eq!(
        result,
        vec![AgentEvent::InlineImage {
            id: "call:image:3".into(),
            data: "eA==".into(),
            mime_type: "image/webp".into()
        }]
    );
    assert!(tool_images::events("call", &json(r#"{"type":"image"}"#)).is_empty());
}

#[test]
fn an_image_beyond_the_limit_becomes_an_error() {
    let data = "A".repeat(tool_images::MAX_BASE64);
    let block = |data: &str| {
        Json::Array(vec![Json::object()
            .set("type", Json::text("image"))
            .set("mimeType", Json::text("image/png"))
            .set("data", Json::text(data))])
    };
    assert!(matches!(
        &tool_images::events("call", &block(&data))[0],
        AgentEvent::InlineImage { .. }
    ));
    assert_eq!(
        tool_images::events("call", &block(&format!("{data}A"))),
        vec![AgentEvent::Error { message: "Tool image exceeds the 24 MiB limit".into() }]
    );
}

#[test]
fn long_text_is_cut_at_a_character() {
    let short = "a".repeat(OUTPUT_CAP);
    assert_eq!(cap_text(&short), short);
    let long = format!("{}éé", "a".repeat(OUTPUT_CAP - 1));
    let cut = cap_text(&long);
    assert!(cut.starts_with(&"a".repeat(OUTPUT_CAP - 1)));
    assert!(!cut.contains('é'));
    assert!(cut.len() > OUTPUT_CAP - 1);
}

#[test]
fn output_is_gathered_up_to_the_cap() {
    let mut output = String::new();
    let mut truncated = false;
    append_bounded(&mut output, "one ", &mut truncated);
    append_bounded(&mut output, "two", &mut truncated);
    assert_eq!(output, "one two");
    assert!(!truncated);
    append_bounded(&mut output, &"x".repeat(OUTPUT_CAP), &mut truncated);
    assert!(truncated);
    assert!(output.len() <= OUTPUT_CAP);
}

#[test]
fn a_failed_shell_run_shows_what_went_wrong() {
    let mut mapper = EventMapper::new();
    let started = mapper.map(&json(r#"{"type":"bash_start","command":"false"}"#));
    assert_eq!(
        started,
        vec![AgentEvent::ToolCall {
            id: "prime-bash-1".into(),
            call: ToolCall::Exec { command: "false".into() }
        }]
    );
    let ended = mapper.map(&json(
        r#"{"type":"bash_end","exitCode":1,"cancelled":false,"errorMessage":"no such command"}"#,
    ));
    assert_eq!(
        ended,
        vec![AgentEvent::ToolResult {
            id: "prime-bash-1".into(),
            is_error: true,
            output: Some("no such command".into()),
            diff: None
        }]
    );
    assert!(mapper.map(&json(r#"{"type":"bash_end","exitCode":0}"#)).is_empty());
}

#[test]
fn an_unknown_event_maps_to_nothing() {
    let mut mapper = EventMapper::new();
    assert!(mapper.map(&json(r#"{"type":"future_prime_event","extra":{"value":42}}"#)).is_empty());
    assert!(mapper.map(&json(r#"{"kind":"none"}"#)).is_empty());
    assert!(mapper.map(&json("7")).is_empty());
}

#[test]
fn tools_with_a_command_are_shown_by_it() {
    assert_eq!(
        typed_tool("ipython", &json(r#"{"code":"1+1"}"#)),
        ToolCall::Exec { command: "1+1".into() }
    );
    assert_eq!(
        typed_tool("search", &json(r#"{"q":"x"}"#)),
        ToolCall::Unknown { name: "search".into(), input: Some(json(r#"{"q":"x"}"#)) }
    );
}

#[test]
fn text_blocks_of_a_message_are_joined() {
    assert_eq!(message_text(&json(r#""plain""#)), Some("plain".into()));
    assert_eq!(
        message_text(&json(r#"[{"type":"text","text":"a"},{"type":"image"},{"type":"text","text":"b"}]"#)),
        Some("a\nb".into())
    );
    assert_eq!(message_text(&json("null")), None);
}

#[test]
fn a_value_without_media_is_published_as_it_came() {
    let event = json(r#"{"type":"future_prime_event","extra":{"value":42,"list":[1,-2,0.5,null,true]}}"#);
    assert_eq!(without_image_data(&event), event);
    let scrubbed = without_image_data(&json(
        r#"{"a":[{"type":"image","data":"QUJD","mimeType":"image/png"}]}"#,
    ));
    assert_eq!(without_image_data(&scrubbed), scrubbed);
    assert!(scrubbed.at("a").as_array().unwrap()[0].get("data").is_none());
}

#[test]
fn the_output_of_a_shell_run_keeps_to_the_cap() {
    let mut mapper = EventMapper::new();
    mapper.map(&json(r#"{"type":"bash_start","runId":"r","command":"yes"}"#));
    for _ in 0..3 {
        let chunk = Json::object()
            .set("type", Json::text("bash_output"))
            .set("chunk", Json::text(&"y".repeat(OUTPUT_CAP / 2)));
        assert!(mapper.map(&chunk).is_empty());
    }
    let ended = mapper.map(&json(r#"{"type":"bash_end","exitCode":0}"#));
    let AgentEvent::ToolResult { output: Some(output), .. } = &ended[0] else { panic!("no output") };
    assert!(output.starts_with("yyyy"));
    assert!(output.len() < OUTPUT_CAP + 100);
}

#[test]
fn numbers_are_read_as_they_are() {
    assert_eq!(json("18446744073709551615").as_u64(), Some(u64::MAX));
    assert_eq!(json("-9223372036854775808").as_i64(), Some(i64::MIN));
    assert_eq!(json("7").as_i64(), Some(7));
    assert_eq!(json("-1").as_u64(), None);
    assert_eq!(json("0.5").as_u64(), None);
    assert_eq!(json("0.5").as_i64(), None);
    assert_eq!(json("18446744073709551615").as_i64(), None);
}

#[test]
fn bytes_that_are_no_json_are_not_read() {
    assert_eq!(wire::parse_bytes(b"[null]"), Some(Json::Array(vec![Json::Null])));
    assert_eq!(wire::parse_bytes(b"[null"), None);
    assert_eq!(wire::parse_bytes(&[0xff]), None);
    assert_eq!(wire::parse_bytes(b""), None);
    assert!(wire::parse("[null").is_err());
}
