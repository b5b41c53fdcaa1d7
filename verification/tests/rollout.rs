use zeron_harness::proto::{AgentEvent, HarnessError};
use zeron_harness::rollout::{record_images, RolloutImages, MAX_LINE, MAX_READ};
use zeron_harness::wire;

fn record(id: &str, data: &str) -> String {
    format!("{{\"type\":\"response_item\",\"payload\":{{\"type\":\"custom_tool_call_output\",\"call_id\":\"{id}\",\"output\":[{{\"type\":\"input_image\",\"image_url\":\"data:image/png;base64,{data}\"}}]}}}}")
}

#[test]
fn follows_only_new_complete_native_outputs() {
    let mut source = format!("{}\n\n", record("old", "aGVsbG8=")).into_bytes();
    let mut tail = RolloutImages::new("/rollouts/rollout.jsonl", true, source.len() as u64).unwrap();
    let mut poll = |source: &Vec<u8>| {
        let start = tail.locate(source.len() as u64) as usize;
        tail.take_appended(source[start..].to_vec())
    };
    source.extend_from_slice(record("new", "d29ybGQ=").as_bytes());
    assert!(poll(&source).unwrap().is_empty());
    source.extend_from_slice(b"\n");
    let images = poll(&source).unwrap();
    assert!(matches!(&images[0], AgentEvent::InlineImage { id, .. } if id == "new:image:0"));
    assert!(poll(&source).unwrap().is_empty());
}

#[test]
fn a_rollout_is_an_absolute_jsonl_file() {
    assert!(RolloutImages::follow("/a.jsonl", true, Some("jsonl"), false, 9).is_some());
    assert!(RolloutImages::follow("a.jsonl", false, Some("jsonl"), false, 9).is_none());
    assert!(RolloutImages::follow("/a.json", true, Some("json"), false, 9).is_none());
    assert!(RolloutImages::follow("/a", true, None, false, 9).is_none());
    assert_eq!(RolloutImages::follow("/a.jsonl", true, Some("jsonl"), false, 9).unwrap().offset, 0);
    assert_eq!(RolloutImages::follow("/a.jsonl", true, Some("jsonl"), true, 9).unwrap().offset, 9);
}

fn is_followed(path: &str) -> bool {
    RolloutImages::new(path, false, 0).is_some()
}

#[test]
fn the_path_is_looked_at_on_this_machine() {
    assert!(is_followed("/sessions/rollout.jsonl"));
    assert!(!is_followed("sessions/rollout.jsonl"));
    assert!(!is_followed("rollout.jsonl"));
    assert!(!is_followed(""));
    assert!(!is_followed("/sessions/rollout.json"));
    assert!(!is_followed("/sessions/.jsonl"));
    assert!(!is_followed("/sessions.jsonl/rollout"));
}

#[test]
fn a_file_that_shrank_is_read_from_its_start() {
    let mut tail = RolloutImages::follow("/a.jsonl", true, Some("jsonl"), false, 0).unwrap();
    assert_eq!(tail.locate(100), 0);
    assert!(tail.take_appended(b"unfinished".to_vec()).unwrap().is_empty());
    assert_eq!(tail.locate(10), 10);
    assert_eq!(tail.locate(4), 0);
    let images = tail.take_appended(format!("{}\n", record("x", "eA==")).into_bytes()).unwrap();
    assert_eq!(
        images,
        vec![AgentEvent::InlineImage {
            id: "x:image:0".into(),
            data: "eA==".into(),
            mime_type: "image/png".into()
        }]
    );
}

#[test]
fn portions_give_what_the_whole_gives() {
    let text = format!("{}\nnot json\n{}\nrest", record("a", "eA=="), record("b", "eQ=="));
    let bytes = text.into_bytes();
    let mut whole = RolloutImages::follow("/a.jsonl", true, Some("jsonl"), false, 0).unwrap();
    let expected = whole.take_appended(bytes.clone()).unwrap();
    assert_eq!(expected.len(), 2);
    for cut in [0, 1, 60, 150, bytes.len() - 4, bytes.len()] {
        let mut parts = RolloutImages::follow("/a.jsonl", true, Some("jsonl"), false, 0).unwrap();
        let mut found = parts.take_appended(bytes[..cut].to_vec()).unwrap();
        found.extend(parts.take_appended(bytes[cut..].to_vec()).unwrap());
        assert_eq!(found, expected);
        assert_eq!(parts.pending, whole.pending);
        assert_eq!(parts.offset, whole.offset);
    }
}

#[test]
fn a_line_beyond_the_limit_is_refused() {
    let refusal = Err(HarnessError::Io("Codex rollout item exceeds the image limit".into()));
    let mut tail = RolloutImages::follow("/a.jsonl", true, Some("jsonl"), false, 0).unwrap();
    assert!(tail.take_appended(vec![b'x'; MAX_LINE]).unwrap().is_empty());
    assert_eq!(tail.take_appended(vec![b'x'; 1]), refusal);
    assert!(tail.pending.is_empty());

    let mut bytes = vec![b'x'; MAX_LINE + 1];
    bytes.extend_from_slice(b"\nrest");
    let mut tail = RolloutImages::follow("/a.jsonl", true, Some("jsonl"), false, 0).unwrap();
    assert_eq!(tail.take_appended(bytes), refusal);
    assert_eq!(tail.pending, b"rest".to_vec());
    assert!(MAX_READ > MAX_LINE as u64);
}

#[test]
fn only_tool_outputs_have_images() {
    let images = |text: &str| record_images(&wire::parse(text).unwrap()).len();
    assert_eq!(images(&record("a", "eA==")), 1);
    assert_eq!(images(r#"{"type":"response_item","payload":{"type":"function_call_output","call_id":"c","output":[{"type":"image","mimeType":"image/png","data":"eA=="}]}}"#), 1);
    assert_eq!(images(r#"{"type":"response_item","payload":{"type":"message","call_id":"c","output":[{"type":"image","mimeType":"image/png","data":"eA=="}]}}"#), 0);
    assert_eq!(images(r#"{"type":"event_msg","payload":{"type":"function_call_output","call_id":"c","output":[]}}"#), 0);
    assert_eq!(images(r#"{"type":"response_item","payload":{"type":"function_call_output","output":[{"type":"image","mimeType":"image/png","data":"eA=="}]}}"#), 0);
}
