use zeron_harness::json::{Json, JsonNumber};
use zeron_harness::render::render_line;
use zeron_harness::text::{
    lower_is, split_once, strip_prefix, strip_suffix, text_before, trim,
};
use zeron_harness::wire;

#[test]
fn texts_are_parted_and_stripped() {
    for text in ["", ",", "a,b", "a,b,c", "日,本", "none", ",é"] {
        assert_eq!(split_once(text, ','), text.split_once(','));
        for end in ["", ",", "a", "a,", "日,", "c", "é", "a,b,c,d"] {
            assert_eq!(strip_prefix(text, end), text.strip_prefix(end));
            assert_eq!(strip_suffix(text, end), text.strip_suffix(end));
        }
    }
}

#[test]
fn white_space_is_trimmed_at_both_ends() {
    for code in 0..=0x10ffffu32 {
        let Some(c) = char::from_u32(code) else { continue };
        if code > 0x4000 && code % 97 != 0 {
            continue;
        }
        let text = format!("{c}x {c}y{c}");
        assert_eq!(trim(&text), text.trim());
    }
    assert_eq!(trim(" \n\t "), "");
    assert_eq!(trim(""), "");
}

#[test]
fn capital_letters_count_as_small_ones() {
    assert!(lower_is("PnG", "png"));
    assert!(!lower_is("PnG", "PnG"));
    assert!(!lower_is("png", "pn"));
    assert!(lower_is("É[Z", "É[z"));
    assert!(lower_is("@A", "@a"));
}

#[test]
fn texts_have_an_order() {
    let texts = ["", "a", "ab", "b", "Z", "é", "\u{ffff}", "\u{10000}", "a\u{0}"];
    for a in texts {
        for b in texts {
            assert_eq!(text_before(a, b), a < b);
        }
    }
}

#[test]
fn a_value_is_written_on_one_line() {
    let value = Json::object()
        .set("type", Json::text("a\nb\r\"\u{1}日"))
        .set("id", Json::Number(JsonNumber::Unsigned(u64::MAX)))
        .set("list", Json::Array(vec![Json::Null, Json::Bool(true), Json::Number(JsonNumber::Negative(-3))]));
    let line = render_line(&value).unwrap();
    assert_eq!(
        line,
        "{\"id\":18446744073709551615,\"list\":[null,true,-3],\"type\":\"a\\nb\\r\\\"\\u0001日\"}\n"
    );
    let read = wire::parse(line.trim_end()).unwrap();
    assert_eq!(read.at("type"), value.at("type"));
    assert_eq!(render_line(&read).unwrap(), line);
}

#[test]
fn numbers_are_written_as_they_are_kept() {
    let number = |number: JsonNumber| render_line(&Json::Number(number));
    assert_eq!(number(JsonNumber::Negative(5)), Some("5\n".into()));
    assert_eq!(number(JsonNumber::Negative(i64::MIN)), Some("-9223372036854775808\n".into()));
    assert_eq!(number(JsonNumber::Other("0.5".into())), Some("0.5\n".into()));
    assert_eq!(number(JsonNumber::Other("x".into())), None);
    let broken = Json::Array(vec![Json::object().set("n", Json::Number(JsonNumber::Other("".into())))]);
    assert_eq!(render_line(&broken), None);
}

#[test]
fn a_name_that_stands_twice_is_written_once() {
    let twice = Json::Object(vec![
        ("b".into(), Json::Bool(true)),
        ("a".into(), Json::Null),
        ("b".into(), Json::Bool(false)),
    ]);
    assert_eq!(twice.at("b"), &Json::Bool(true));
    assert_eq!(render_line(&twice).unwrap(), "{\"a\":null,\"b\":true}\n");
}
