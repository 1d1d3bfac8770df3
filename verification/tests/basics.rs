//! Texts, documents, times and bytes.
use noending::adapters::antigravity::{pb_str, pb_text};
use noending::adapters::codex::CodexAdapter;
use noending::adapters::reader::SourceFile;
use noending::adapters::{file_identity, truncate_text};
use noending::bytes::byte_length;
use noending::domain::{Agent, SessionMemberCursor, SessionMemberRelation};
use noending::json::{parse, parse_document, Json};
use noending::paths::{child_path, extension, file_stem};
use noending::text::{
    decimal_of, insert_text, is_before, join, lines, same_ignoring_case, signed_decimal_of, split,
    title_case, trim, words,
};
use noending::time::ms_epoch_to_rfc3339;

fn read(data: &[u8]) -> noending::adapters::reader::MemberReadDelta {
    let source = SourceFile {
        identity: file_identity(1, 2),
        mtime: None,
        data: data.to_vec(),
    };
    CodexAdapter::read_member_delta(
        SessionMemberRelation::Root,
        &source,
        &SessionMemberCursor::start(),
    )
}

#[test]
fn what_was_consumed_is_known_by_its_hash() {
    let delta = read(b"\n");
    assert_eq!(
        delta.source.unwrap().prefix_hash,
        "01ba4719c80b6fe911b091a7c05124b64eeece964e09c058ef8f9805daca546b"
    );
    // An unfinished line is not consumed.
    let delta = read(b"\nunfinished");
    let source = delta.source.unwrap();
    assert_eq!(source.byte_offset, 1);
    assert_eq!(source.last_seen_size, 11);
}

#[test]
fn bytes_that_are_no_text_are_replaced() {
    let mut line = br#"{"ordinal":1,"type":"response_item","timestamp":"t","payload":{"type":"message","id":"m","role":"user","content":[{"type":"input_text","text":"a"#.to_vec();
    line.push(0xff);
    line.extend_from_slice(b"b\"}]}}\n");
    let delta = read(&line);
    assert_eq!(delta.messages.len(), 1);
    assert_eq!(delta.messages[0].content, "a\u{fffd}b");
}

#[test]
fn bytes_on_the_wire_are_text_or_nothing() {
    assert_eq!(pb_str(&[0x0a, 0x02, b'h', b'i'], 1).as_deref(), Some("hi"));
    assert_eq!(pb_str(&[0x0a, 0x01, 0xff], 1), None);
    assert_eq!(pb_text(&[0x0a, 0x01, 0xff], 1), None);
}

#[test]
fn documents_are_read() {
    let v = parse(r#"{"a":[1,true,null,"x"],"b":{"c":2.5},"a2":-7}"#).unwrap();
    let items = v.items_at("a").unwrap();
    assert_eq!(items[0].as_i64(), Some(1));
    assert_eq!(items[1].as_bool(), Some(true));
    assert!(matches!(items[2], Json::Null));
    assert_eq!(items[3].as_str(), Some("x"));
    assert_eq!(v.inner("b", "c").unwrap().as_i64(), None);
    assert_eq!(v.get("a2").unwrap().as_i64(), Some(-7));
    assert!(parse("{").is_none());
    let why = parse_document("").err().unwrap();
    assert!(why.contains("EOF"));
}

#[test]
fn millis_are_spelled_as_a_time() {
    assert_eq!(
        ms_epoch_to_rfc3339(1_783_137_449_113).as_deref(),
        Some("2026-07-04T03:57:29.113+00:00")
    );
    assert_eq!(
        ms_epoch_to_rfc3339(0).as_deref(),
        Some("1970-01-01T00:00:00+00:00")
    );
    assert_eq!(ms_epoch_to_rfc3339(i64::MAX), None);
}

#[test]
fn texts_are_taken_apart_and_put_together() {
    assert_eq!(trim(" \u{3000}a b\n"), "a b");
    assert_eq!(lines("a\r\nb\n\nc"), vec!["a", "b", "", "c"]);
    assert_eq!(words(" a  b\tc "), vec!["a", "b", "c"]);
    assert_eq!(split("a,,b", ','), vec!["a", "", "b"]);
    assert_eq!(join(&vec!["a".to_string(), "b".to_string()], ", "), "a, b");
    assert!(same_ignoring_case("YES", "yes"));
    assert!(!same_ignoring_case("É", "é"));
    assert_eq!(title_case("one_two"), "One Two");
    assert_eq!(decimal_of(1207), "1207");
    assert_eq!(signed_decimal_of(i64::MIN), i64::MIN.to_string());
    assert_eq!(truncate_text("abc", 2), "ab…");
    assert_eq!(byte_length("字a"), 4);
}

#[test]
fn texts_are_ordered_as_in_the_dictionary() {
    assert!(is_before("a", "b"));
    assert!(is_before("a", "aa"));
    assert!(!is_before("a", "a"));
    assert!(is_before("Z", "a"));
    let mut v: Vec<String> = Vec::new();
    for s in ["b", "a", "c", "a"] {
        insert_text(&mut v, s);
    }
    assert_eq!(v, vec!["a", "b", "c"]);
}

#[test]
fn file_names_are_taken_apart() {
    assert_eq!(file_stem("a.b.jsonl"), "a.b");
    assert_eq!(extension("a.b.jsonl").as_deref(), Some("jsonl"));
    assert_eq!(file_stem(".hidden"), ".hidden");
    assert_eq!(extension(".hidden"), None);
    assert_eq!(child_path("/a", "b"), "/a/b");
    assert_eq!(child_path("/a/", "b"), "/a/b");
}

#[test]
fn agents_are_known_by_their_names() {
    for agent in Agent::all() {
        assert_eq!(Agent::parse(agent.as_str()), Some(agent));
    }
    assert_eq!(Agent::parse("Codex"), None);
}
