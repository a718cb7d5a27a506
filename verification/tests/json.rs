use citebot::json::{collect_texts, parse_json, parse_json_bytes, Json};
use citebot::openai::{created_thread, thread_id};
use citebot::stream::event_texts;

fn text(s: &str) -> Json {
    Json::Text(s.to_string())
}

fn object(members: Vec<(&str, Json)>) -> Json {
    Json::Object(members.into_iter().map(|(k, v)| (k.to_string(), v)).collect())
}

#[test]
fn documents_are_read_into_trees() {
    let j = parse_json("{\"b\":[1,-2.5,null,true,\"x\\u00e9\"],\"a\":{}}").unwrap();
    match &j {
        Json::Object(members) => assert_eq!(members.len(), 2),
        _ => panic!("no object"),
    }
    match j.get("b") {
        Some(Json::Array(items)) => {
            assert!(matches!(&items[0], Json::Number(n) if n == "1"));
            assert!(matches!(&items[1], Json::Number(n) if n == "-2.5"));
            assert!(matches!(&items[2], Json::Null));
            assert!(matches!(&items[3], Json::Bool(true)));
            assert!(matches!(&items[4], Json::Text(s) if s == "xé"));
            assert_eq!(items.len(), 5);
        }
        _ => panic!("no array"),
    }
    assert!(matches!(j.get("a"), Some(Json::Object(m)) if m.is_empty()));
    assert!(j.get("c").is_none());
}

#[test]
fn of_two_members_with_one_name_the_later_is_read() {
    let j = parse_json("{\"a\":\"x\",\"a\":\"y\"}").unwrap();
    assert!(matches!(j.get("a"), Some(Json::Text(s)) if s == "y"));
}

#[test]
fn what_is_no_document_is_refused() {
    for s in ["", "{", "[1,]", "{\"a\":1} x", "nul", "[DONE]"] {
        assert!(parse_json(s).is_none(), "{}", s);
        assert!(parse_json_bytes(s.as_bytes()).is_none(), "{}", s);
    }
    assert!(parse_json_bytes(&[b'"', 0xff, b'"']).is_none());
    assert!(matches!(parse_json_bytes(b" \"a\" "), Some(Json::Text(s)) if s == "a"));
}

#[test]
fn bytes_are_read_as_serde_json_reads_them() {
    let samples: [&[u8]; 6] = [
        b"{}",
        b"\"\xc3\xa9\"",
        b"\"\xc3\"",
        b"\xef\xbb\xbf{}",
        b"[\"\\ud800\"]",
        b"12 ",
    ];
    for s in samples {
        let expected = serde_json::from_slice::<serde_json::Value>(s).is_ok();
        assert_eq!(parse_json_bytes(s).is_some(), expected);
    }
}

#[test]
fn members_are_reached_along_a_path() {
    let j = object(vec![("a", object(vec![("b", text("x")), ("c", Json::Null)]))]);
    assert_eq!(j.text_along(&["a", "b"]), Some(&"x".to_string()));
    assert!(j.text_along(&["a", "c"]).is_none());
    assert!(j.text_along(&["a"]).is_none());
    assert!(j.text_along(&["b", "a"]).is_none());
    assert!(matches!(j.at(&["a", "c"]), Some(Json::Null)));
    assert!(matches!(j.at(&[]), Some(Json::Object(_))));
    assert!(j.items_along(&["a"]).is_none());
}

#[test]
fn items_without_the_text_are_passed_over() {
    let items = vec![
        object(vec![("n", text("a"))]),
        object(vec![("n", Json::Null)]),
        text("n"),
        object(vec![("m", text("b"))]),
        object(vec![("n", text("c"))]),
    ];
    assert_eq!(collect_texts(&items, &["n"]), vec!["a".to_string(), "c".to_string()]);
}

#[test]
fn a_thread_is_named_by_its_id() {
    assert_eq!(thread_id(&object(vec![("id", text("thread_1"))])), "thread_1");
    assert_eq!(thread_id(&object(vec![("id", Json::Number("1".to_string()))])), "");
    assert_eq!(thread_id(&object(vec![("error", text("x"))])), "");
    assert_eq!(thread_id(&Json::Null), "");
    assert_eq!(created_thread(b"{\"id\":\"t\"}"), Some("t".to_string()));
    assert_eq!(created_thread(b"{\"error\":{}}"), Some(String::new()));
    assert_eq!(created_thread(b"<html>"), None);
}

#[test]
fn the_texts_of_an_event_are_those_of_its_content() {
    let part = |s: &str| object(vec![("text", object(vec![("value", text(s))]))]);
    let event = |content: Json| object(vec![("delta", object(vec![("content", content)]))]);
    assert_eq!(
        event_texts(&event(Json::Array(vec![part("a"), Json::Null, part("b")]))),
        vec!["a".to_string(), "b".to_string()]
    );
    assert!(event_texts(&event(text("a"))).is_empty());
    assert!(event_texts(&object(vec![("content", Json::Array(vec![part("a")]))])).is_empty());
    assert!(event_texts(&object(vec![("delta", Json::Null)])).is_empty());
}
