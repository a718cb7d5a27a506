use citebot::directory::Directory;
use citebot::paragraph::Answer;
use citebot::stream::{process_chunk, process_event_block, process_line, STREAM_SECONDS};

fn event(texts: &[&str]) -> String {
    let parts: Vec<String> = texts
        .iter()
        .map(|t| format!("{{\"type\":\"text\",\"text\":{{\"value\":{:?}}}}}", t))
        .collect();
    format!("data: {{\"delta\":{{\"content\":[{}]}}}}", parts.join(","))
}

fn no_files() -> Directory<Vec<String>> {
    Directory::new()
}

fn all_replies(answer: &mut Answer, files: &Directory<Vec<String>>) -> Vec<String> {
    let mut r = Vec::new();
    while let Some(s) = answer.next_reply("bot", files) {
        r.push(s);
    }
    r
}

#[test]
fn a_line_with_data_is_heard() {
    let h = process_line(&event(&["a", "b"]));
    assert_eq!(h.texts, vec!["a".to_string(), "b".to_string()]);
    assert!(!h.done);
}

#[test]
fn the_end_of_the_answer_is_heard() {
    for line in ["data: [DONE]", "data:[DONE]", "data:\t[DONE]  ", "data:data: [DONE]"] {
        let h = process_line(line);
        assert!(h.done, "{}", line);
        assert!(h.texts.is_empty());
    }
}

#[test]
fn other_lines_hold_nothing() {
    for line in [
        "", "event: thread.message.delta", " data: [DONE]", "data", "data: nonsense",
        "data: {\"delta\":1}", "data: {\"delta\":{\"content\":{}}}", "data: {}", "data: [1]",
        "data: data: [DONE]", "data:",
    ] {
        let h = process_line(line);
        assert!(!h.done, "{}", line);
        assert!(h.texts.is_empty(), "{}", line);
    }
}

#[test]
fn a_block_is_heard_up_to_the_end() {
    let block = format!("event: x\n{}\ndata: [DONE]\n{}", event(&["a"]), event(&["b"]));
    let h = process_event_block(&block);
    assert_eq!(h.texts, vec!["a".to_string()]);
    assert!(h.done);
    let block = format!("{}\r\n{}", event(&["a"]), event(&["b"]));
    let h = process_event_block(&block);
    assert_eq!(h.texts, vec!["a".to_string(), "b".to_string()]);
    assert!(!h.done);
}

#[test]
fn a_chunk_is_heard_block_by_block() {
    let chunk = format!(
        "event: x\r\n{}\r\n\r\n   \r\n\r\n{}\n\ndata: [DONE]\n\n{}\n\n",
        event(&["a"]),
        event(&["b", "c"]),
        event(&["d"])
    );
    let h = process_chunk(chunk.as_bytes());
    assert_eq!(h.texts, vec!["a".to_string(), "b".to_string(), "c".to_string()]);
    assert!(h.done);
}

#[test]
fn a_chunk_that_is_no_text_holds_nothing() {
    let mut chunk = event(&["a"]).into_bytes();
    chunk.push(0xc3);
    let h = process_chunk(&chunk);
    assert!(h.texts.is_empty());
    assert!(!h.done);
}

#[test]
fn paragraphs_come_out_as_they_end() {
    let mut a = Answer::new();
    a.feed(event(&["One", " two\n"]).as_bytes());
    assert!(all_replies(&mut a, &no_files()).is_empty());
    assert_eq!(a.rest(), Some("One two".to_string()));
    a.feed(event(&["\nThree\n\n\n\n  \n\nFour"]).as_bytes());
    assert_eq!(
        all_replies(&mut a, &no_files()),
        vec!["One two".to_string(), "Three".to_string()]
    );
    assert_eq!(a.rest(), Some("Four".to_string()));
    assert!(!a.has_ended());
    a.feed(b"data: [DONE]\n\n");
    assert!(a.has_ended());
    assert!(all_replies(&mut a, &no_files()).is_empty());
}

#[test]
fn how_the_answer_is_cut_does_not_matter() {
    let text = "alpha\n\nbeta\n\n\ngamma\n \n\n\ndelta";
    let mut whole = Answer::new();
    whole.feed(event(&[text]).as_bytes());
    let expected = all_replies(&mut whole, &no_files());
    assert_eq!(expected, vec!["alpha", "beta", "gamma"]);
    for size in 1..text.len() {
        let mut a = Answer::new();
        let mut replies = Vec::new();
        let c: Vec<char> = text.chars().collect();
        for piece in c.chunks(size) {
            let piece: String = piece.iter().collect();
            a.feed(event(&[&piece]).as_bytes());
            replies.extend(all_replies(&mut a, &no_files()));
        }
        assert_eq!(replies, expected);
        assert_eq!(a.rest(), whole.rest());
        assert_eq!(a.rest(), Some("delta".to_string()));
    }
}

#[test]
fn paragraphs_are_cited_and_the_rest_is_not() {
    let mut files = Directory::new();
    files.insert("bot".to_string(), vec!["f.pdf".to_string()]);
    let mut a = Answer::new();
    a.feed(event(&["x 【1:0†source】\n\ny 【1:0†source】"]).as_bytes());
    assert_eq!(a.next_reply("bot", &files), Some("x 【f.pdf†source】".to_string()));
    assert_eq!(a.next_reply("bot", &files), None);
    assert_eq!(a.rest(), Some("y 【1:0†source】".to_string()));
}

#[test]
fn a_paragraph_can_be_had_without_citations() {
    let mut a = Answer::new();
    a.feed(event(&["x 【1:0†source】\n\n"]).as_bytes());
    assert_eq!(a.next_paragraph(), Some("x 【1:0†source】".to_string()));
    assert_eq!(a.next_paragraph(), None);
    assert_eq!(a.rest(), None);
}

#[test]
fn the_answer_is_listened_to_for_half_a_minute() {
    assert_eq!(STREAM_SECONDS, 30);
}
