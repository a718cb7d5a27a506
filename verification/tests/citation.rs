use citebot::citation::{cite, replace_citations};
use citebot::directory::Directory;

fn files(bot: &str, names: &[&str]) -> Directory<Vec<String>> {
    let mut files = Directory::new();
    files.insert(bot.to_string(), names.iter().map(|n| n.to_string()).collect());
    files
}

#[test]
fn a_marker_becomes_the_name_of_its_file() {
    let f = files("bot", &["one.pdf", "two.pdf"]);
    assert_eq!(
        replace_citations("See 【2:13†source】 and 【1:0†source】.", "bot", &f),
        "See 【two.pdf†source】 and 【one.pdf†source】."
    );
    assert_eq!(
        replace_citations("【01:0†source】【2:1†source】", "bot", &f),
        "【one.pdf†source】【two.pdf†source】"
    );
}

#[test]
fn a_marker_that_numbers_no_file_stays() {
    let f = files("bot", &["one.pdf", "two.pdf"]);
    for s in [
        "【0:1†source】",
        "【3:1†source】",
        "【99999999999999999999999:1†source】",
        "【٣:1†source】",
    ] {
        assert_eq!(replace_citations(s, "bot", &f), s);
    }
}

#[test]
fn digits_beyond_ascii_are_digits_of_a_marker() {
    let f = files("bot", &["one.pdf"]);
    assert_eq!(replace_citations("【1:٣†source】", "bot", &f), "【one.pdf†source】");
    assert_eq!(replace_citations("【1:½†source】", "bot", &f), "【1:½†source】");
}

#[test]
fn what_is_no_marker_stays() {
    let f = files("bot", &["one.pdf"]);
    for s in [
        "",
        "plain text",
        "【1†source】",
        "【1:†source】",
        "【:1†source】",
        "【1:1†sources】",
        "【1:1source】",
        "[1:1†source]",
        "【1:1 †source】",
        "【a1:1†source】",
    ] {
        assert_eq!(replace_citations(s, "bot", &f), s);
    }
    assert_eq!(
        replace_citations("【【1:1†source】†source】", "bot", &f),
        "【【one.pdf†source】†source】"
    );
    assert_eq!(
        replace_citations("【1:1【1:2†source】", "bot", &f),
        "【1:1【one.pdf†source】"
    );
}

#[test]
fn without_names_a_text_stays() {
    let f = files("bot", &["one.pdf"]);
    let s = "【1:1†source】";
    assert_eq!(replace_citations(s, "other", &f), s);
    assert_eq!(replace_citations(s, "bot", &files("bot", &[])), s);
}

#[test]
fn a_name_is_taken_as_it_stands() {
    let f = files("bot", &["$0 【1:1†source】"]);
    assert_eq!(
        replace_citations("【1:1†source】", "bot", &f),
        "【$0 【1:1†source】†source】"
    );
}

#[test]
fn one_marker_is_cited_by_its_number() {
    let names = vec!["a".to_string(), "b".to_string()];
    assert_eq!(cite("m", "2", Some(&names)), "【b†source】");
    assert_eq!(cite("m", "0", Some(&names)), "m");
    assert_eq!(cite("m", "3", Some(&names)), "m");
    assert_eq!(cite("m", "x", Some(&names)), "m");
    assert_eq!(cite("m", "1", None), "m");
}

#[test]
fn citing_twice_is_citing_once() {
    let f = files("bot", &["one.pdf", "7", "a 】 b", ""]);
    for s in [
        "【1:0†source】 【2:1†source】【3:1†source】【4:1†source】【5:1†source】",
        "【【2:1†source】:1†source】",
        "【1【2:1†source】:1†source】",
        "【2:【2:1†source】†source】",
        "【1:0†source【1:0†source】",
    ] {
        let once = replace_citations(s, "bot", &f);
        assert_eq!(replace_citations(&once, "bot", &f), once, "{}", s);
    }
    let g = files("bot", &["1:2"]);
    let once = replace_citations("【1:0†source】", "bot", &g);
    assert_eq!(once, "【1:2†source】");
}
