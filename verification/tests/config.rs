use citebot::config::{
    data_dir, is_config_file, load_bot_configs, port, record_file_names, BotConfig, CONFIG_DIR,
};
use citebot::directory::Directory;
use std::path::Path;

fn bot(name: &str, token: &str) -> BotConfig {
    BotConfig {
        bot_name: name.to_string(),
        telegram_bot_token: token.to_string(),
        telegram_secret_token: "secret".to_string(),
        openai_assistant_id: "asst".to_string(),
        vector_store_id: "vs".to_string(),
    }
}

#[test]
fn configuration_files_are_known_by_their_extension() {
    for name in [
        "a.json", ".json", "json", "a.JSON", "a.json.bak", "a.b.json", "..json", "x.jsonx",
        "a.jso", "é.json", "a", "", "a.", ".a.json", "json.json",
    ] {
        let expected = Path::new("bot_config").join(name);
        let expected = expected.extension().and_then(|s| s.to_str()) == Some("json");
        if !name.is_empty() {
            assert_eq!(is_config_file(name.as_bytes()), expected, "{}", name);
        }
    }
    assert!(is_config_file(&[0xff, b'.', b'j', b's', b'o', b'n']));
    assert_eq!(CONFIG_DIR, "bot_config");
}

#[test]
fn bots_are_found_under_their_names() {
    let bots = load_bot_configs(vec![bot("a", "1"), bot("b", "2"), bot("a", "3")]);
    assert_eq!(bots.len(), 2);
    assert_eq!(bots.get("a").unwrap().telegram_bot_token, "3");
    assert_eq!(bots.get("b").unwrap().telegram_bot_token, "2");
    assert!(bots.get("c").is_none());
    assert_eq!(load_bot_configs(vec![]).len(), 0);
}

#[test]
fn entries_are_listed_once() {
    let mut d: Directory<u8> = Directory::new();
    d.insert("x".to_string(), 1);
    d.insert("y".to_string(), 2);
    d.insert("x".to_string(), 3);
    assert_eq!(d.len(), 2);
    assert_eq!(d.entry(0), Some(("x", &3)));
    assert_eq!(d.entry(1), Some(("y", &2)));
    assert_eq!(d.entry(2), None);
}

#[test]
fn file_names_are_recorded_where_they_were_loaded() {
    let mut files = Directory::new();
    record_file_names(&mut files, "a", Some(vec!["f".to_string()]));
    record_file_names(&mut files, "b", None);
    assert_eq!(files.get("a"), Some(&vec!["f".to_string()]));
    assert!(files.get("b").is_none());
    record_file_names(&mut files, "a", None);
    assert_eq!(files.len(), 1);
}

#[test]
fn the_data_directory_has_a_default() {
    assert_eq!(data_dir(None), "./data");
    assert_eq!(data_dir(Some("/srv".to_string())), "/srv");
}

#[test]
fn the_port_has_a_default_and_must_be_a_number() {
    assert_eq!(port(None), Some(8080));
    assert_eq!(port(Some("80")), Some(80));
    assert_eq!(port(Some("+80")), Some(80));
    assert_eq!(port(Some("65536")), None);
    assert_eq!(port(Some("http")), None);
    assert_eq!(port(Some("")), None);
}

#[test]
fn a_copied_configuration_is_the_same() {
    let b = bot("a", "t").clone();
    assert_eq!(b.bot_name, "a");
    assert_eq!(b.telegram_bot_token, "t");
    assert_eq!(b.telegram_secret_token, "secret");
    assert_eq!(b.openai_assistant_id, "asst");
    assert_eq!(b.vector_store_id, "vs");
}
