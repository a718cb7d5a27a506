use citebot::config::BotConfig;
use citebot::context::{Lookup, Timestamp, UserContext};
use citebot::conversation::{Attempt, Conversation, Event, Stage};
use citebot::directory::Directory;
use citebot::http::{Body, Method, Request};
use citebot::json::Json;
use citebot::webhook::Job;

fn job(user_id: Option<i64>) -> Job {
    Job {
        chat_id: 5,
        prompt: "why?".to_string(),
        user_id,
        bot_name: "bot".to_string(),
        config: BotConfig {
            bot_name: "bot".to_string(),
            telegram_bot_token: "tg".to_string(),
            telegram_secret_token: "secret".to_string(),
            openai_assistant_id: "asst_1".to_string(),
            vector_store_id: "vs_1".to_string(),
        },
    }
}

fn files() -> Directory<Vec<String>> {
    let mut files = Directory::new();
    files.insert("bot".to_string(), vec!["f.pdf".to_string()]);
    files
}

fn stored() -> Lookup {
    Lookup::Found(UserContext {
        thread_id: "old".to_string(),
        last_inquiry: Timestamp::new(0, 0).unwrap(),
    })
}

fn looked_up(lookup: Lookup) -> Event {
    Event::LookedUp(lookup, Timestamp::new(599, 999_999_999).unwrap())
}

fn start(user_id: Option<i64>) -> Conversation {
    Conversation::start(job(user_id), "key".to_string())
}

fn step(c: Conversation, event: Event) -> Conversation {
    c.advance(event, &files())
}

fn listening(user_id: Option<i64>) -> Conversation {
    let mut c = start(user_id);
    if user_id.is_some() {
        c = step(c, looked_up(stored()));
        c = step(c, Event::Attempted(Attempt::Answered(Vec::new())));
    } else {
        c = step(c, Event::Attempted(Attempt::Answered(b"{\"id\":\"new\"}".to_vec())));
    }
    step(c, Event::Started(true))
}

fn chunk(text: &str) -> Event {
    let data = format!(
        "data: {{\"delta\":{{\"content\":[{{\"text\":{{\"value\":{:?}}}}}]}}}}\n\n",
        text
    );
    Event::Chunk(data.into_bytes())
}

fn check_post(request: &Request, url: &str) -> String {
    assert_eq!(request.method, Method::Post);
    assert_eq!(request.url, url);
    assert_eq!(request.bearer, Some("key".to_string()));
    assert_eq!(
        request.headers,
        vec![("OpenAI-Beta".to_string(), "assistants=v2".to_string())]
    );
    match &request.body {
        Body::Json(j) => format!("{:?}", j),
        _ => panic!("no document"),
    }
}

fn text(s: &str) -> Json {
    Json::Text(s.to_string())
}

fn object(members: Vec<(&str, Json)>) -> Json {
    Json::Object(members.into_iter().map(|(k, v)| (k.to_string(), v)).collect())
}

#[test]
fn a_stranger_opens_a_thread() {
    let c = start(None);
    let message = object(vec![("content", text("why?")), ("role", text("user"))]);
    let search = object(vec![("vector_store_ids", Json::Array(vec![text("vs_1")]))]);
    let expected = object(vec![
        ("messages", Json::Array(vec![message])),
        ("tool_resources", object(vec![("file_search", search)])),
    ]);
    match c.stage() {
        Stage::Open { request } => {
            let body = check_post(request, "https://api.openai.com/v1/threads");
            assert_eq!(body, format!("{:?}", expected));
        }
        other => panic!("{:?}", other),
    }
}

#[test]
fn a_known_user_is_looked_up_first() {
    let c = start(Some(7));
    assert!(matches!(c.stage(), Stage::LookUp { user_id: 7 }));
    assert_eq!(c.job().chat_id, 5);
}

#[test]
fn a_stored_thread_is_resumed() {
    let c = step(start(Some(7)), looked_up(stored()));
    let expected = object(vec![("content", text("why?")), ("role", text("user"))]);
    match c.stage() {
        Stage::Ask { thread_id, request } => {
            assert_eq!(thread_id, "old");
            let body = check_post(request, "https://api.openai.com/v1/threads/old/messages");
            assert_eq!(body, format!("{:?}", expected));
        }
        other => panic!("{:?}", other),
    }
}

#[test]
fn without_a_stored_thread_one_is_opened() {
    for lookup in [Lookup::Missing, Lookup::Failed] {
        let c = step(start(Some(7)), looked_up(lookup));
        assert!(matches!(c.stage(), Stage::Open { .. }));
    }
}

#[test]
fn a_thread_is_resumed_for_less_than_ten_minutes() {
    for (secs, resumed) in [(-5, true), (0, true), (599, true), (600, false), (601, false)] {
        let now = Timestamp::new(secs, 0).unwrap();
        let c = step(start(Some(7)), Event::LookedUp(stored(), now));
        assert_eq!(matches!(c.stage(), Stage::Ask { .. }), resumed, "{}", secs);
        assert_eq!(matches!(c.stage(), Stage::Open { .. }), !resumed, "{}", secs);
    }
}

#[test]
fn a_run_is_started_on_the_thread() {
    let c = step(
        start(None),
        Event::Attempted(Attempt::Answered(b"{\"id\":\"new\"}".to_vec())),
    );
    let expected = object(vec![("assistant_id", text("asst_1")), ("stream", Json::Bool(true))]);
    match c.stage() {
        Stage::Run { thread_id, request } => {
            assert_eq!(thread_id, "new");
            let body = check_post(request, "https://api.openai.com/v1/threads/new/runs");
            assert_eq!(body, format!("{:?}", expected));
        }
        other => panic!("{:?}", other),
    }
    let c = step(start(Some(7)), looked_up(stored()));
    let c = step(c, Event::Attempted(Attempt::Answered(b"anything".to_vec())));
    assert!(matches!(c.stage(), Stage::Run { thread_id, .. } if thread_id == "old"));
}

fn apology(c: &Conversation) -> String {
    match c.stage() {
        Stage::Apologise { text } => text.clone(),
        other => panic!("{:?}", other),
    }
}

#[test]
fn a_failed_message_is_reported_and_ends_the_job() {
    let c = step(start(Some(7)), looked_up(stored()));
    let c = step(c, Event::Attempted(Attempt::Failed));
    assert_eq!(apology(&c), "Error creating message");
    let c = step(c, Event::Told);
    assert!(matches!(c.stage(), Stage::Over));
    let c = step(c, Event::Clock(Timestamp::new(1, 0).unwrap()));
    assert!(matches!(c.stage(), Stage::Over));
}

#[test]
fn a_failed_thread_is_reported() {
    let c = step(start(None), Event::Attempted(Attempt::Failed));
    assert_eq!(apology(&c), "Error creating thread");
    let c = step(start(None), Event::Attempted(Attempt::Answered(b"<html>".to_vec())));
    assert_eq!(apology(&c), "Error creating thread");
}

#[test]
fn a_failed_run_is_reported() {
    let c = step(
        start(None),
        Event::Attempted(Attempt::Answered(b"{\"id\":\"new\"}".to_vec())),
    );
    let c = step(c, Event::Started(false));
    assert_eq!(apology(&c), "Error creating run");
}

#[test]
fn the_answer_is_told_and_the_thread_remembered() {
    let c = listening(Some(7));
    assert!(matches!(c.stage(), Stage::Listen { thread_id } if thread_id == "old"));
    let c = step(c, chunk("A 【1:2†source】\n\nB\n\nC"));
    assert!(matches!(c.stage(), Stage::Tell { text, .. } if text == "A 【f.pdf†source】"));
    let c = step(c, Event::Told);
    assert!(matches!(c.stage(), Stage::Tell { text, .. } if text == "B"));
    let c = step(c, Event::Told);
    assert!(matches!(c.stage(), Stage::Listen { .. }));
    let c = step(c, Event::Chunk(b"data: [DONE]\n\n".to_vec()));
    assert!(matches!(c.stage(), Stage::TellRest { text, .. } if text == "C"));
    let c = step(c, Event::Told);
    assert!(matches!(c.stage(), Stage::ReadClock { user_id: 7, .. }));
    let c = step(c, Event::Clock(Timestamp::new(99, 5).unwrap()));
    match c.stage() {
        Stage::Store { user_id, context } => {
            assert_eq!(*user_id, 7);
            assert_eq!(context.thread_id, "old");
            assert_eq!(context.last_inquiry.secs(), 99);
            assert_eq!(context.last_inquiry.nanos(), 5);
        }
        other => panic!("{:?}", other),
    }
    assert!(matches!(step(c, Event::Stored).stage(), Stage::Over));
}

#[test]
fn a_stranger_is_not_remembered() {
    let c = step(listening(None), Event::StreamOver);
    assert!(matches!(c.stage(), Stage::Over));
}

#[test]
fn when_the_time_is_up_the_rest_is_told() {
    let c = step(listening(Some(7)), chunk("A\n\nB\n\nC"));
    assert!(matches!(c.stage(), Stage::Tell { text, .. } if text == "A"));
    let c = step(c, Event::TimedOut);
    assert!(matches!(c.stage(), Stage::TellRest { text, .. } if text == "B\n\nC"));
    let c = step(listening(Some(7)), chunk("A"));
    let c = step(c, Event::TimedOut);
    assert!(matches!(c.stage(), Stage::TellRest { text, .. } if text == "A"));
    let c = step(listening(Some(7)), Event::TimedOut);
    assert!(matches!(c.stage(), Stage::ReadClock { thread_id, .. } if thread_id == "old"));
}

#[test]
fn what_was_not_asked_for_changes_nothing() {
    let c = step(start(None), Event::Told);
    assert!(matches!(c.stage(), Stage::Open { .. }));
    let c = step(listening(None), Event::Started(false));
    assert!(matches!(c.stage(), Stage::Listen { .. }));
}

fn relay(chunks: Vec<Event>) -> Vec<String> {
    let mut texts = Vec::new();
    let mut c = listening(Some(7));
    for event in chunks {
        if !matches!(c.stage(), Stage::Listen { .. }) {
            break;
        }
        c = step(c, event);
        while let Stage::Tell { text, .. } = c.stage() {
            texts.push(text.clone());
            c = step(c, Event::Told);
        }
    }
    if matches!(c.stage(), Stage::Listen { .. }) {
        c = step(c, Event::StreamOver);
    }
    if let Stage::TellRest { text, .. } = c.stage() {
        texts.push(text.clone());
        c = step(c, Event::Told);
    }
    assert!(matches!(c.stage(), Stage::ReadClock { user_id: 7, .. }));
    texts
}

#[test]
fn the_whole_answer_is_told_however_it_is_cut() {
    let answer = " A 【1:0†source】\n\n\n\nB\n\n \n\nC 【1:0†source】 ";
    let expected = vec!["A 【f.pdf†source】", "B", "C 【1:0†source】"];
    let chars: Vec<char> = answer.chars().collect();
    for size in 1..=chars.len() {
        let mut chunks: Vec<Event> = chars
            .chunks(size)
            .map(|piece| chunk(&piece.iter().collect::<String>()))
            .collect();
        assert_eq!(relay(chunks), expected);
        chunks = chars
            .chunks(size)
            .map(|piece| chunk(&piece.iter().collect::<String>()))
            .collect();
        chunks.push(Event::Chunk(b"data: [DONE]\n\n".to_vec()));
        chunks.push(chunk("never\n\nheard"));
        assert_eq!(relay(chunks), expected);
    }
    assert!(relay(vec![chunk(" \n\n "), chunk("\n")]).is_empty());
}
