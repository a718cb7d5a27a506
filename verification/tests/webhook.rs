use citebot::config::{load_bot_configs, BotConfig};
use citebot::context::{Lookup, Timestamp, UserContext};
use citebot::directory::Directory;
use citebot::http::{Body, Method};
use citebot::json::Json;
use citebot::telegram::{plan_webhook, send_reply, webhook_url, Chat, Message, Update, User};
use citebot::webhook::{route, Delivery, Intake, IntakeEvent};

fn bot(name: &str) -> BotConfig {
    BotConfig {
        bot_name: name.to_string(),
        telegram_bot_token: "123:abc".to_string(),
        telegram_secret_token: "hush".to_string(),
        openai_assistant_id: "asst".to_string(),
        vector_store_id: "vs".to_string(),
    }
}

fn bots() -> Directory<BotConfig> {
    load_bot_configs(vec![bot("alpha")])
}

fn update(text: Option<&str>, from: Option<i64>) -> Update {
    Update {
        update_id: 1,
        message: Some(Message {
            message_id: 2,
            from: from.map(|id| User { id, first_name: "Ada".to_string() }),
            chat: Chat { id: 9 },
            date: 3,
            text: text.map(|t| t.to_string()),
        }),
    }
}

fn receive(update: Update) -> Intake {
    Intake::start("/alpha/webhook", &bots())
        .advance(IntakeEvent::Received(Delivery::Report(update)))
}

fn reply_of(intake: Intake) -> (u16, String) {
    match intake {
        Intake::Respond { reply } => (reply.status, reply.body),
        other => panic!("{:?}", other),
    }
}

#[test]
fn a_path_names_its_bot() {
    assert_eq!(route("/alpha/webhook"), Some("alpha".to_string()));
    assert_eq!(route("alpha/webhook/"), Some("alpha".to_string()));
    assert_eq!(route("//alpha/webhook/more"), Some("alpha".to_string()));
    assert_eq!(route("/webhook/webhook"), Some("webhook".to_string()));
    assert_eq!(route("/alpha/webhook//"), Some("alpha".to_string()));
}

#[test]
fn other_paths_name_no_bot() {
    for path in [
        "", "/", "/alpha", "/webhook", "//webhook", "/alpha//webhook", "/alpha/Webhook",
        "/alpha/webhooks", "/a/b/webhook",
    ] {
        assert_eq!(route(path), None, "{}", path);
    }
}

#[test]
fn the_registered_path_leads_to_its_bot() {
    for name in ["alpha", "b", "ünï", "a b", "webhook"] {
        let url = webhook_url("https://example.org", name);
        assert_eq!(url, format!("https://example.org/{}/webhook", name));
        assert_eq!(route(&url["https://example.org".len()..]), Some(name.to_string()));
    }
}

#[test]
fn unknown_paths_are_refused() {
    let r = Intake::start("/nowhere", &bots());
    assert_eq!(reply_of(r), (404, "Not Found".to_string()));
    let r = Intake::start("/beta/webhook", &bots());
    assert_eq!(reply_of(r), (404, "Bot not found".to_string()));
    let r = Intake::start("/nowhere", &bots()).advance(IntakeEvent::Launched);
    assert_eq!(reply_of(r), (404, "Not Found".to_string()));
}

#[test]
fn unreadable_deliveries_are_refused() {
    for delivery in [Delivery::Unreadable, Delivery::Malformed] {
        let r = Intake::start("/alpha/webhook", &bots());
        assert!(matches!(&r, Intake::Receive { bot_name, .. } if bot_name == "alpha"));
        let r = r.advance(IntakeEvent::Received(delivery));
        assert_eq!(reply_of(r), (400, "Bad Request".to_string()));
    }
}

#[test]
fn reports_without_a_text_need_nothing() {
    assert_eq!(reply_of(receive(update(None, Some(1)))), (200, "OK".to_string()));
    let empty = Update { update_id: 1, message: None };
    assert_eq!(reply_of(receive(empty)), (200, "OK".to_string()));
}

#[test]
fn a_message_of_a_stranger_is_launched() {
    let r = receive(update(Some("hi"), None));
    match &r {
        Intake::Launch { job } => {
            assert_eq!(job.chat_id, 9);
            assert_eq!(job.prompt, "hi");
            assert_eq!(job.user_id, None);
            assert_eq!(job.bot_name, "alpha");
            assert_eq!(job.config.vector_store_id, "vs");
            assert_eq!(job.clone().prompt, "hi");
        }
        other => panic!("{:?}", other),
    }
    assert_eq!(reply_of(r.advance(IntakeEvent::Launched)), (200, "OK".to_string()));
}

#[test]
fn the_context_of_a_user_is_swept_before_the_launch() {
    let found = |secs: i64| {
        Lookup::Found(UserContext {
            thread_id: "t".to_string(),
            last_inquiry: Timestamp::new(secs, 0).unwrap(),
        })
    };
    let now = Timestamp::new(1000, 0).unwrap();
    let r = receive(update(Some("hi"), Some(4)));
    assert!(matches!(&r, Intake::LookUp { user_id: 4, .. }));
    let r = r.advance(IntakeEvent::LookedUp(found(399), now));
    assert!(matches!(&r, Intake::Remove { user_id: 4, .. }));
    let r = r.advance(IntakeEvent::Removed);
    assert!(matches!(&r, Intake::Launch { job } if job.user_id == Some(4)));
    for lookup in [found(400), Lookup::Missing, Lookup::Failed] {
        let r = receive(update(Some("hi"), Some(4))).advance(IntakeEvent::LookedUp(lookup, now));
        assert!(matches!(&r, Intake::Launch { .. }));
    }
}

#[test]
fn a_reply_is_sent_by_its_bot() {
    let r = send_reply(-12, "hello", "alpha", &bots()).unwrap();
    assert_eq!(r.method, Method::Post);
    assert_eq!(r.url, "https://api.telegram.org/bot123:abc/sendMessage");
    assert_eq!(r.bearer, None);
    assert!(r.headers.is_empty());
    match r.body {
        Body::Json(j) => {
            assert!(matches!(j.get("chat_id"), Some(Json::Number(n)) if n == "-12"));
            assert!(matches!(j.get("text"), Some(Json::Text(t)) if t == "hello"));
        }
        _ => panic!("no document"),
    }
    assert!(send_reply(1, "hello", "beta", &bots()).is_none());
}

#[test]
fn a_webhook_is_moved_in_three_requests() {
    let p = plan_webhook("https://d.example", "alpha", &bot("alpha"));
    assert_eq!(p.info.method, Method::Get);
    assert_eq!(p.info.url, "https://api.telegram.org/bot123:abc/getWebhookInfo");
    assert!(matches!(p.info.body, Body::Empty));
    assert_eq!(p.delete.method, Method::Post);
    assert_eq!(p.delete.url, "https://api.telegram.org/bot123:abc/deleteWebhook");
    assert!(matches!(p.delete.body, Body::Empty));
    assert_eq!(p.set.method, Method::Post);
    assert_eq!(p.set.url, "https://api.telegram.org/bot123:abc/setWebhook");
    match p.set.body {
        Body::Form(pairs) => assert_eq!(
            pairs,
            vec![
                ("url".to_string(), "https://d.example/alpha/webhook".to_string()),
                ("secret_token".to_string(), "hush".to_string()),
                ("allowed_updates".to_string(), "[\"message\"]".to_string()),
            ]
        ),
        _ => panic!("no form"),
    }
}
