//! What the chat service sends, and what is asked of it.

use crate::config::BotConfig;
use crate::config::BotConfigView;
use crate::decimal::integer;
use crate::decimal::integer_text;
use crate::directory::Directory;
use crate::http::no_pairs;
use crate::http::with_pair;
use crate::http::Body;
use crate::http::BodyView;
use crate::http::Method;
use crate::http::Request;
use crate::http::RequestView;
use crate::json::json_object2;
use crate::json::json_text;
use crate::json::Json;
use crate::json::JsonView;
use crate::text::join;
use crate::text::join3;
use vstd::prelude::*;

verus! {

/// A person.
#[derive(Debug)]
pub struct User {
    pub id: i64,
    pub first_name: String,
}

/// A chat.
#[derive(Debug)]
pub struct Chat {
    pub id: i64,
}

/// A message in a chat.
#[derive(Debug)]
pub struct Message {
    pub message_id: i64,
    pub from: Option<User>,
    pub chat: Chat,
    pub date: i64,
    pub text: Option<String>,
}

/// A report of the chat service.
#[derive(Debug)]
pub struct Update {
    pub update_id: i64,
    pub message: Option<Message>,
}

/// Where the methods of a bot stand, up to its token.
pub const BOT_URL: &'static str = "https://api.telegram.org/bot";

/// The address of a method of a bot.
pub open spec fn method_url(token: Seq<char>, method: Seq<char>) -> Seq<char> {
    BOT_URL@ + token + "/"@ + method
}

fn url_of(token: &str, method: &str) -> (r: String)
    ensures
        r@ == method_url(token@, method@),
{
    let base = join3(BOT_URL, token, "/");
    join(base.as_str(), method)
}

// -------------------------------------------------------------------- replies

/// The request that sends a text to a chat.
pub open spec fn send_message_request(
    token: Seq<char>,
    chat_id: int,
    text: Seq<char>,
) -> RequestView {
    RequestView {
        method: Method::Post,
        url: method_url(token, "sendMessage"@),
        bearer: None,
        headers: Seq::empty(),
        body: BodyView::Json(
            JsonView::Object(
                seq![
                    ("chat_id"@, JsonView::Number(integer(chat_id))),
                    ("text"@, JsonView::Text(text)),
                ],
            ),
        ),
    }
}

/// The request that sends a text to a chat in the name of a bot; nothing where
/// the bot is not known.
pub fn send_reply(chat_id: i64, text: &str, bot_name: &str, bots: &Directory<BotConfig>) -> (r:
    Option<Request>)
    ensures
        match r {
            Some(request) => bots@.contains_key(bot_name@) && request@ == send_message_request(
                bots@[bot_name@].telegram_bot_token@,
                chat_id as int,
                text@,
            ),
            None => !bots@.contains_key(bot_name@),
        },
{
    match bots.get(bot_name) {
        Some(config) => {
            let number = Json::Number(integer_text(chat_id));
            let body = json_object2("chat_id", number, "text", json_text(text));
            Some(
                Request {
                    method: Method::Post,
                    url: url_of(config.telegram_bot_token.as_str(), "sendMessage"),
                    bearer: None,
                    headers: no_pairs(),
                    body: Body::Json(body),
                },
            )
        },
        None => None,
    }
}

// ------------------------------------------------------------------- webhooks

/// The three requests that move the webhook of a bot, in their order: what it
/// is now, take it away, set it anew.
#[derive(Debug)]
pub struct WebhookPlan {
    pub info: Request,
    pub delete: Request,
    pub set: Request,
}

/// The kinds of reports that a bot asks for.
pub const ALLOWED_UPDATES: &'static str = "[\"message\"]";

/// The path under which the reports for a bot are received.
pub open spec fn webhook_path(bot_name: Seq<char>) -> Seq<char> {
    "/"@ + bot_name + "/webhook"@
}

/// The address under which the reports for a bot are received.
pub open spec fn webhook_address(domain: Seq<char>, bot_name: Seq<char>) -> Seq<char> {
    domain + webhook_path(bot_name)
}

/// A request without headers.
pub open spec fn plain_request(method: Method, url: Seq<char>, body: BodyView) -> RequestView {
    RequestView { method: method, url: url, bearer: None, headers: Seq::empty(), body: body }
}

/// The request that sets the webhook of a bot.
pub open spec fn set_webhook_request(
    domain: Seq<char>,
    bot_name: Seq<char>,
    config: BotConfigView,
) -> RequestView {
    plain_request(
        Method::Post,
        method_url(config.telegram_bot_token, "setWebhook"@),
        BodyView::Form(
            seq![
                ("url"@, webhook_address(domain, bot_name)),
                ("secret_token"@, config.telegram_secret_token),
                ("allowed_updates"@, ALLOWED_UPDATES@),
            ],
        ),
    )
}

/// The address under which the reports for a bot are received.
pub fn webhook_url(domain: &str, bot_name: &str) -> (r: String)
    ensures
        r@ == webhook_address(domain@, bot_name@),
{
    let start = join3(domain, "/", bot_name);
    let r = join(start.as_str(), "/webhook");
    assert(r@ =~= webhook_address(domain@, bot_name@));
    r
}

/// What is asked of the chat service to move the webhook of a bot to a domain.
pub fn plan_webhook(domain: &str, bot_name: &str, config: &BotConfig) -> (r: WebhookPlan)
    ensures
        r.info@ == plain_request(
            Method::Get,
            method_url(config@.telegram_bot_token, "getWebhookInfo"@),
            BodyView::Empty,
        ),
        r.delete@ == plain_request(
            Method::Post,
            method_url(config@.telegram_bot_token, "deleteWebhook"@),
            BodyView::Empty,
        ),
        r.set@ == set_webhook_request(domain@, bot_name@, config@),
{
    let token = config.telegram_bot_token.as_str();
    let address = webhook_url(domain, bot_name);
    let params = with_pair(no_pairs(), "url", address.as_str());
    let params = with_pair(params, "secret_token", config.telegram_secret_token.as_str());
    let params = with_pair(params, "allowed_updates", ALLOWED_UPDATES);
    let info = Request {
        method: Method::Get,
        url: url_of(token, "getWebhookInfo"),
        bearer: None,
        headers: no_pairs(),
        body: Body::Empty,
    };
    let delete = Request {
        method: Method::Post,
        url: url_of(token, "deleteWebhook"),
        bearer: None,
        headers: no_pairs(),
        body: Body::Empty,
    };
    let set = Request {
        method: Method::Post,
        url: url_of(token, "setWebhook"),
        bearer: None,
        headers: no_pairs(),
        body: Body::Form(params),
    };
    assert(set@.body->Form_0 =~= seq![
        ("url"@, webhook_address(domain@, bot_name@)),
        ("secret_token"@, config@.telegram_secret_token),
        ("allowed_updates"@, ALLOWED_UPDATES@),
    ]);
    WebhookPlan { info, delete, set }
}

// ------------------------------------------------------------------------ laws

/// A text is sent whole, to the chat, in the name of the bot whose token it is.
pub proof fn texts_are_sent_whole(token: Seq<char>, chat_id: int, text: Seq<char>)
    ensures
        send_message_request(token, chat_id, text) == (RequestView {
            method: Method::Post,
            url: "https://api.telegram.org/bot"@ + token + "/"@ + "sendMessage"@,
            bearer: None,
            headers: Seq::empty(),
            body: BodyView::Json(
                JsonView::Object(
                    seq![
                        ("chat_id"@, JsonView::Number(integer(chat_id))),
                        ("text"@, JsonView::Text(text)),
                    ],
                ),
            ),
        }),
{
}

/// A webhook is set to the path of the bot on the domain, with the secret of the
/// bot, for messages alone.
pub proof fn webhooks_are_set_to_the_path_of_the_bot(
    domain: Seq<char>,
    bot_name: Seq<char>,
    config: BotConfigView,
)
    ensures
        webhook_path(bot_name) == "/"@ + bot_name + "/webhook"@,
        webhook_address(domain, bot_name) == domain + ("/"@ + bot_name + "/webhook"@),
        set_webhook_request(domain, bot_name, config) == (RequestView {
            method: Method::Post,
            url: "https://api.telegram.org/bot"@ + config.telegram_bot_token + "/"@
                + "setWebhook"@,
            bearer: None,
            headers: Seq::empty(),
            body: BodyView::Form(
                seq![
                    ("url"@, domain + ("/"@ + bot_name + "/webhook"@)),
                    ("secret_token"@, config.telegram_secret_token),
                    ("allowed_updates"@, "[\"message\"]"@),
                ],
            ),
        }),
{
}

/// A request without headers carries nothing but what it is given, and a method
/// of a bot stands under the token of the bot.
pub proof fn plain_requests_are_plain(
    method: Method,
    url: Seq<char>,
    body: BodyView,
    token: Seq<char>,
    name: Seq<char>,
)
    ensures
        plain_request(method, url, body) == (RequestView {
            method: method,
            url: url,
            bearer: None,
            headers: Seq::empty(),
            body: body,
        }),
        method_url(token, name) == "https://api.telegram.org/bot"@ + token + "/"@ + name,
{
}

} // verus!
