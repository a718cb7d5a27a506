//! What is asked of the assistant service, and what its answers hold.

use crate::config::BotConfig;
use crate::config::BotConfigView;
use crate::http::no_pairs;
use crate::http::with_pair;
use crate::http::Body;
use crate::http::BodyView;
use crate::http::Method;
use crate::http::Request;
use crate::http::RequestView;
use crate::json::bytes_tree;
use crate::json::json_array1;
use crate::json::json_object1;
use crate::json::json_object2;
use crate::json::json_text;
use crate::json::member;
use crate::json::members_are_found_by_name;
use crate::json::parse_json_bytes;
use crate::json::path_names;
use crate::json::paths_lead_from_member_to_member;
use crate::json::text_at;
use crate::json::Json;
use crate::json::JsonView;
use crate::text::copy_text;
use crate::text::join;
use crate::text::join3;
use vstd::prelude::*;

verus! {

/// Where the threads of the service stand.
pub const THREADS_URL: &'static str = "https://api.openai.com/v1/threads";

/// The header that asks for the version of the service that the bot uses.
pub const BETA_NAME: &'static str = "OpenAI-Beta";

/// The value of that header.
pub const BETA_VALUE: &'static str = "assistants=v2";

/// A request to the service: a JSON document, posted with the token.
pub open spec fn service_post(url: Seq<char>, token: Seq<char>, body: JsonView) -> RequestView {
    RequestView {
        method: Method::Post,
        url: url,
        bearer: Some(token),
        headers: seq![(BETA_NAME@, BETA_VALUE@)],
        body: BodyView::Json(body),
    }
}

/// The document that opens a thread with one message of the user and gives it
/// the files of the bot to search.
pub open spec fn thread_document(prompt: Seq<char>, vector_store_id: Seq<char>) -> JsonView {
    JsonView::Object(
        seq![
            (
                "messages"@,
                JsonView::Array(
                    seq![message_document(prompt)],
                ),
            ),
            (
                "tool_resources"@,
                JsonView::Object(
                    seq![
                        (
                            "file_search"@,
                            JsonView::Object(
                                seq![
                                    (
                                        "vector_store_ids"@,
                                        JsonView::Array(seq![JsonView::Text(vector_store_id)]),
                                    ),
                                ],
                            ),
                        ),
                    ],
                ),
            ),
        ],
    )
}

/// The document of a message of the user.
pub open spec fn message_document(prompt: Seq<char>) -> JsonView {
    JsonView::Object(
        seq![("content"@, JsonView::Text(prompt)), ("role"@, JsonView::Text("user"@))],
    )
}

/// The document that starts a run whose answer is streamed.
pub open spec fn run_document(assistant_id: Seq<char>) -> JsonView {
    JsonView::Object(
        seq![("assistant_id"@, JsonView::Text(assistant_id)), ("stream"@, JsonView::Bool(true))],
    )
}

/// The request that opens a thread.
pub open spec fn create_thread_request(
    token: Seq<char>,
    prompt: Seq<char>,
    config: BotConfigView,
) -> RequestView {
    service_post(THREADS_URL@, token, thread_document(prompt, config.vector_store_id))
}

/// The request that adds a message to a thread.
pub open spec fn create_message_request(
    token: Seq<char>,
    thread_id: Seq<char>,
    prompt: Seq<char>,
) -> RequestView {
    service_post(
        THREADS_URL@ + "/"@ + thread_id + "/messages"@,
        token,
        message_document(prompt),
    )
}

/// The request that starts a run on a thread.
pub open spec fn create_run_request(
    token: Seq<char>,
    thread_id: Seq<char>,
    config: BotConfigView,
) -> RequestView {
    service_post(
        THREADS_URL@ + "/"@ + thread_id + "/runs"@,
        token,
        run_document(config.openai_assistant_id),
    )
}

fn post(url: String, token: &str, body: Json) -> (r: Request)
    ensures
        r@ == service_post(url@, token@, body@),
{
    let r = Request {
        method: Method::Post,
        url,
        bearer: Some(copy_text(token)),
        headers: with_pair(no_pairs(), BETA_NAME, BETA_VALUE),
        body: Body::Json(body),
    };
    assert(r@.headers =~= seq![(BETA_NAME@, BETA_VALUE@)]);
    r
}

fn user_message(prompt: &str) -> (r: Json)
    ensures
        r@ == message_document(prompt@),
{
    json_object2("content", json_text(prompt), "role", json_text("user"))
}

/// Asks for a new thread.
pub fn create_thread(token: &str, prompt: &str, config: &BotConfig) -> (r: Request)
    ensures
        r@ == create_thread_request(token@, prompt@, config@),
{
    let messages = json_array1(user_message(prompt));
    let stores = json_array1(json_text(config.vector_store_id.as_str()));
    let search = json_object1("vector_store_ids", stores);
    let resources = json_object1("file_search", search);
    let body = json_object2("messages", messages, "tool_resources", resources);
    post(copy_text(THREADS_URL), token, body)
}

/// Asks for a new message in a thread.
pub fn create_message(token: &str, thread_id: &str, prompt: &str) -> (r: Request)
    ensures
        r@ == create_message_request(token@, thread_id@, prompt@),
{
    let thread = join3(THREADS_URL, "/", thread_id);
    post(join(thread.as_str(), "/messages"), token, user_message(prompt))
}

/// Asks for a run of a thread.
pub fn create_run(token: &str, thread_id: &str, config: &BotConfig) -> (r: Request)
    ensures
        r@ == create_run_request(token@, thread_id@, config@),
{
    let thread = join3(THREADS_URL, "/", thread_id);
    let body = json_object2(
        "assistant_id",
        json_text(config.openai_assistant_id.as_str()),
        "stream",
        Json::Bool(true),
    );
    post(join(thread.as_str(), "/runs"), token, body)
}

/// The name of the thread that an answer tells of; empty where it names none.
pub open spec fn thread_named(answer: JsonView) -> Seq<char> {
    match text_at(seq!["id"@])(answer) {
        Some(id) => id,
        None => Seq::empty(),
    }
}

/// Reads the name of a new thread in the answer of the service.
pub fn thread_id(answer: &Json) -> (r: String)
    ensures
        r@ == thread_named(answer@),
{
    let path = ["id"];
    assert(path_names(path@) =~= seq!["id"@]);
    match answer.text_along(&path) {
        Some(id) => id.clone(),
        None => String::new(),
    }
}

/// Reads the name of a new thread in the bytes of the answer; `None` where they
/// are no JSON document.
pub fn created_thread(answer: &[u8]) -> (r: Option<String>)
    ensures
        match r {
            Some(id) => bytes_tree(answer@) is Some && id@ == thread_named(bytes_tree(answer@)->0),
            None => bytes_tree(answer@) is None,
        },
{
    match parse_json_bytes(answer) {
        Some(j) => Some(thread_id(&j)),
        None => None,
    }
}

// ------------------------------------------------------------------------ laws

/// A thread is opened with the whole question, as a message of the user, and with
/// the vector store of the bot to search.
pub proof fn threads_are_opened_with_the_question(
    token: Seq<char>,
    prompt: Seq<char>,
    config: BotConfigView,
)
    ensures
        create_thread_request(token, prompt, config) == (RequestView {
            method: Method::Post,
            url: "https://api.openai.com/v1/threads"@,
            bearer: Some(token),
            headers: seq![("OpenAI-Beta"@, "assistants=v2"@)],
            body: BodyView::Json(
                JsonView::Object(
                    seq![
                        (
                            "messages"@,
                            JsonView::Array(
                                seq![
                                    JsonView::Object(
                                        seq![
                                            ("content"@, JsonView::Text(prompt)),
                                            ("role"@, JsonView::Text("user"@)),
                                        ],
                                    ),
                                ],
                            ),
                        ),
                        (
                            "tool_resources"@,
                            JsonView::Object(
                                seq![
                                    (
                                        "file_search"@,
                                        JsonView::Object(
                                            seq![
                                                (
                                                    "vector_store_ids"@,
                                                    JsonView::Array(
                                                        seq![
                                                            JsonView::Text(config.vector_store_id),
                                                        ],
                                                    ),
                                                ),
                                            ],
                                        ),
                                    ),
                                ],
                            ),
                        ),
                    ],
                ),
            ),
        }),
{
}

/// A question goes to its thread as a whole, as a message of the user.
pub proof fn questions_go_to_their_thread(
    token: Seq<char>,
    thread_id: Seq<char>,
    prompt: Seq<char>,
)
    ensures
        create_message_request(token, thread_id, prompt) == (RequestView {
            method: Method::Post,
            url: "https://api.openai.com/v1/threads"@ + "/"@ + thread_id + "/messages"@,
            bearer: Some(token),
            headers: seq![("OpenAI-Beta"@, "assistants=v2"@)],
            body: BodyView::Json(
                JsonView::Object(
                    seq![
                        ("content"@, JsonView::Text(prompt)),
                        ("role"@, JsonView::Text("user"@)),
                    ],
                ),
            ),
        }),
{
}

/// A run is started on its thread with the assistant of the bot, and its answer is
/// streamed.
pub proof fn runs_are_started_with_the_assistant_of_the_bot(
    token: Seq<char>,
    thread_id: Seq<char>,
    config: BotConfigView,
)
    ensures
        create_run_request(token, thread_id, config) == (RequestView {
            method: Method::Post,
            url: "https://api.openai.com/v1/threads"@ + "/"@ + thread_id + "/runs"@,
            bearer: Some(token),
            headers: seq![("OpenAI-Beta"@, "assistants=v2"@)],
            body: BodyView::Json(
                JsonView::Object(
                    seq![
                        ("assistant_id"@, JsonView::Text(config.openai_assistant_id)),
                        ("stream"@, JsonView::Bool(true)),
                    ],
                ),
            ),
        }),
{
}

/// The thread of an answer is the text of its member `id`, whatever other members
/// the answer has, and the empty text where it has no such text.
pub proof fn threads_are_named_by_their_id(answer: JsonView)
    ensures
        member(answer, "id"@) matches Some(JsonView::Text(id)) ==> thread_named(answer) == id,
        !(member(answer, "id"@) matches Some(JsonView::Text(_))) ==> thread_named(answer)
            == Seq::<char>::empty(),
{
    paths_lead_from_member_to_member(answer, "id"@, "id"@);
}

/// An answer with the member `id`, among any others, names that thread.
pub proof fn ids_are_read_among_other_members(
    before: Seq<(Seq<char>, JsonView)>,
    id: Seq<char>,
    after: Seq<(Seq<char>, JsonView)>,
)
    requires
        forall|i: int| 0 <= i < before.len() ==> (#[trigger] before[i]).0 != "id"@,
    ensures
        thread_named(
            JsonView::Object(before + seq![("id"@, JsonView::Text(id))] + after),
        ) == id,
{
    members_are_found_by_name(before, "id"@, JsonView::Text(id), after);
    threads_are_named_by_their_id(
        JsonView::Object(before + seq![("id"@, JsonView::Text(id))] + after),
    );
}

} // verus!
