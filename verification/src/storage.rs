//! The fetching of what a bot's vector store holds.
//!
//! The summary of the store is fetched and kept; then the list of its files is
//! fetched, then the details of each file, and the details are kept. What a step
//! asks for is done outside; the event that is handed back leads to the next
//! step.

use crate::details::collect_details;
use crate::details::details_document;
use crate::details::details_file;
use crate::details::details_path;
use crate::details::details_tree;
use crate::details::had;
use crate::details::kept_names_are_read_back;
use crate::details::listed_names;
use crate::details::names_of_files;
use crate::details::FileDetail;
use crate::http::is_success;
use crate::http::no_pairs;
use crate::http::succeeded;
use crate::http::with_pair;
use crate::http::Body;
use crate::http::BodyView;
use crate::http::Method;
use crate::http::Request;
use crate::http::RequestView;
use crate::json::Json;
use crate::json::JsonView;
use crate::openai::BETA_NAME;
use crate::openai::BETA_VALUE;
use crate::summary::file_ids;
use crate::summary::listed_ids;
use crate::summary::summary_document;
use crate::summary::summary_tree;
use crate::summary::VectorStore;
use crate::summary::VectorStoreFilesResponse;
use crate::text::copy_text;
use crate::text::join;
use crate::text::join3;
use crate::text::texts;
use vstd::prelude::*;

verus! {

// -------------------------------------------------------------------- requests

/// Where the vector stores of the service stand.
pub const STORES_URL: &'static str = "https://api.openai.com/v1/vector_stores/";

/// Where the files of the service stand.
pub const FILES_URL: &'static str = "https://api.openai.com/v1/files/";

/// A request for a document of the service.
pub open spec fn document_request(
    url: Seq<char>,
    token: Seq<char>,
    headers: Seq<(Seq<char>, Seq<char>)>,
) -> RequestView {
    RequestView {
        method: Method::Get,
        url: url,
        bearer: Some(token),
        headers: headers,
        body: BodyView::Empty,
    }
}

/// The header that says that a document is JSON.
pub open spec fn json_header() -> (Seq<char>, Seq<char>) {
    ("Content-Type"@, "application/json"@)
}

/// The request for the summary of a vector store.
pub open spec fn summary_request_of(token: Seq<char>, store_id: Seq<char>) -> RequestView {
    document_request(STORES_URL@ + store_id, token, seq![json_header(), (BETA_NAME@, BETA_VALUE@)])
}

/// The request for the list of the files of a vector store.
pub open spec fn files_request_of(token: Seq<char>, store_id: Seq<char>) -> RequestView {
    document_request(
        STORES_URL@ + store_id + "/files"@,
        token,
        seq![json_header(), (BETA_NAME@, BETA_VALUE@)],
    )
}

/// The request for the details of a file.
pub open spec fn file_request_of(token: Seq<char>, file_id: Seq<char>) -> RequestView {
    document_request(FILES_URL@ + file_id, token, seq![json_header()])
}

/// Asks for the summary of a vector store.
pub fn summary_request(token: &str, store_id: &str) -> (r: Request)
    ensures
        r@ == summary_request_of(token@, store_id@),
{
    let headers = with_pair(no_pairs(), "Content-Type", "application/json");
    let r = Request {
        method: Method::Get,
        url: join(STORES_URL, store_id),
        bearer: Some(copy_text(token)),
        headers: with_pair(headers, BETA_NAME, BETA_VALUE),
        body: Body::Empty,
    };
    assert(r@.headers =~= seq![json_header(), (BETA_NAME@, BETA_VALUE@)]);
    r
}

/// Asks for the list of the files of a vector store.
pub fn files_request(token: &str, store_id: &str) -> (r: Request)
    ensures
        r@ == files_request_of(token@, store_id@),
{
    let headers = with_pair(no_pairs(), "Content-Type", "application/json");
    let r = Request {
        method: Method::Get,
        url: join3(STORES_URL, store_id, "/files"),
        bearer: Some(copy_text(token)),
        headers: with_pair(headers, BETA_NAME, BETA_VALUE),
        body: Body::Empty,
    };
    assert(r@.headers =~= seq![json_header(), (BETA_NAME@, BETA_VALUE@)]);
    r
}

/// Asks for the details of a file.
pub fn file_request(token: &str, file_id: &str) -> (r: Request)
    ensures
        r@ == file_request_of(token@, file_id@),
{
    let r = Request {
        method: Method::Get,
        url: join(FILES_URL, file_id),
        bearer: Some(copy_text(token)),
        headers: with_pair(no_pairs(), "Content-Type", "application/json"),
        body: Body::Empty,
    };
    assert(r@.headers =~= seq![json_header()]);
    r
}

// ----------------------------------------------------------------------- files

/// Where the summary of a vector store is kept.
pub open spec fn summary_file(dir: Seq<char>, store_id: Seq<char>) -> Seq<char> {
    dir + "/"@ + store_id + "_summary.json"@
}

/// Where the summary of a vector store is kept.
pub fn summary_path(dir: &str, store_id: &str) -> (r: String)
    ensures
        r@ == summary_file(dir@, store_id@),
{
    let start = join3(dir, "/", store_id);
    join(start.as_str(), "_summary.json")
}

// ------------------------------------------------------------------- the steps

/// What is reported where the summary could not be fetched.
pub const SUMMARY_FAILED: &'static str = "Summary fetch error";

/// What is reported where the list of the files could not be fetched.
pub const LIST_FAILED: &'static str = "Files list fetch error";

/// What is to be done next.
#[derive(Debug)]
pub enum Step {
    /// Fetch the summary.
    FetchSummary { request: Request },
    /// Decode the summary that was fetched.
    DecodeSummary,
    /// Save this document in this file.
    SaveSummary { path: String, document: Json },
    /// Fetch the list of the files.
    FetchList { request: Request },
    /// Decode the list that was fetched.
    DecodeList,
    /// Fetch the details of these files, each with its request.
    FetchDetails { files: Vec<(String, Request)> },
    /// Save this document in this file.
    SaveDetails { path: String, document: Json },
    Finished,
    Failed { report: String },
}

/// What is to be done next, mathematically.
pub enum StepView {
    FetchSummary { request: RequestView },
    DecodeSummary,
    SaveSummary { path: Seq<char>, document: JsonView },
    FetchList { request: RequestView },
    DecodeList,
    FetchDetails { files: Seq<(Seq<char>, RequestView)> },
    SaveDetails { path: Seq<char>, document: JsonView },
    Finished,
    Failed { report: Seq<char> },
}

/// The names and the requests of a list of files.
pub open spec fn file_views(files: Seq<(String, Request)>) -> Seq<(Seq<char>, RequestView)> {
    files.map_values(|f: (String, Request)| (f.0@, f.1@))
}

impl View for Step {
    type V = StepView;

    open spec fn view(&self) -> StepView {
        match self {
            Step::FetchSummary { request } => StepView::FetchSummary { request: request@ },
            Step::DecodeSummary => StepView::DecodeSummary,
            Step::SaveSummary { path, document } => StepView::SaveSummary {
                path: path@,
                document: document@,
            },
            Step::FetchList { request } => StepView::FetchList { request: request@ },
            Step::DecodeList => StepView::DecodeList,
            Step::FetchDetails { files } => StepView::FetchDetails { files: file_views(files@) },
            Step::SaveDetails { path, document } => StepView::SaveDetails {
                path: path@,
                document: document@,
            },
            Step::Finished => StepView::Finished,
            Step::Failed { report } => StepView::Failed { report: report@ },
        }
    }
}

/// What was done.
#[derive(Debug)]
pub enum StorageEvent {
    /// A document was fetched, with this status.
    Fetched(u16),
    /// The summary was decoded.
    Summarised(VectorStore),
    /// A file was written.
    Saved,
    /// The list of the files was decoded.
    Listed(VectorStoreFilesResponse),
    /// The details of the files were asked for, and had for some.
    Detailed(Vec<Option<FileDetail>>),
    /// A step could not be done, for this cause.
    Broke(String),
}

/// The fetching for one bot.
pub struct Storage {
    token: String,
    data_dir: String,
    store_id: String,
    step: Step,
}

/// The fetching for one bot, mathematically.
pub struct StorageView {
    pub token: Seq<char>,
    pub data_dir: Seq<char>,
    pub store_id: Seq<char>,
    pub step: StepView,
}

impl View for Storage {
    type V = StorageView;

    closed spec fn view(&self) -> StorageView {
        StorageView {
            token: self.token@,
            data_dir: self.data_dir@,
            store_id: self.store_id@,
            step: self.step@,
        }
    }
}

/// The requests for the details of a list of files.
pub open spec fn detail_requests(token: Seq<char>, ids: Seq<Seq<char>>) -> Seq<
    (Seq<char>, RequestView),
> {
    ids.map_values(|id: Seq<char>| (id, file_request_of(token, id)))
}

/// The step that follows an event. A document whose status is no success ends the
/// fetching, and so does a step that could not be done.
pub open spec fn step_after(s: StorageView, event: StorageEvent) -> StepView {
    match (s.step, event) {
        (StepView::Finished, _) => s.step,
        (StepView::Failed { .. }, _) => s.step,
        (_, StorageEvent::Broke(cause)) => StepView::Failed { report: cause@ },
        (StepView::FetchSummary { .. }, StorageEvent::Fetched(status)) => if is_success(status) {
            StepView::DecodeSummary
        } else {
            StepView::Failed { report: SUMMARY_FAILED@ }
        },
        (StepView::DecodeSummary, StorageEvent::Summarised(v)) => StepView::SaveSummary {
            path: summary_file(s.data_dir, s.store_id),
            document: summary_tree(v),
        },
        (StepView::SaveSummary { .. }, StorageEvent::Saved) => StepView::FetchList {
            request: files_request_of(s.token, s.store_id),
        },
        (StepView::FetchList { .. }, StorageEvent::Fetched(status)) => if is_success(status) {
            StepView::DecodeList
        } else {
            StepView::Failed { report: LIST_FAILED@ }
        },
        (StepView::DecodeList, StorageEvent::Listed(list)) => StepView::FetchDetails {
            files: detail_requests(s.token, listed_ids(list)),
        },
        (StepView::FetchDetails { .. }, StorageEvent::Detailed(results)) => StepView::SaveDetails {
            path: details_file(s.data_dir, s.store_id),
            document: details_tree(had(results@)),
        },
        (StepView::SaveDetails { .. }, StorageEvent::Saved) => StepView::Finished,
        _ => s.step,
    }
}

fn requests_for(token: &str, ids: &Vec<String>) -> (r: Vec<(String, Request)>)
    ensures
        file_views(r@) == detail_requests(token@, texts(ids@)),
{
    let n: usize = ids.len();
    let mut r: Vec<(String, Request)> = Vec::new();
    let mut i: usize = 0;
    while i < n
        invariant
            n == ids@.len(),
            i <= n,
            r@.len() == i,
            forall|k: int|
                0 <= k < i ==> (#[trigger] r@[k]).0@ == ids@[k]@ && r@[k].1@ == file_request_of(
                    token@,
                    ids@[k]@,
                ),
        decreases n - i,
    {
        r.push((ids[i].clone(), file_request(token, ids[i].as_str())));
        i += 1;
    }
    assert(file_views(r@) =~= detail_requests(token@, texts(ids@)));
    r
}

impl Storage {
    /// Starts the fetching for a vector store, to be kept in a directory.
    pub fn start(token: String, data_dir: String, store_id: String) -> (r: Storage)
        ensures
            r@ == (StorageView {
                token: token@,
                data_dir: data_dir@,
                store_id: store_id@,
                step: StepView::FetchSummary { request: summary_request_of(token@, store_id@) },
            }),
    {
        let request = summary_request(token.as_str(), store_id.as_str());
        Storage { token, data_dir, store_id, step: Step::FetchSummary { request } }
    }

    /// What is to be done next.
    pub fn step(&self) -> (r: &Step)
        ensures
            r@ == self@.step,
    {
        &self.step
    }

    /// Goes on with the fetching.
    pub fn advance(self, event: StorageEvent) -> (r: Storage)
        ensures
            r@ == (StorageView { step: step_after(self@, event), ..self@ }),
    {
        let mut s = self;
        let mut step = Step::Finished;
        std::mem::swap(&mut step, &mut s.step);
        match (step, event) {
            (Step::Finished, _) => {
                s.step = Step::Finished;
            },
            (Step::Failed { report }, _) => {
                s.step = Step::Failed { report };
            },
            (_, StorageEvent::Broke(cause)) => {
                s.step = Step::Failed { report: cause };
            },
            (Step::FetchSummary { request: _ }, StorageEvent::Fetched(status)) => {
                if succeeded(status) {
                    s.step = Step::DecodeSummary;
                } else {
                    s.step = Step::Failed { report: copy_text(SUMMARY_FAILED) };
                }
            },
            (Step::DecodeSummary, StorageEvent::Summarised(v)) => {
                let path = summary_path(s.data_dir.as_str(), s.store_id.as_str());
                s.step = Step::SaveSummary { path, document: summary_document(v) };
            },
            (Step::SaveSummary { path: _, document: _ }, StorageEvent::Saved) => {
                let request = files_request(s.token.as_str(), s.store_id.as_str());
                s.step = Step::FetchList { request };
            },
            (Step::FetchList { request: _ }, StorageEvent::Fetched(status)) => {
                if succeeded(status) {
                    s.step = Step::DecodeList;
                } else {
                    s.step = Step::Failed { report: copy_text(LIST_FAILED) };
                }
            },
            (Step::DecodeList, StorageEvent::Listed(list)) => {
                let ids = file_ids(&list);
                let files = requests_for(s.token.as_str(), &ids);
                s.step = Step::FetchDetails { files };
            },
            (Step::FetchDetails { files: _ }, StorageEvent::Detailed(results)) => {
                let details = collect_details(results);
                let path = details_path(s.data_dir.as_str(), s.store_id.as_str());
                let document = details_document(&details);
                s.step = Step::SaveDetails { path, document };
            },
            (Step::SaveDetails { path: _, document: _ }, StorageEvent::Saved) => {
                s.step = Step::Finished;
            },
            (step, _) => {
                s.step = step;
            },
        }
        s
    }
}

// ------------------------------------------------------------------------ laws

/// The fetching after a series of events.
pub open spec fn storage_run(s: StorageView, events: Seq<StorageEvent>) -> StorageView
    decreases events.len(),
{
    if events.len() == 0 {
        s
    } else {
        let before = storage_run(s, events.drop_last());
        StorageView { step: step_after(before, events.last()), ..before }
    }
}

/// A failure is final, and so is the end.
pub proof fn outcomes_are_final(s: StorageView, events: Seq<StorageEvent>)
    requires
        s.step is Failed || s.step is Finished,
    ensures
        storage_run(s, events) == s,
    decreases events.len(),
{
    if events.len() > 0 {
        outcomes_are_final(s, events.drop_last());
    }
}

/// A fetching in which each step succeeds asks for the summary and for the list of
/// the vector store, then for the details of each listed file in the order of the
/// list. It keeps the summary as it was decoded and the details that could be had,
/// each in its file, and then it is finished.
pub proof fn what_is_fetched_is_kept(
    s: StorageView,
    ok: u16,
    summary: VectorStore,
    list: VectorStoreFilesResponse,
    results: Vec<Option<FileDetail>>,
)
    requires
        s.step == (StepView::FetchSummary { request: summary_request_of(s.token, s.store_id) }),
        is_success(ok),
    ensures
        ({
            let events = seq![
                StorageEvent::Fetched(ok),
                StorageEvent::Summarised(summary),
                StorageEvent::Saved,
                StorageEvent::Fetched(ok),
                StorageEvent::Listed(list),
                StorageEvent::Detailed(results),
                StorageEvent::Saved,
            ];
            &&& storage_run(s, events.take(2)).step == StepView::SaveSummary {
                path: summary_file(s.data_dir, s.store_id),
                document: summary_tree(summary),
            }
            &&& storage_run(s, events.take(3)).step == StepView::FetchList {
                request: files_request_of(s.token, s.store_id),
            }
            &&& storage_run(s, events.take(5)).step == StepView::FetchDetails {
                files: detail_requests(s.token, listed_ids(list)),
            }
            &&& storage_run(s, events.take(6)).step == StepView::SaveDetails {
                path: details_file(s.data_dir, s.store_id),
                document: details_tree(had(results@)),
            }
            &&& storage_run(s, events) == StorageView { step: StepView::Finished, ..s }
        }),
{
    let events = seq![
        StorageEvent::Fetched(ok),
        StorageEvent::Summarised(summary),
        StorageEvent::Saved,
        StorageEvent::Fetched(ok),
        StorageEvent::Listed(list),
        StorageEvent::Detailed(results),
        StorageEvent::Saved,
    ];
    assert(events.take(7) =~= events);
    assert forall|n: int| 0 < n <= 7 implies storage_run(s, #[trigger] events.take(n)) == ({
        let before = storage_run(s, events.take(n - 1));
        StorageView { step: step_after(before, events[n - 1]), ..before }
    }) by {
        assert(events.take(n).drop_last() =~= events.take(n - 1));
    }
    assert(storage_run(s, events.take(0)) == s);
    assert(storage_run(s, events.take(1)).step == StepView::DecodeSummary);
    assert(storage_run(s, events.take(2)).step is SaveSummary);
    assert(storage_run(s, events.take(3)).step is FetchList);
    assert(storage_run(s, events.take(4)).step == StepView::DecodeList);
    assert(storage_run(s, events.take(5)).step is FetchDetails);
    assert(storage_run(s, events.take(6)).step is SaveDetails);
}

/// What is saved for a vector store is saved where the file names are looked for,
/// and the file names that are read in it are those of the files whose details
/// could be had.
pub proof fn saved_names_are_those_of_the_files(
    s: StorageView,
    results: Vec<Option<FileDetail>>,
)
    requires
        s.step is FetchDetails,
    ensures
        step_after(s, StorageEvent::Detailed(results)) matches StepView::SaveDetails {
            path,
            document,
        } && path == details_file(s.data_dir, s.store_id) && listed_names(document) == Some(
            names_of_files(had(results@)),
        ),
{
    kept_names_are_read_back(had(results@));
}

/// What is asked of the service: the summary and the list under the id of the
/// vector store, the details of a file under the id of the file, each with the
/// token.
pub proof fn documents_are_asked_for_by_their_ids(
    token: Seq<char>,
    store_id: Seq<char>,
    file_id: Seq<char>,
)
    ensures
        summary_request_of(token, store_id) == (RequestView {
            method: Method::Get,
            url: "https://api.openai.com/v1/vector_stores/"@ + store_id,
            bearer: Some(token),
            headers: seq![
                ("Content-Type"@, "application/json"@),
                ("OpenAI-Beta"@, "assistants=v2"@),
            ],
            body: BodyView::Empty,
        }),
        files_request_of(token, store_id) == (RequestView {
            method: Method::Get,
            url: "https://api.openai.com/v1/vector_stores/"@ + store_id + "/files"@,
            bearer: Some(token),
            headers: seq![
                ("Content-Type"@, "application/json"@),
                ("OpenAI-Beta"@, "assistants=v2"@),
            ],
            body: BodyView::Empty,
        }),
        file_request_of(token, file_id) == (RequestView {
            method: Method::Get,
            url: "https://api.openai.com/v1/files/"@ + file_id,
            bearer: Some(token),
            headers: seq![("Content-Type"@, "application/json"@)],
            body: BodyView::Empty,
        }),
{
}

/// The details of each file are asked for, in the order of the list.
pub proof fn details_are_asked_for_each_file(token: Seq<char>, ids: Seq<Seq<char>>)
    ensures
        detail_requests(token, ids).len() == ids.len(),
        forall|i: int|
            0 <= i < ids.len() ==> #[trigger] detail_requests(token, ids)[i] == (
                ids[i],
                file_request_of(token, ids[i]),
            ),
{
}

/// What is kept of a vector store stands in the directory for data, under the id
/// of the store.
pub proof fn what_is_kept_stands_under_the_id(dir: Seq<char>, store_id: Seq<char>)
    ensures
        summary_file(dir, store_id) == dir + "/"@ + store_id + "_summary.json"@,
        details_file(dir, store_id) == dir + "/"@ + store_id + "_files_details.json"@,
{
}

/// A document whose status is no success ends the fetching with a report, and so
/// does a step that breaks, with its cause; nothing more is then asked for.
pub proof fn failed_steps_end_the_fetching(s: StorageView, status: u16, cause: String)
    requires
        !(200 <= status <= 299),
        !(s.step is Finished),
        !(s.step is Failed),
    ensures
        s.step is FetchSummary ==> step_after(s, StorageEvent::Fetched(status))
            == (StepView::Failed { report: "Summary fetch error"@ }),
        s.step is FetchList ==> step_after(s, StorageEvent::Fetched(status)) == (
        StepView::Failed { report: "Files list fetch error"@ }),
        step_after(s, StorageEvent::Broke(cause)) == (StepView::Failed { report: cause@ }),
{
}

/// A step shows what it holds.
pub proof fn steps_show_what_they_hold(s: Step)
    ensures
        match s {
            Step::FetchSummary { request } => s@ == (StepView::FetchSummary { request: request@ }),
            Step::DecodeSummary => s@ == StepView::DecodeSummary,
            Step::SaveSummary { path, document } => s@ == (StepView::SaveSummary {
                path: path@,
                document: document@,
            }),
            Step::FetchList { request } => s@ == (StepView::FetchList { request: request@ }),
            Step::DecodeList => s@ == StepView::DecodeList,
            Step::FetchDetails { files } => s@ == (StepView::FetchDetails {
                files: files@.map_values(|f: (String, Request)| (f.0@, f.1@)),
            }),
            Step::SaveDetails { path, document } => s@ == (StepView::SaveDetails {
                path: path@,
                document: document@,
            }),
            Step::Finished => s@ == StepView::Finished,
            Step::Failed { report } => s@ == (StepView::Failed { report: report@ }),
        },
{
}

} // verus!
