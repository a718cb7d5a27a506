//! What the assistant service tells of a vector store: its summary, and the list
//! of its files.

use crate::decimal::natural;
use crate::decimal::natural_text;
use crate::details::optional;
use crate::details::optional_json;
use crate::http::option_text;
use crate::json::json_text;
use crate::json::lemma_member_trees;
use crate::json::member_trees;
use crate::json::Json;
use crate::json::JsonView;
use crate::text::copy_text;
use crate::text::texts;
use vstd::prelude::*;

verus! {

// ----------------------------------------------------------------- the summary

/// How many files of a vector store stand where in their processing.
#[derive(Debug)]
pub struct FileCounts {
    pub cancelled: u32,
    pub completed: u32,
    pub failed: u32,
    pub in_progress: u32,
    pub total: u32,
}

/// The summary of a vector store.
#[derive(Debug)]
pub struct VectorStore {
    pub created_at: u64,
    pub expires_after: Option<Json>,
    pub expires_at: Option<u64>,
    pub file_counts: FileCounts,
    pub id: String,
    pub last_active_at: Option<u64>,
    pub metadata: Json,
    pub name: Option<String>,
    pub object: String,
    pub status: Option<String>,
    pub usage_bytes: u64,
}

/// A natural number as JSON.
pub open spec fn number_tree(n: nat) -> JsonView {
    JsonView::Number(natural(n))
}

/// An optional number as JSON.
pub open spec fn optional_number(n: Option<u64>) -> JsonView {
    match n {
        Some(n) => number_tree(n as nat),
        None => JsonView::Null,
    }
}

/// An optional document as JSON.
pub open spec fn optional_tree(j: Option<Json>) -> JsonView {
    match j {
        Some(j) => j@,
        None => JsonView::Null,
    }
}

/// The counts of a summary as they are kept.
pub open spec fn counts_tree(c: FileCounts) -> JsonView {
    JsonView::Object(
        seq![
            ("cancelled"@, number_tree(c.cancelled as nat)),
            ("completed"@, number_tree(c.completed as nat)),
            ("failed"@, number_tree(c.failed as nat)),
            ("in_progress"@, number_tree(c.in_progress as nat)),
            ("total"@, number_tree(c.total as nat)),
        ],
    )
}

/// A summary as it is kept: each of its fields, and nothing else.
pub open spec fn summary_tree(v: VectorStore) -> JsonView {
    JsonView::Object(
        seq![
            ("created_at"@, number_tree(v.created_at as nat)),
            ("expires_after"@, optional_tree(v.expires_after)),
            ("expires_at"@, optional_number(v.expires_at)),
            ("file_counts"@, counts_tree(v.file_counts)),
            ("id"@, JsonView::Text(v.id@)),
            ("last_active_at"@, optional_number(v.last_active_at)),
            ("metadata"@, v.metadata@),
            ("name"@, optional_json(option_text(v.name))),
            ("object"@, JsonView::Text(v.object@)),
            ("status"@, optional_json(option_text(v.status))),
            ("usage_bytes"@, number_tree(v.usage_bytes as nat)),
        ],
    )
}

fn number(n: u64) -> (r: Json)
    ensures
        r@ == number_tree(n as nat),
{
    Json::Number(natural_text(n))
}

fn number_or_null(n: Option<u64>) -> (r: Json)
    ensures
        r@ == optional_number(n),
{
    match n {
        Some(n) => number(n),
        None => Json::Null,
    }
}

fn counts_document(c: &FileCounts) -> (r: Json)
    ensures
        r@ == counts_tree(*c),
{
    let members = vec![
        (copy_text("cancelled"), number(c.cancelled as u64)),
        (copy_text("completed"), number(c.completed as u64)),
        (copy_text("failed"), number(c.failed as u64)),
        (copy_text("in_progress"), number(c.in_progress as u64)),
        (copy_text("total"), number(c.total as u64)),
    ];
    proof {
        lemma_member_trees(members@);
        assert(member_trees(members@) =~= counts_tree(*c)->Object_0);
    }
    Json::Object(members)
}

/// A summary as it is kept.
pub fn summary_document(v: VectorStore) -> (r: Json)
    ensures
        r@ == summary_tree(v),
{
    let expires_after = match v.expires_after {
        Some(j) => j,
        None => Json::Null,
    };
    let members = vec![
        (copy_text("created_at"), number(v.created_at)),
        (copy_text("expires_after"), expires_after),
        (copy_text("expires_at"), number_or_null(v.expires_at)),
        (copy_text("file_counts"), counts_document(&v.file_counts)),
        (copy_text("id"), json_text(v.id.as_str())),
        (copy_text("last_active_at"), number_or_null(v.last_active_at)),
        (copy_text("metadata"), v.metadata),
        (copy_text("name"), optional(&v.name)),
        (copy_text("object"), json_text(v.object.as_str())),
        (copy_text("status"), optional(&v.status)),
        (copy_text("usage_bytes"), number(v.usage_bytes)),
    ];
    proof {
        lemma_member_trees(members@);
        assert(member_trees(members@) =~= summary_tree(v)->Object_0);
    }
    Json::Object(members)
}

// ------------------------------------------------------------ the list of files

/// A file of a vector store.
#[derive(Debug)]
pub struct VectorStoreFile {
    pub id: String,
    pub object: String,
    pub created_at: u64,
}

/// The list of the files of a vector store.
#[derive(Debug)]
pub struct VectorStoreFilesResponse {
    pub object: String,
    pub data: Vec<VectorStoreFile>,
    pub first_id: Option<String>,
    pub last_id: Option<String>,
    pub has_more: bool,
}

/// The ids of the listed files, in the order of the list.
pub open spec fn listed_ids(list: VectorStoreFilesResponse) -> Seq<Seq<char>> {
    list.data@.map_values(|f: VectorStoreFile| f.id@)
}

/// The ids of the listed files, in the order of the list.
pub fn file_ids(list: &VectorStoreFilesResponse) -> (r: Vec<String>)
    ensures
        texts(r@) == listed_ids(*list),
{
    let n: usize = list.data.len();
    let mut r: Vec<String> = Vec::new();
    let mut i: usize = 0;
    while i < n
        invariant
            n == list.data@.len(),
            i <= n,
            r@.len() == i,
            forall|k: int| 0 <= k < i ==> (#[trigger] r@[k])@ == list.data@[k].id@,
        decreases n - i,
    {
        r.push(list.data[i].id.clone());
        i += 1;
    }
    assert(texts(r@) =~= listed_ids(*list));
    r
}

// ------------------------------------------------------------------------ laws

/// A summary is kept with each of its fields as it is.
pub proof fn summaries_are_kept_field_by_field(v: VectorStore)
    ensures
        ({
            let c = v.file_counts;
            &&& summary_tree(v) is Object
            &&& summary_tree(v)->Object_0 =~= seq![
                ("created_at"@, JsonView::Number(natural(v.created_at as nat))),
                (
                    "expires_after"@,
                    match v.expires_after {
                        Some(j) => j@,
                        None => JsonView::Null,
                    },
                ),
                (
                    "expires_at"@,
                    match v.expires_at {
                        Some(n) => JsonView::Number(natural(n as nat)),
                        None => JsonView::Null,
                    },
                ),
                (
                    "file_counts"@,
                    JsonView::Object(
                        seq![
                            ("cancelled"@, JsonView::Number(natural(c.cancelled as nat))),
                            ("completed"@, JsonView::Number(natural(c.completed as nat))),
                            ("failed"@, JsonView::Number(natural(c.failed as nat))),
                            ("in_progress"@, JsonView::Number(natural(c.in_progress as nat))),
                            ("total"@, JsonView::Number(natural(c.total as nat))),
                        ],
                    ),
                ),
                ("id"@, JsonView::Text(v.id@)),
                (
                    "last_active_at"@,
                    match v.last_active_at {
                        Some(n) => JsonView::Number(natural(n as nat)),
                        None => JsonView::Null,
                    },
                ),
                ("metadata"@, v.metadata@),
                (
                    "name"@,
                    match v.name {
                        Some(s) => JsonView::Text(s@),
                        None => JsonView::Null,
                    },
                ),
                ("object"@, JsonView::Text(v.object@)),
                (
                    "status"@,
                    match v.status {
                        Some(s) => JsonView::Text(s@),
                        None => JsonView::Null,
                    },
                ),
                ("usage_bytes"@, JsonView::Number(natural(v.usage_bytes as nat))),
            ]
        }),
{
}

/// The ids of a list are those of each of its files, in the order of the list.
pub proof fn ids_are_those_of_the_listed_files(list: VectorStoreFilesResponse)
    ensures
        listed_ids(list).len() == list.data@.len(),
        forall|i: int|
            0 <= i < list.data@.len() ==> #[trigger] listed_ids(list)[i] == list.data@[i].id@,
{
}

} // verus!
