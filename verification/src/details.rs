//! The details of the files that an assistant can search: how an answer with
//! them is checked, how they are kept on disk, how the file names are read back.

use crate::decimal::natural;
use crate::decimal::natural_text;
use crate::http::is_success;
use crate::http::option_text;
use crate::http::succeeded;
use crate::json::at_path;
use crate::json::collect_texts;
use crate::json::first_member;
use crate::json::json_text;
use crate::json::lemma_member_trees;
use crate::json::lemma_trees;
use crate::json::member;
use crate::json::member_trees;
use crate::json::parse_json;
use crate::json::path_names;
use crate::json::paths_lead_from_member_to_member;
use crate::json::read_json;
use crate::json::text_at;
use crate::json::text_tree;
use crate::json::texts_at;
use crate::json::trees;
use crate::json::Json;
use crate::json::JsonView;
use crate::text::chars_of;
use crate::text::contains;
use crate::text::copy_text;
use crate::text::find_in;
use crate::text::join;
use crate::text::join3;
use crate::text::same_text;
use crate::text::texts;
use crate::text::what_is_contained_is_found;
use crate::utf8::decode_lossy;
use crate::utf8::lossy_text;
use vstd::prelude::*;

verus! {

// --------------------------------------------------------------------- answers

/// The name of an error object.
pub const ERROR_NAME: &'static str = "error";

/// The name of an error object as it stands in the text of a document.
pub const ERROR_MARK: &'static str = "\"error\"";

/// The tree of a document, where there is one.
pub open spec fn document_tree(document: Option<Json>) -> Option<JsonView> {
    match document {
        Some(j) => Some(j@),
        None => None,
    }
}

/// An error object stands somewhere in a document.
pub open spec fn holds_error(j: JsonView) -> bool
    decreases j,
{
    match j {
        JsonView::Array(items) => exists|i: int|
            0 <= i < items.len() && holds_error(#[trigger] items[i]),
        JsonView::Object(members) => exists|i: int|
            0 <= i < members.len() && (is_error_object(#[trigger] members[i]) || holds_error(
                members[i].1,
            )),
        _ => false,
    }
}

/// A member that is an error object.
pub open spec fn is_error_object(m: (Seq<char>, JsonView)) -> bool {
    m.0 == ERROR_NAME@ && m.1 is Object
}

/// An answer that reports an error: its document holds an error object. In a
/// text that is no JSON document, no object can be told; there the name of an
/// error object counts.
pub open spec fn reports_error(raw: Seq<char>, document: Option<JsonView>) -> bool {
    match document {
        Some(j) => holds_error(j),
        None => contains(raw, ERROR_MARK@),
    }
}

/// What stands in an item of a list stands in the list.
proof fn lemma_error_in_item(items: Seq<JsonView>, i: int)
    requires
        0 <= i < items.len(),
        holds_error(items[i]),
    ensures
        holds_error(JsonView::Array(items)),
{
    let j = JsonView::Array(items);
    assert(j->Array_0[i] == items[i]);
}

/// What stands in a member of an object stands in the object.
proof fn lemma_error_in_member(members: Seq<(Seq<char>, JsonView)>, i: int)
    requires
        0 <= i < members.len(),
        is_error_object(members[i]) || holds_error(members[i].1),
    ensures
        holds_error(JsonView::Object(members)),
{
    let j = JsonView::Object(members);
    assert(j->Object_0[i] == members[i]);
}

/// Whether an error object stands somewhere in a document.
fn has_error_object(j: &Json) -> (r: bool)
    ensures
        r == holds_error(j@),
    decreases j,
{
    match j {
        Json::Array(items) => {
            proof {
                lemma_trees(items@);
            }
            let ghost all = trees(items@);
            let n: usize = items.len();
            let mut i: usize = 0;
            while i < n
                invariant
                    n == items@.len(),
                    i <= n,
                    *j == Json::Array(*items),
                    j@ == JsonView::Array(all),
                    all.len() == n,
                    forall|k: int| 0 <= k < n ==> #[trigger] all[k] == items@[k]@,
                    forall|k: int| 0 <= k < i ==> !holds_error(#[trigger] all[k]),
                decreases n - i,
            {
                assert(all[i as int] == items@[i as int]@);
                if has_error_object(&items[i]) {
                    proof {
                        lemma_error_in_item(all, i as int);
                    }
                    return true;
                }
                i += 1;
            }
            false
        },
        Json::Object(members) => {
            proof {
                lemma_member_trees(members@);
            }
            let ghost all = member_trees(members@);
            let n: usize = members.len();
            let mut i: usize = 0;
            while i < n
                invariant
                    n == members@.len(),
                    i <= n,
                    *j == Json::Object(*members),
                    j@ == JsonView::Object(all),
                    all.len() == n,
                    forall|k: int|
                        0 <= k < n ==> #[trigger] all[k] == (members@[k].0@, members@[k].1@),
                    forall|k: int|
                        0 <= k < i ==> !is_error_object(#[trigger] all[k]) && !holds_error(
                            all[k].1,
                        ),
                decreases n - i,
            {
                assert(all[i as int] == (members@[i as int].0@, members@[i as int].1@));
                let named = same_text(members[i].0.as_str(), ERROR_NAME);
                let object = matches!(&members[i].1, Json::Object(_));
                if named && object || has_error_object(&members[i].1) {
                    proof {
                        lemma_error_in_member(all, i as int);
                    }
                    return true;
                }
                i += 1;
            }
            false
        },
        _ => false,
    }
}

/// Whether an answer reports an error, from its text and the JSON document that
/// the text is, where it is one.
pub fn is_error_report(raw: &str, document: &Option<Json>) -> (r: bool)
    ensures
        r == reports_error(raw@, document_tree(*document)),
{
    match document {
        Some(j) => has_error_object(j),
        None => find_in(
            chars_of(raw).as_slice(),
            chars_of(ERROR_MARK).as_slice(),
        ).is_some(),
    }
}

/// What is wrong with the answer to a request for the details of a file: it
/// reports an error, whatever its status, or its status is no success.
pub open spec fn file_failure(
    file_id: Seq<char>,
    status: u16,
    status_text: Seq<char>,
    raw: Seq<char>,
    error: bool,
) -> Option<Seq<char>> {
    if error {
        Some("Error response for file "@ + file_id)
    } else if !is_success(status) {
        Some("Failed to fetch file "@ + file_id + ": "@ + status_text + " - "@ + raw)
    } else {
        None
    }
}

/// What is reported where the details of a file cannot be decoded.
pub open spec fn undecodable(file_id: Seq<char>, cause: Seq<char>, raw: Seq<char>) -> Seq<char> {
    "Error decoding FileDetail for file "@ + file_id + ": "@ + cause + ". Raw response: "@ + raw
}

/// The details of a file, from the answer to the request for them: its status as
/// a number and as a text, its text, the JSON document that it is, where it is
/// one, and what came of decoding it. Where the details cannot be had, the
/// result is what is reported.
pub fn detail_from(
    file_id: &str,
    status: u16,
    status_text: &str,
    raw: &str,
    document: &Option<Json>,
    decoded: Result<FileDetail, String>,
) -> (r: Result<FileDetail, String>)
    ensures
        match file_failure(
            file_id@,
            status,
            status_text@,
            raw@,
            reports_error(raw@, document_tree(*document)),
        ) {
            Some(report) => r is Err && r->Err_0@ == report,
            None => match decoded {
                Ok(detail) => r == Ok::<FileDetail, String>(detail),
                Err(cause) => r is Err && r->Err_0@ == undecodable(file_id@, cause@, raw@),
            },
        },
{
    if is_error_report(raw, document) {
        return Err(join("Error response for file ", file_id));
    }
    if !succeeded(status) {
        let mut report = join3("Failed to fetch file ", file_id, ": ");
        report.append(status_text);
        report.append(" - ");
        report.append(raw);
        return Err(report);
    }
    match decoded {
        Ok(detail) => Ok(detail),
        Err(cause) => {
            let mut report = join3("Error decoding FileDetail for file ", file_id, ": ");
            report.append(cause.as_str());
            report.append(". Raw response: ");
            report.append(raw);
            Err(report)
        },
    }
}

/// The details of a file, from the answer to the request for them. The text of
/// the answer is what is made of its bytes, valid UTF-8 or not; whether it
/// reports an error is told by the JSON document that this text is.
pub fn get_file_detail(
    file_id: &str,
    status: u16,
    status_text: &str,
    answer: &[u8],
    decoded: Result<FileDetail, String>,
) -> (r: Result<FileDetail, String>)
    ensures
        match file_failure(
            file_id@,
            status,
            status_text@,
            lossy_text(answer@),
            reports_error(lossy_text(answer@), text_tree(lossy_text(answer@))),
        ) {
            Some(report) => r is Err && r->Err_0@ == report,
            None => match decoded {
                Ok(detail) => r == Ok::<FileDetail, String>(detail),
                Err(cause) => r is Err && r->Err_0@ == undecodable(
                    file_id@,
                    cause@,
                    lossy_text(answer@),
                ),
            },
        },
{
    let raw = decode_lossy(answer);
    let document = parse_json(raw.as_str());
    detail_from(file_id, status, status_text, raw.as_str(), &document, decoded)
}

/// In a JSON document only an error object counts as a report of an error: an
/// answer without one, whatever words it holds, is refused only for its status.
pub proof fn words_are_no_error_reports(
    file_id: Seq<char>,
    status: u16,
    status_text: Seq<char>,
    raw: Seq<char>,
    document: JsonView,
)
    requires
        !holds_error(document),
    ensures
        file_failure(file_id, status, status_text, raw, reports_error(raw, Some(document))) is None
            <==> is_success(status),
{
}

// ------------------------------------------------------------------ the details

/// The details of a file.
#[derive(Debug)]
pub struct FileDetail {
    pub id: String,
    pub object: String,
    pub created_at: u64,
    pub filename: Option<String>,
    pub purpose: Option<String>,
}

/// The details of those files for which they could be had.
pub open spec fn had(results: Seq<Option<FileDetail>>) -> Seq<FileDetail> {
    results.filter_map(|r: Option<FileDetail>| r)
}

/// Keeps the details that could be had, in their order.
pub fn collect_details(results: Vec<Option<FileDetail>>) -> (r: Vec<FileDetail>)
    ensures
        r@ == had(results@),
{
    let ghost all = results@;
    let ghost f = |r: Option<FileDetail>| r;
    let mut r: Vec<FileDetail> = Vec::new();
    assert(all.take(0).filter_map(f) =~= seq![]);
    for result in it: results
        invariant
            it.seq() == all,
            f == (|r: Option<FileDetail>| r),
            r@ == all.take(it.index() as int).filter_map(f),
    {
        let ghost i = it.index() as int;
        assert(all.take(i + 1).drop_last() =~= all.take(i));
        assert(all.take(i + 1).last() == result);
        let ghost before = r@;
        if let Some(detail) = result {
            r.push(detail);
            assert(r@ =~= before + seq![detail]);
        }
    }
    assert(all.take(all.len() as int) =~= all);
    r
}

/// An optional text as JSON.
pub open spec fn optional_json(s: Option<Seq<char>>) -> JsonView {
    match s {
        Some(s) => JsonView::Text(s),
        None => JsonView::Null,
    }
}

/// The details of a file as they are kept.
pub open spec fn detail_tree(d: FileDetail) -> JsonView {
    JsonView::Object(
        seq![
            ("id"@, JsonView::Text(d.id@)),
            ("object"@, JsonView::Text(d.object@)),
            ("created_at"@, JsonView::Number(natural(d.created_at as nat))),
            ("filename"@, optional_json(option_text(d.filename))),
            ("purpose"@, optional_json(option_text(d.purpose))),
        ],
    )
}

/// The list of the details as it is kept.
pub open spec fn details_tree(details: Seq<FileDetail>) -> JsonView {
    JsonView::Array(details.map_values(|d: FileDetail| detail_tree(d)))
}

/// An optional text as JSON.
pub fn optional(s: &Option<String>) -> (r: Json)
    ensures
        r@ == optional_json(option_text(*s)),
{
    match s {
        Some(s) => json_text(s.as_str()),
        None => Json::Null,
    }
}

fn detail_document(d: &FileDetail) -> (r: Json)
    ensures
        r@ == detail_tree(*d),
{
    let members = vec![
        (copy_text("id"), json_text(d.id.as_str())),
        (copy_text("object"), json_text(d.object.as_str())),
        (copy_text("created_at"), Json::Number(natural_text(d.created_at))),
        (copy_text("filename"), optional(&d.filename)),
        (copy_text("purpose"), optional(&d.purpose)),
    ];
    proof {
        lemma_member_trees(members@);
        assert(member_trees(members@) =~= detail_tree(*d)->Object_0);
    }
    Json::Object(members)
}

/// The list of the details as it is kept.
pub fn details_document(details: &Vec<FileDetail>) -> (r: Json)
    ensures
        r@ == details_tree(details@),
{
    let n: usize = details.len();
    let mut items: Vec<Json> = Vec::new();
    let mut i: usize = 0;
    while i < n
        invariant
            n == details@.len(),
            i <= n,
            items@.len() == i,
            forall|k: int| 0 <= k < i ==> #[trigger] items@[k]@ == detail_tree(details@[k]),
        decreases n - i,
    {
        items.push(detail_document(&details[i]));
        i += 1;
    }
    proof {
        lemma_trees(items@);
        assert(trees(items@) =~= details_tree(details@)->Array_0);
    }
    Json::Array(items)
}

// --------------------------------------------------------------- the file names

/// The file names in a list of details; `None` where the document is no list.
pub open spec fn listed_names(document: JsonView) -> Option<Seq<Seq<char>>> {
    match document {
        JsonView::Array(items) => Some(texts_at(items, seq!["filename"@])),
        _ => None,
    }
}

/// The names of those files that have one.
pub open spec fn names_of_files(details: Seq<FileDetail>) -> Seq<Seq<char>> {
    details.filter_map(|d: FileDetail| option_text(d.filename))
}

/// Reads the file names in a list of details.
pub fn file_names(document: &Json) -> (r: Option<Vec<String>>)
    ensures
        match r {
            Some(names) => listed_names(document@) == Some(texts(names@)),
            None => listed_names(document@) is None,
        },
{
    match document {
        Json::Array(items) => {
            let path = ["filename"];
            assert(path_names(path@) =~= seq!["filename"@]);
            Some(collect_texts(items, &path))
        },
        _ => None,
    }
}

/// Why no file names could be read.
#[derive(Debug)]
pub enum NamesFailure {
    /// The text is no JSON document.
    NoDocument(serde_json::Error),
    /// The document is no list.
    NoList,
}

/// Reads the file names in the text of a list of details.
pub fn load_file_names(contents: &str) -> (r: Result<Vec<String>, NamesFailure>)
    ensures
        match text_tree(contents@) {
            Some(document) => match r {
                Ok(names) => listed_names(document) == Some(texts(names@)),
                Err(failure) => failure is NoList && listed_names(document) is None,
            },
            None => r is Err && r->Err_0 is NoDocument,
        },
{
    match read_json(contents) {
        Ok(document) => match file_names(&document) {
            Some(names) => Ok(names),
            None => Err(NamesFailure::NoList),
        },
        Err(e) => Err(NamesFailure::NoDocument(e)),
    }
}

/// The name under which a file is listed is its name.
proof fn lemma_filename(d: FileDetail)
    ensures
        text_at(seq!["filename"@])(detail_tree(d)) == option_text(d.filename),
{
    reveal_strlit("id");
    reveal_strlit("object");
    reveal_strlit("created_at");
    reveal_strlit("filename");
    let key = "filename"@;
    let path = seq![key];
    let members = detail_tree(d)->Object_0;
    assert("id"@.len() == 2);
    assert("object"@.len() == 6);
    assert("created_at"@.len() == 10);
    assert(key.len() == 8);
    reveal_with_fuel(first_member, 5);
    let m1 = members.drop_first();
    let m2 = m1.drop_first();
    let m3 = m2.drop_first();
    assert(m1.first() == members[1]);
    assert(m2.first() == members[2]);
    assert(m3.first() == members[3]);
    assert(first_member(m3, key) == Some(members[3].1));
    assert(first_member(members, key) == Some(members[3].1));
    assert(path.first() == key);
    assert(path.drop_first() =~= seq![]);
    assert(at_path(members[3].1, path.drop_first()) == Some(members[3].1));
}

/// The names that are read back from the kept details of some files are the names
/// of these files, in their order.
pub proof fn kept_names_are_read_back(details: Seq<FileDetail>)
    ensures
        listed_names(details_tree(details)) == Some(names_of_files(details)),
    decreases details.len(),
{
    let items = details_tree(details)->Array_0;
    let f = text_at(seq!["filename"@]);
    if details.len() > 0 {
        let before = details.drop_last();
        kept_names_are_read_back(before);
        lemma_filename(details.last());
        assert(items.drop_last() =~= details_tree(before)->Array_0);
        assert(items.last() == detail_tree(details.last()));
    }
}

// ------------------------------------------------------------------------ files

/// Where the details of the files of a vector store are kept.
pub open spec fn details_file(dir: Seq<char>, store_id: Seq<char>) -> Seq<char> {
    dir + "/"@ + store_id + "_files_details.json"@
}

/// Where the details of the files of a vector store are kept.
pub fn details_path(dir: &str, store_id: &str) -> (r: String)
    ensures
        r@ == details_file(dir@, store_id@),
{
    let start = join3(dir, "/", store_id);
    join(start.as_str(), "_files_details.json")
}

// ------------------------------------------------------------------------ laws

/// The details that are kept are those of each file for which they could be had,
/// whatever they are, in the order of the files; a file for which they could not
/// be had adds nothing.
pub proof fn details_are_kept_one_by_one(
    results: Seq<Option<FileDetail>>,
    detail: FileDetail,
)
    ensures
        had(Seq::empty()) == Seq::<FileDetail>::empty(),
        had(results.push(Some(detail))) == had(results).push(detail),
        had(results.push(None)) == had(results),
{
    let a = results.push(Some(detail));
    let b = results.push(None);
    assert(a.drop_last() =~= results);
    assert(b.drop_last() =~= results);
    assert(had(a) =~= had(results).push(detail));
    assert(had(b) =~= had(results));
}

/// Where the details of all files could be had, all are kept, each at its place.
pub proof fn all_details_are_kept(details: Seq<FileDetail>)
    ensures
        had(details.map_values(|d: FileDetail| Some(d))) == details,
    decreases details.len(),
{
    let all = details.map_values(|d: FileDetail| Some(d));
    if details.len() > 0 {
        let before = details.drop_last();
        all_details_are_kept(before);
        let results = before.map_values(|d: FileDetail| Some(d));
        details_are_kept_one_by_one(results, details.last());
        assert(all =~= results.push(Some(details.last())));
        assert(details =~= before.push(details.last()));
    } else {
        details_are_kept_one_by_one(all, arbitrary());
        assert(all =~= Seq::empty());
        assert(details =~= Seq::empty());
    }
}

/// The details of a file are kept with each of their fields as it is, at its place
/// in the list.
pub proof fn details_are_kept_field_by_field(details: Seq<FileDetail>, i: int)
    requires
        0 <= i < details.len(),
    ensures
        details_tree(details) is Array,
        details_tree(details)->Array_0.len() == details.len(),
        details_tree(details)->Array_0[i] is Object,
        details_tree(details)->Array_0[i]->Object_0 == seq![
            ("id"@, JsonView::Text(details[i].id@)),
            ("object"@, JsonView::Text(details[i].object@)),
            ("created_at"@, JsonView::Number(natural(details[i].created_at as nat))),
            (
                "filename"@,
                match details[i].filename {
                    Some(s) => JsonView::Text(s@),
                    None => JsonView::Null,
                },
            ),
            (
                "purpose"@,
                match details[i].purpose {
                    Some(s) => JsonView::Text(s@),
                    None => JsonView::Null,
                },
            ),
        ],
{
}

/// The names in a list of details are the texts of the members `filename` of its
/// items, whatever other members the items have, in the order of the items; an
/// item without such a text adds nothing.
pub proof fn names_are_read_one_by_one(items: Seq<JsonView>, item: JsonView)
    ensures
        listed_names(JsonView::Array(Seq::empty())) == Some(Seq::<Seq<char>>::empty()),
        member(item, "filename"@) matches Some(JsonView::Text(name)) ==> listed_names(
            JsonView::Array(items.push(item)),
        ) == Some((listed_names(JsonView::Array(items))->0).push(name)),
        !(member(item, "filename"@) matches Some(JsonView::Text(_))) ==> listed_names(
            JsonView::Array(items.push(item)),
        ) == listed_names(JsonView::Array(items)),
        !(item is Array) ==> listed_names(item) is None,
{
    let path = seq!["filename"@];
    let all = items.push(item);
    paths_lead_from_member_to_member(item, "filename"@, "filename"@);
    assert(all.drop_last() =~= items);
    assert(Seq::<JsonView>::empty().filter_map(text_at(path)) =~= Seq::empty());
    if let Some(JsonView::Text(name)) = member(item, "filename"@) {
        assert(text_at(path)(item) == Some(name));
        assert(texts_at(all, path) =~= texts_at(items, path).push(name));
    } else {
        assert(text_at(path)(item) is None);
        assert(texts_at(all, path) =~= texts_at(items, path));
    }
}

/// The names of some files are those of each file that has one, in the order of
/// the files.
pub proof fn names_are_those_of_the_files(files: Seq<FileDetail>, file: FileDetail)
    ensures
        names_of_files(Seq::empty()) == Seq::<Seq<char>>::empty(),
        file.filename matches Some(name) ==> names_of_files(files.push(file)) == names_of_files(
            files,
        ).push(name@),
        file.filename is None ==> names_of_files(files.push(file)) == names_of_files(files),
{
    let all = files.push(file);
    assert(all.drop_last() =~= files);
    if let Some(name) = file.filename {
        assert(names_of_files(all) =~= names_of_files(files).push(name@));
    } else {
        assert(names_of_files(all) =~= names_of_files(files));
    }
}

/// An answer is refused where it reports an error, whatever its status; then where
/// its status is no success; and in no other case. What is reported names the
/// file, the status and the whole answer.
pub proof fn answers_are_refused_for_an_error_or_their_status(
    file_id: Seq<char>,
    status: u16,
    status_text: Seq<char>,
    raw: Seq<char>,
    cause: Seq<char>,
)
    ensures
        file_failure(file_id, status, status_text, raw, true) == Some(
            "Error response for file "@ + file_id,
        ),
        200 <= status <= 299 ==> file_failure(file_id, status, status_text, raw, false) is None,
        !(200 <= status <= 299) ==> file_failure(file_id, status, status_text, raw, false)
            == Some("Failed to fetch file "@ + file_id + ": "@ + status_text + " - "@ + raw),
        undecodable(file_id, cause, raw) == "Error decoding FileDetail for file "@ + file_id
            + ": "@ + cause + ". Raw response: "@ + raw,
{
}

/// An error object reports an error as a member of any object, and inside any item
/// of a list and any member of an object, wherever it stands there.
pub proof fn error_objects_are_found_anywhere(
    before: Seq<(Seq<char>, JsonView)>,
    name: Seq<char>,
    value: JsonView,
    after: Seq<(Seq<char>, JsonView)>,
    front: Seq<JsonView>,
    back: Seq<JsonView>,
    raw: Seq<char>,
)
    ensures
        name == "error"@ && value is Object ==> reports_error(
            raw,
            Some(JsonView::Object(before + seq![(name, value)] + after)),
        ),
        reports_error(raw, Some(value)) ==> reports_error(
            raw,
            Some(JsonView::Object(before + seq![(name, value)] + after)),
        ),
        reports_error(raw, Some(value)) ==> reports_error(
            raw,
            Some(JsonView::Array(front + seq![value] + back)),
        ),
{
    let members = before + seq![(name, value)] + after;
    let items = front + seq![value] + back;
    assert(members[before.len() as int] == (name, value));
    assert(items[front.len() as int] == value);
    if is_error_object((name, value)) || holds_error(value) {
        lemma_error_in_member(members, before.len() as int);
    }
    if holds_error(value) {
        lemma_error_in_item(items, front.len() as int);
    }
}

/// A document without an error object reports no error: a text, a number, a truth
/// value and null never do; a list does not where none of its items does; an
/// object does not where none of its members does or is an error object.
pub proof fn documents_without_an_error_object_report_none(
    j: JsonView,
    members: Seq<(Seq<char>, JsonView)>,
    items: Seq<JsonView>,
    raw: Seq<char>,
)
    requires
        forall|i: int|
            0 <= i < members.len() ==> !reports_error(raw, Some((#[trigger] members[i]).1)) && !(
            members[i].0 == "error"@ && members[i].1 is Object),
        forall|i: int| 0 <= i < items.len() ==> !reports_error(raw, Some(#[trigger] items[i])),
    ensures
        !(j is Array) && !(j is Object) ==> !reports_error(raw, Some(j)),
        !reports_error(raw, Some(JsonView::Object(members))),
        !reports_error(raw, Some(JsonView::Array(items))),
{
    let o = JsonView::Object(members);
    if holds_error(o) {
        let i = choose|i: int|
            0 <= i < members.len() && (is_error_object(#[trigger] members[i]) || holds_error(
                members[i].1,
            ));
        assert(!reports_error(raw, Some(members[i].1)));
    }
    let a = JsonView::Array(items);
    if holds_error(a) {
        let i = choose|i: int| 0 <= i < items.len() && holds_error(#[trigger] items[i]);
        assert(!reports_error(raw, Some(items[i])));
    }
}

/// A document shows its tree.
pub proof fn documents_show_their_trees(j: Json)
    ensures
        document_tree(Some(j)) == Some(j@),
        document_tree(None) is None,
{
}

/// In a text that is no document, an error is reported where the quoted word
/// stands in it.
pub proof fn damaged_answers_report_errors_by_name(raw: Seq<char>)
    ensures
        reports_error(raw, None) <==> exists|a: Seq<char>, b: Seq<char>|
            raw == #[trigger] (a + "\"error\""@ + b),
{
    what_is_contained_is_found(raw, "\"error\""@);
}

} // verus!
