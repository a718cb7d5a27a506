use citebot::details::{
    collect_details, detail_from, details_document, details_path, file_names, get_file_detail,
    is_error_report, load_file_names, FileDetail, NamesFailure,
};
use citebot::http::{Body, Method, Request};
use citebot::json::{parse_json, Json};
use citebot::storage::{summary_path, Step, Storage, StorageEvent};
use citebot::summary::{
    file_ids, summary_document, FileCounts, VectorStore, VectorStoreFile, VectorStoreFilesResponse,
};

fn detail(id: &str, filename: Option<&str>) -> FileDetail {
    FileDetail {
        id: id.to_string(),
        object: "file".to_string(),
        created_at: 17,
        filename: filename.map(|s| s.to_string()),
        purpose: None,
    }
}

fn summary() -> VectorStore {
    VectorStore {
        created_at: 1,
        expires_after: parse_json("{\"days\":7}"),
        expires_at: None,
        file_counts: FileCounts {
            cancelled: 2,
            completed: 3,
            failed: 4,
            in_progress: 5,
            total: 14,
        },
        id: "vs_1".to_string(),
        last_active_at: Some(6),
        metadata: parse_json("{}").unwrap(),
        name: None,
        object: "vector_store".to_string(),
        status: Some("completed".to_string()),
        usage_bytes: 18446744073709551615,
    }
}

fn list(ids: &[&str]) -> VectorStoreFilesResponse {
    VectorStoreFilesResponse {
        object: "list".to_string(),
        data: ids
            .iter()
            .map(|id| VectorStoreFile {
                id: id.to_string(),
                object: "vector_store.file".to_string(),
                created_at: 1,
            })
            .collect(),
        first_id: None,
        last_id: None,
        has_more: false,
    }
}

fn start() -> Storage {
    Storage::start("key".to_string(), "./data".to_string(), "vs_1".to_string())
}

fn check_get(request: &Request, url: &str, beta: bool) {
    assert_eq!(request.method, Method::Get);
    assert_eq!(request.url, url);
    assert_eq!(request.bearer, Some("key".to_string()));
    let mut headers = vec![("Content-Type".to_string(), "application/json".to_string())];
    if beta {
        headers.push(("OpenAI-Beta".to_string(), "assistants=v2".to_string()));
    }
    assert_eq!(request.headers, headers);
    assert!(matches!(request.body, Body::Empty));
}

fn failure(s: &Storage) -> String {
    match s.step() {
        Step::Failed { report } => report.clone(),
        other => panic!("{:?}", other),
    }
}

#[test]
fn a_store_is_fetched_step_by_step() {
    let s = start();
    match s.step() {
        Step::FetchSummary { request } => {
            check_get(request, "https://api.openai.com/v1/vector_stores/vs_1", true)
        }
        other => panic!("{:?}", other),
    }
    let s = s.advance(StorageEvent::Fetched(200));
    assert!(matches!(s.step(), Step::DecodeSummary));
    let s = s.advance(StorageEvent::Summarised(summary()));
    match s.step() {
        Step::SaveSummary { path, document } => {
            assert_eq!(path, "./data/vs_1_summary.json");
            assert_eq!(format!("{:?}", document), format!("{:?}", summary_document(summary())));
        }
        other => panic!("{:?}", other),
    }
    let s = s.advance(StorageEvent::Saved);
    match s.step() {
        Step::FetchList { request } => {
            check_get(request, "https://api.openai.com/v1/vector_stores/vs_1/files", true)
        }
        other => panic!("{:?}", other),
    }
    let s = s.advance(StorageEvent::Fetched(299));
    assert!(matches!(s.step(), Step::DecodeList));
    let s = s.advance(StorageEvent::Listed(list(&["f1", "f2"])));
    match s.step() {
        Step::FetchDetails { files } => {
            assert_eq!(files.len(), 2);
            assert_eq!(files[0].0, "f1");
            check_get(&files[0].1, "https://api.openai.com/v1/files/f1", false);
            assert_eq!(files[1].0, "f2");
            check_get(&files[1].1, "https://api.openai.com/v1/files/f2", false);
        }
        other => panic!("{:?}", other),
    }
    let s = s.advance(StorageEvent::Detailed(vec![Some(detail("f1", Some("a.pdf"))), None]));
    match s.step() {
        Step::SaveDetails { path, document } => {
            assert_eq!(path, "./data/vs_1_files_details.json");
            assert_eq!(path, &details_path("./data", "vs_1"));
            assert_eq!(file_names(document), Some(vec!["a.pdf".to_string()]));
        }
        other => panic!("{:?}", other),
    }
    let s = s.advance(StorageEvent::Saved);
    assert!(matches!(s.step(), Step::Finished));
    assert!(matches!(s.advance(StorageEvent::Fetched(500)).step(), Step::Finished));
}

#[test]
fn a_status_that_is_no_success_ends_the_fetching() {
    for status in [199, 300, 404, 500] {
        let s = start().advance(StorageEvent::Fetched(status));
        assert_eq!(failure(&s), "Summary fetch error");
        let s = start()
            .advance(StorageEvent::Fetched(200))
            .advance(StorageEvent::Summarised(summary()))
            .advance(StorageEvent::Saved)
            .advance(StorageEvent::Fetched(status));
        assert_eq!(failure(&s), "Files list fetch error");
        let s = s.advance(StorageEvent::Fetched(200)).advance(StorageEvent::Saved);
        assert_eq!(failure(&s), "Files list fetch error");
    }
}

#[test]
fn a_step_that_breaks_ends_the_fetching() {
    let s = start()
        .advance(StorageEvent::Fetched(200))
        .advance(StorageEvent::Broke("disk full".to_string()));
    assert_eq!(failure(&s), "disk full");
    assert_eq!(summary_path("d", "v"), "d/v_summary.json");
}

#[test]
fn a_summary_is_kept_field_by_field() {
    let expected = "Object([(\"created_at\", Number(\"1\")), \
        (\"expires_after\", Object([(\"days\", Number(\"7\"))])), (\"expires_at\", Null), \
        (\"file_counts\", Object([(\"cancelled\", Number(\"2\")), (\"completed\", Number(\"3\")), \
        (\"failed\", Number(\"4\")), (\"in_progress\", Number(\"5\")), (\"total\", Number(\"14\"))])), \
        (\"id\", Text(\"vs_1\")), (\"last_active_at\", Number(\"6\")), (\"metadata\", Object([])), \
        (\"name\", Null), (\"object\", Text(\"vector_store\")), (\"status\", Text(\"completed\")), \
        (\"usage_bytes\", Number(\"18446744073709551615\"))])";
    assert_eq!(format!("{:?}", summary_document(summary())), expected);
    let mut v = summary();
    v.expires_after = None;
    match summary_document(v) {
        Json::Object(members) => assert!(matches!(members[1].1, Json::Null)),
        _ => panic!("no object"),
    }
}

#[test]
fn the_ids_of_a_list_stay_in_order() {
    assert_eq!(file_ids(&list(&["b", "a", "b"])), vec!["b", "a", "b"]);
    assert!(file_ids(&list(&[])).is_empty());
}

#[test]
fn details_are_taken_from_a_good_answer() {
    let r = get_file_detail("f1", 200, "200 OK", b"{}", Ok(detail("f1", None)));
    assert_eq!(r.unwrap().id, "f1");
}

#[test]
fn an_answer_with_an_error_is_refused_whatever_its_status() {
    for status in [200, 404] {
        let r = get_file_detail("f1", status, "x", b"{\"error\": {}}", Ok(detail("f1", None)));
        assert_eq!(r.unwrap_err(), "Error response for file f1");
    }
    let r = get_file_detail("f1", 200, "200 OK", b"{\"errors\": 1}", Ok(detail("f1", None)));
    assert!(r.is_ok());
}

#[test]
fn the_details_of_a_file_named_error_are_taken() {
    let answer = "{\"id\":\"f1\",\"object\":\"file\",\"created_at\":1,\
                  \"filename\":\"error\",\"purpose\":\"assistants\"}";
    let decoded = || FileDetail {
        id: "f1".to_string(),
        object: "file".to_string(),
        created_at: 1,
        filename: Some("error".to_string()),
        purpose: Some("assistants".to_string()),
    };
    let r = get_file_detail("f1", 200, "200 OK", answer.as_bytes(), Ok(decoded()));
    let d = r.unwrap();
    assert_eq!(d.id, "f1");
    assert_eq!(d.object, "file");
    assert_eq!(d.created_at, 1);
    assert_eq!(d.filename, Some("error".to_string()));
    assert_eq!(d.purpose, Some("assistants".to_string()));
    let r = get_file_detail("f1", 404, "404 Not Found", answer.as_bytes(), Ok(decoded()));
    assert_eq!(
        r.unwrap_err(),
        format!("Failed to fetch file f1: 404 Not Found - {}", answer)
    );
}

#[test]
fn only_an_error_object_reports_an_error() {
    for text in [
        "{\"error\":{\"code\":1}}", "{\"id\":\"f1\",\"error\":{}}", "{\"a\":{\"error\":{}}}",
        "[1,{\"error\":{}}]", "{\"a\":[[],{\"b\":{\"error\":{}}}]}", "{\"error\":[{\"error\":{}}]}",
    ] {
        assert!(is_error_report(text, &parse_json(text)), "{}", text);
    }
    for text in [
        "{\"error\":null}", "{\"error\":\"x\"}", "\"error\"", "{\"filename\":\"error\"}", "{}",
        "{\"errors\":{}}", "[\"error\",{}]",
    ] {
        assert!(!is_error_report(text, &parse_json(text)), "{}", text);
    }
    let document = parse_json("{\"error\":{}}");
    let r = detail_from("f1", 404, "404 Not Found", "raw", &document, Ok(detail("f1", None)));
    assert_eq!(r.unwrap_err(), "Error response for file f1");
}

#[test]
fn an_error_is_told_in_an_answer_that_is_damaged() {
    let cut = "{\"error\":{\"message\":\"no su";
    assert!(is_error_report(cut, &parse_json(cut)));
    assert!(!is_error_report("no error", &parse_json("no error")));
    for status in [200, 404] {
        for answer in [&b"{\"error\":{\"message\":\"\xff\"}}"[..], cut.as_bytes()] {
            let r = get_file_detail("f1", status, "x", answer, Err("no map".to_string()));
            assert_eq!(r.unwrap_err(), "Error response for file f1");
        }
    }
    let nested = b"{\"id\":\"f1\",\"status\":{\"error\":{}}}";
    let r = get_file_detail("f1", 200, "200 OK", nested, Ok(detail("f1", None)));
    assert_eq!(r.unwrap_err(), "Error response for file f1");
}

#[test]
fn an_answer_without_success_is_refused() {
    let r = get_file_detail("f1", 404, "404 Not Found", b"gone", Ok(detail("f1", None)));
    assert_eq!(r.unwrap_err(), "Failed to fetch file f1: 404 Not Found - gone");
}

#[test]
fn an_answer_that_is_not_decoded_is_refused() {
    let r = get_file_detail("f1", 200, "200 OK", b"[\xff]", Err("no map".to_string()));
    assert_eq!(
        r.unwrap_err(),
        "Error decoding FileDetail for file f1: no map. Raw response: [\u{fffd}]"
    );
    let r = detail_from("f1", 200, "200 OK", "raw", &None, Err("no map".to_string()));
    assert_eq!(
        r.unwrap_err(),
        "Error decoding FileDetail for file f1: no map. Raw response: raw"
    );
}

#[test]
fn details_that_could_be_had_stay_in_order() {
    let r = collect_details(vec![None, Some(detail("a", None)), None, Some(detail("b", None))]);
    let ids: Vec<String> = r.into_iter().map(|d| d.id).collect();
    assert_eq!(ids, vec!["a".to_string(), "b".to_string()]);
}

#[test]
fn kept_names_are_read_back() {
    let details =
        vec![detail("1", Some("a.pdf")), detail("2", None), detail("3", Some("b.pdf"))];
    let document = details_document(&details);
    assert_eq!(
        file_names(&document),
        Some(vec!["a.pdf".to_string(), "b.pdf".to_string()])
    );
    match &document {
        Json::Array(items) => match &items[0] {
            Json::Object(m) => {
                let names: Vec<&str> = m.iter().map(|(k, _)| k.as_str()).collect();
                assert_eq!(names, vec!["id", "object", "created_at", "filename", "purpose"]);
                assert!(matches!(&m[2].1, Json::Number(n) if n == "17"));
                assert!(matches!(&m[4].1, Json::Null));
            }
            _ => panic!("no object"),
        },
        _ => panic!("no list"),
    }
}

#[test]
fn file_names_are_loaded_from_a_list() {
    let contents = "[{\"filename\":\"a.pdf\"},{\"filename\":null},{},3,{\"filename\":\"b\"}]";
    assert_eq!(load_file_names(contents).unwrap(), vec!["a.pdf", "b"]);
    assert!(load_file_names("[]").unwrap().is_empty());
    assert!(matches!(load_file_names("{\"filename\":\"a\"}"), Err(NamesFailure::NoList)));
    match load_file_names("[{\"filename\":") {
        Err(NamesFailure::NoDocument(e)) => assert!(e.is_eof()),
        other => panic!("{:?}", other),
    }
}
