use tsearch::models::SearchEngineError;
use tsearch::preprocess;
use tsearch::search::{i64_to_string, json_escape_str, render_results, SearchHit};
use tsearch::stopword_list;

#[test]
fn preprocess_replaces_hyphens() {
    assert_eq!(preprocess("Студент-программист"), "Студент программист");
    assert_eq!(preprocess("a-b-c"), "a b c");
    assert_eq!(preprocess("no hyphen"), "no hyphen");
    assert_eq!(preprocess(""), "");
    assert_eq!(preprocess("---"), "   ");
}

#[test]
fn stopword_list_holds_all_words() {
    let v = stopword_list();
    assert_eq!(v.len(), 151);
    assert!(v.iter().any(|w| w == "и"));
    assert!(v.iter().any(|w| w == "между"));
    assert!(v.iter().any(|w| w == "нибудь"));
    assert!(!v.iter().any(|w| w == "кот"));
}

#[test]
fn decimal_rendering_exact() {
    assert_eq!(i64_to_string(0), "0");
    assert_eq!(i64_to_string(7), "7");
    assert_eq!(i64_to_string(114215), "114215");
    assert_eq!(i64_to_string(-42), "-42");
    assert_eq!(i64_to_string(i64::MAX), "9223372036854775807");
    assert_eq!(i64_to_string(i64::MIN), "-9223372036854775808");
}

#[test]
fn json_escaping_exact() {
    assert_eq!(json_escape_str("plain"), "plain");
    assert_eq!(json_escape_str("a\"b"), "a\\\"b");
    assert_eq!(json_escape_str("a\\b"), "a\\\\b");
    assert_eq!(json_escape_str("a\nb\tc\rd"), "a\\nb\\tc\\rd");
    assert_eq!(json_escape_str("Кот"), "Кот");
}

#[test]
fn response_rendering_exact() {
    let hits = vec![
        SearchHit { score: "1.5".to_string(), thread_id: 1, title: "Кот".to_string() },
        SearchHit { score: "0.25".to_string(), thread_id: -2, title: "a\"b".to_string() },
    ];
    assert_eq!(
        render_results(&hits),
        "[[1.5,{\"thread_id\":1,\"title\":\"Кот\"}],[0.25,{\"thread_id\":-2,\"title\":\"a\\\"b\"}]]"
    );
    let none: Vec<SearchHit> = Vec::new();
    assert_eq!(render_results(&none), "[]");
}

#[test]
fn error_messages_exist() {
    assert_eq!(SearchEngineError::CommitFailed.message(), "commit failed");
    assert_eq!(SearchEngineError::QuerySyntaxError.message(), "query syntax error");
    assert_eq!(SearchEngineError::StorageUnavailable.message(), "storage unavailable");
    assert_eq!(SearchEngineError::SchemaMismatch.message(), "schema mismatch");
    assert_eq!(SearchEngineError::SearchUnavailable.message(), "search unavailable");
}
