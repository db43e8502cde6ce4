use tsearch::coordinator::{clear_all, drop_index, modify_index, scan_ids, MutationCommand};
use tsearch::crud::doc_by_id;
use tsearch::models::{Post, SearchEngineError};
use tsearch::search::{search_hits, search_index};
use tsearch::state::SearchState;

fn post(thread_id: i64, title: &str) -> Post {
    Post {
        thread_id,
        title: title.to_string(),
        text: String::new(),
        node_id: 0,
        needModer: 0,
        post_date: 0,
    }
}

fn upsert(thread_id: i64, title: &str, overwrite: bool) -> MutationCommand {
    MutationCommand::Upsert { post: post(thread_id, title), overwrite }
}

#[test]
fn upsert_overwrite_idempotent() {
    let mut s = SearchState::new_in_ram().unwrap();
    modify_index(&mut s, &vec![upsert(1, "Альфа", true)]).unwrap();
    modify_index(&mut s, &vec![upsert(1, "Альфа", true)]).unwrap();
    let ids = scan_ids(&s, 10).unwrap();
    assert_eq!(ids, vec![1]);
    let d = doc_by_id(&s, 1).unwrap().unwrap();
    assert_eq!(d.thread_id, 1);
    assert_eq!(d.title, "Альфа");
}

#[test]
fn skip_existing_keeps_document() {
    let mut s = SearchState::new_in_ram().unwrap();
    modify_index(&mut s, &vec![upsert(1, "Первый", true)]).unwrap();
    let applied = modify_index(&mut s, &vec![upsert(1, "Второй", false)]).unwrap();
    assert_eq!(applied, vec![false]);
    let ids = scan_ids(&s, 10).unwrap();
    assert_eq!(ids, vec![1]);
    let d = doc_by_id(&s, 1).unwrap().unwrap();
    assert_eq!(d.title, "Первый");
}

#[test]
fn delete_nonexistent_and_twice() {
    let mut s = SearchState::new_in_ram().unwrap();
    let applied = modify_index(&mut s, &vec![MutationCommand::Delete { thread_id: 42 }]).unwrap();
    assert_eq!(applied, vec![true]);
    assert_eq!(scan_ids(&s, 10).unwrap().len(), 0);
    modify_index(&mut s, &vec![upsert(7, "Семь", true)]).unwrap();
    modify_index(&mut s, &vec![MutationCommand::Delete { thread_id: 7 }]).unwrap();
    assert_eq!(scan_ids(&s, 10).unwrap().len(), 0);
    modify_index(&mut s, &vec![MutationCommand::Delete { thread_id: 7 }]).unwrap();
    assert_eq!(scan_ids(&s, 10).unwrap().len(), 0);
}

#[test]
fn analysis_symmetry_hyphen_compound() {
    let mut s = SearchState::new_in_ram().unwrap();
    modify_index(&mut s, &vec![upsert(5, "Студент-программист", true)]).unwrap();
    let hits = search_hits(&s, "программист", 10).unwrap();
    assert_eq!(hits.len(), 1);
    assert_eq!(hits[0].thread_id, 5);
    let hits = search_hits(&s, "студент", 10).unwrap();
    assert_eq!(hits.len(), 1);
}

#[test]
fn stopword_dropped_from_query() {
    let mut s = SearchState::new_in_ram().unwrap();
    let mut p = post(3, "кошка");
    p.text = "кошка и собака".to_string();
    modify_index(&mut s, &vec![MutationCommand::Upsert { post: p, overwrite: true }]).unwrap();
    let hits = search_hits(&s, "и", 10).unwrap();
    assert_eq!(hits.len(), 0);
    let hits = search_hits(&s, "собака", 10).unwrap();
    assert_eq!(hits.len(), 1);
}

#[test]
fn bulk_clear_below_chunk() {
    let mut s = SearchState::new_in_ram().unwrap();
    let mut batch = Vec::new();
    for i in 1..6 {
        batch.push(upsert(i, "Запись", true));
    }
    modify_index(&mut s, &batch).unwrap();
    assert_eq!(scan_ids(&s, 100).unwrap().len(), 5);
    clear_all(&mut s, 10).unwrap();
    assert_eq!(scan_ids(&s, 100).unwrap().len(), 0);
}

#[test]
fn bulk_clear_above_chunk() {
    let mut s = SearchState::new_in_ram().unwrap();
    let mut batch = Vec::new();
    for i in 1..26 {
        batch.push(upsert(i, "Запись", true));
    }
    modify_index(&mut s, &batch).unwrap();
    assert_eq!(scan_ids(&s, 100).unwrap().len(), 25);
    clear_all(&mut s, 4).unwrap();
    assert_eq!(scan_ids(&s, 100).unwrap().len(), 0);
    clear_all(&mut s, 4).unwrap();
    assert_eq!(scan_ids(&s, 100).unwrap().len(), 0);
}

#[test]
fn drop_index_empties() {
    let mut s = SearchState::new_in_ram().unwrap();
    modify_index(&mut s, &vec![upsert(1, "Один", true), upsert(2, "Два", true)]).unwrap();
    drop_index(&mut s).unwrap();
    assert_eq!(scan_ids(&s, 10).unwrap().len(), 0);
    drop_index(&mut s).unwrap();
    assert_eq!(scan_ids(&s, 10).unwrap().len(), 0);
}

#[test]
fn concrete_scenario_two_posts() {
    let mut s = SearchState::new_in_ram().unwrap();
    modify_index(&mut s, &vec![upsert(1, "Кот", true), upsert(2, "Пёс", true)]).unwrap();
    let hits = search_hits(&s, "кот", 10).unwrap();
    assert_eq!(hits.len(), 1);
    assert_eq!(hits[0].thread_id, 1);
    assert_eq!(hits[0].title, "Кот");
    modify_index(&mut s, &vec![upsert(1, "Слон", true)]).unwrap();
    assert_eq!(search_hits(&s, "кот", 10).unwrap().len(), 0);
    let hits = search_hits(&s, "слон", 10).unwrap();
    assert_eq!(hits.len(), 1);
    assert_eq!(hits[0].thread_id, 1);
}

#[test]
fn batch_duplicate_keys_converge() {
    let mut s = SearchState::new_in_ram().unwrap();
    modify_index(&mut s, &vec![upsert(1, "A", true), upsert(1, "B", true)]).unwrap();
    let ids = scan_ids(&s, 10).unwrap();
    assert_eq!(ids, vec![1]);
    let d = doc_by_id(&s, 1).unwrap().unwrap();
    assert_eq!(d.title, "B");
    modify_index(&mut s, &vec![upsert(1, "C", true), upsert(1, "D", true)]).unwrap();
    assert_eq!(scan_ids(&s, 10).unwrap(), vec![1]);
    assert_eq!(doc_by_id(&s, 1).unwrap().unwrap().title, "D");
}

#[test]
fn applied_flags_report_skips() {
    let mut s = SearchState::new_in_ram().unwrap();
    modify_index(&mut s, &vec![upsert(1, "Есть", true)]).unwrap();
    let applied = modify_index(
        &mut s,
        &vec![
            upsert(1, "Пропуск", false),
            MutationCommand::Delete { thread_id: 99 },
            upsert(1, "Замена", true),
        ],
    )
    .unwrap();
    assert_eq!(applied, vec![false, true, true]);
    let d = doc_by_id(&s, 1).unwrap().unwrap();
    assert_eq!(d.title, "Замена");
}

#[test]
fn lookup_repeats_agree() {
    let mut s = SearchState::new_in_ram().unwrap();
    modify_index(&mut s, &vec![upsert(4, "Повтор", true)]).unwrap();
    let a = doc_by_id(&s, 4).unwrap().unwrap();
    let b = doc_by_id(&s, 4).unwrap().unwrap();
    assert_eq!(a.thread_id, b.thread_id);
    assert_eq!(a.title, b.title);
}

#[test]
fn hyphen_and_space_queries_agree() {
    let mut s = SearchState::new_in_ram().unwrap();
    modify_index(&mut s, &vec![upsert(6, "Студент-программист", true)]).unwrap();
    let a = search_hits(&s, "Студент-программист", 10).unwrap();
    let b = search_hits(&s, "Студент программист", 10).unwrap();
    assert_eq!(a.len(), 1);
    assert_eq!(b.len(), 1);
    assert_eq!(a[0].thread_id, b[0].thread_id);
    assert_eq!(a[0].title, b[0].title);
}

#[test]
fn lookup_miss_is_not_an_error() {
    let s = SearchState::new_in_ram().unwrap();
    assert!(doc_by_id(&s, 12345).unwrap().is_none());
}

#[test]
fn query_syntax_error_surfaces() {
    let s = SearchState::new_in_ram().unwrap();
    let r = search_hits(&s, "\"", 10);
    assert_eq!(r.unwrap_err(), SearchEngineError::QuerySyntaxError);
}

#[test]
fn open_missing_directory_fails() {
    let r = SearchState::new();
    assert!(matches!(r, Err(SearchEngineError::StorageUnavailable)));
}

#[test]
fn scan_respects_limit() {
    let mut s = SearchState::new_in_ram().unwrap();
    let mut batch = Vec::new();
    for i in 1..6 {
        batch.push(upsert(i, "Метка", true));
    }
    modify_index(&mut s, &batch).unwrap();
    let ids = scan_ids(&s, 3).unwrap();
    assert_eq!(ids.len(), 3);
}

#[test]
fn search_index_renders_response() {
    let mut s = SearchState::new_in_ram().unwrap();
    modify_index(&mut s, &vec![upsert(9, "Кот", true)]).unwrap();
    let body = search_index(&s, "кот", 10).unwrap();
    assert!(body.starts_with("[["));
    assert!(body.ends_with("}]]"));
    assert!(body.contains("{\"thread_id\":9,\"title\":\"Кот\"}"));
    let empty = search_index(&s, "слон", 10).unwrap();
    assert_eq!(empty, "[]");
}

#[test]
fn drop_index_above_default_chunk() {
    let mut s = SearchState::new_in_ram().unwrap();
    let mut batch = Vec::new();
    for i in 1..10002 {
        batch.push(upsert(i, "Много", true));
    }
    modify_index(&mut s, &batch).unwrap();
    assert_eq!(scan_ids(&s, 20000).unwrap().len(), 10001);
    drop_index(&mut s).unwrap();
    assert_eq!(scan_ids(&s, 20000).unwrap().len(), 0);
}
