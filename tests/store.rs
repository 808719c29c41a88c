use ollama_code_reviewer::{
    delete_code_standard, get_code_standard_by_id, get_code_standards, get_review_history, get_user_config,
    init_database, save_code_standard, save_review_history, save_user_config, update_code_standard, AppState,
    CodeStandard, ReviewHistory, StoreError, UserConfig,
};

fn ready() -> AppState {
    let mut st = AppState::new();
    init_database(&mut st).unwrap();
    st
}

fn standard(name: &str) -> CodeStandard {
    CodeStandard {
        id: None,
        name: name.to_string(),
        framework: "react".to_string(),
        language: "typescript".to_string(),
        rules: "[\"no-any\"]".to_string(),
        best_practices: "[\"small components\"]".to_string(),
        created_at: None,
    }
}

fn config(url: &str, model: Option<&str>) -> UserConfig {
    UserConfig {
        id: None,
        github_username: Some("octo".to_string()),
        github_token: None,
        ollama_url: url.to_string(),
        selected_model: model.map(|m| m.to_string()),
    }
}

fn names(v: &[CodeStandard]) -> Vec<String> {
    v.iter().map(|s| s.name.clone()).collect()
}

#[test]
fn init_reports_success_message() {
    let mut st = AppState::new();
    let msg = init_database(&mut st).unwrap();
    assert_eq!(msg, "Database initialized successfully");
}

#[test]
fn init_twice_keeps_rows_and_succeeds() {
    let mut st = ready();
    save_code_standard(&mut st, standard("a"), "2024-01-01 10:00:00".to_string()).unwrap();
    save_user_config(&mut st, config("http://localhost:11434", None)).unwrap();
    save_review_history(&mut st, "f.rs".into(), "none".into(), "rust".into(), "ok".into(), 0, "2024-01-01 10:00:00".into())
        .unwrap();
    assert!(init_database(&mut st).is_ok());
    assert_eq!(get_code_standards(&st).unwrap().len(), 1);
    assert!(get_user_config(&st).unwrap().is_some());
    assert_eq!(get_review_history(&st, 10).unwrap().len(), 1);
}

#[test]
fn operations_before_init_fail_as_query_errors() {
    let mut st = AppState::new();
    assert!(matches!(save_code_standard(&mut st, standard("a"), "t".into()), Err(StoreError::Query(_))));
    assert!(matches!(get_code_standards(&st), Err(StoreError::Query(_))));
    assert!(matches!(get_code_standard_by_id(&st, 1), Err(StoreError::Query(_))));
    assert!(matches!(update_code_standard(&mut st, 1, standard("b")), Err(StoreError::Query(_))));
    assert!(matches!(delete_code_standard(&mut st, 1), Err(StoreError::Query(_))));
    assert!(matches!(save_user_config(&mut st, config("u", None)), Err(StoreError::Query(_))));
    assert!(matches!(get_user_config(&st), Err(StoreError::Query(_))));
    assert!(matches!(
        save_review_history(&mut st, "f".into(), "x".into(), "y".into(), "r".into(), 1, "t".into()),
        Err(StoreError::Query(_))
    ));
    assert!(matches!(get_review_history(&st, 5), Err(StoreError::Query(_))));
}

#[test]
fn config_get_is_none_before_any_save() {
    let st = ready();
    assert!(get_user_config(&st).unwrap().is_none());
}

#[test]
fn config_keeps_only_the_last_save() {
    let mut st = ready();
    save_user_config(&mut st, config("http://a:1", Some("llama3"))).unwrap();
    save_user_config(&mut st, config("http://b:2", None)).unwrap();
    save_user_config(&mut st, config("http://c:3", Some("codellama"))).unwrap();
    let got = get_user_config(&st).unwrap().unwrap();
    assert_eq!(got.ollama_url, "http://c:3");
    assert_eq!(got.selected_model.as_deref(), Some("codellama"));
    assert_eq!(got.github_username.as_deref(), Some("octo"));
    assert_eq!(got.id, Some(3));
}

#[test]
fn config_absent_texts_are_stored_empty() {
    let mut st = ready();
    save_user_config(&mut st, config("http://localhost:11434", None)).unwrap();
    let got = get_user_config(&st).unwrap().unwrap();
    assert_eq!(got.github_token.as_deref(), Some(""));
    assert_eq!(got.selected_model.as_deref(), Some(""));
    assert_eq!(got.ollama_url, "http://localhost:11434");
}

#[test]
fn create_then_get_returns_the_same_fields() {
    let mut st = ready();
    let input = standard("strict");
    let id = save_code_standard(&mut st, input.clone(), "2024-03-05 08:09:10".to_string()).unwrap();
    assert_eq!(id, 1);
    let got = get_code_standard_by_id(&st, id).unwrap();
    assert_eq!(got.id, Some(id));
    assert_eq!(got.name, input.name);
    assert_eq!(got.framework, input.framework);
    assert_eq!(got.language, input.language);
    assert_eq!(got.rules, input.rules);
    assert_eq!(got.best_practices, input.best_practices);
    assert_eq!(got.created_at.as_deref(), Some("2024-03-05 08:09:10"));
}

#[test]
fn create_ignores_caller_id_and_time() {
    let mut st = ready();
    let mut input = standard("x");
    input.id = Some(99);
    input.created_at = Some("1999-01-01 00:00:00".to_string());
    let id = save_code_standard(&mut st, input, "2024-01-01 00:00:00".to_string()).unwrap();
    assert_eq!(id, 1);
    let got = get_code_standard_by_id(&st, 1).unwrap();
    assert_eq!(got.created_at.as_deref(), Some("2024-01-01 00:00:00"));
    assert!(matches!(get_code_standard_by_id(&st, 99), Err(StoreError::NotFound)));
}

#[test]
fn list_is_newest_first() {
    let mut st = ready();
    save_code_standard(&mut st, standard("t1"), "2024-01-01 10:00:00".into()).unwrap();
    save_code_standard(&mut st, standard("t2"), "2024-01-01 10:00:01".into()).unwrap();
    save_code_standard(&mut st, standard("t3"), "2024-01-02 09:00:00".into()).unwrap();
    assert_eq!(names(&get_code_standards(&st).unwrap()), vec!["t3", "t2", "t1"]);
}

#[test]
fn list_orders_by_time_not_by_insertion() {
    let mut st = ready();
    save_code_standard(&mut st, standard("mid"), "2024-05-01 00:00:00".into()).unwrap();
    save_code_standard(&mut st, standard("old"), "2023-12-31 23:59:59".into()).unwrap();
    save_code_standard(&mut st, standard("new"), "2024-05-01 00:00:01".into()).unwrap();
    assert_eq!(names(&get_code_standards(&st).unwrap()), vec!["new", "mid", "old"]);
}

#[test]
fn list_equal_times_latest_insert_first() {
    let mut st = ready();
    for n in ["a", "b", "c"] {
        save_code_standard(&mut st, standard(n), "2024-01-01 00:00:00".into()).unwrap();
    }
    assert_eq!(names(&get_code_standards(&st).unwrap()), vec!["c", "b", "a"]);
}

#[test]
fn list_is_empty_on_a_new_store() {
    let st = ready();
    assert!(get_code_standards(&st).unwrap().is_empty());
}

#[test]
fn get_unknown_id_is_not_found() {
    let mut st = ready();
    save_code_standard(&mut st, standard("a"), "2024-01-01 00:00:00".into()).unwrap();
    assert!(matches!(get_code_standard_by_id(&st, 2), Err(StoreError::NotFound)));
    assert!(matches!(get_code_standard_by_id(&st, 0), Err(StoreError::NotFound)));
    assert!(matches!(get_code_standard_by_id(&st, -7), Err(StoreError::NotFound)));
}

#[test]
fn update_replaces_fields_and_keeps_id_and_time() {
    let mut st = ready();
    let id = save_code_standard(&mut st, standard("before"), "2024-01-01 00:00:00".into()).unwrap();
    let mut changed = standard("after");
    changed.rules = "[]".to_string();
    changed.created_at = Some("2030-01-01 00:00:00".to_string());
    update_code_standard(&mut st, id, changed).unwrap();
    let got = get_code_standard_by_id(&st, id).unwrap();
    assert_eq!(got.name, "after");
    assert_eq!(got.rules, "[]");
    assert_eq!(got.id, Some(id));
    assert_eq!(got.created_at.as_deref(), Some("2024-01-01 00:00:00"));
}

#[test]
fn update_of_missing_id_succeeds_and_changes_nothing() {
    let mut st = ready();
    save_code_standard(&mut st, standard("a"), "2024-01-01 00:00:00".into()).unwrap();
    assert!(update_code_standard(&mut st, 42, standard("z")).is_ok());
    assert_eq!(names(&get_code_standards(&st).unwrap()), vec!["a"]);
}

#[test]
fn delete_then_get_is_not_found() {
    let mut st = ready();
    let a = save_code_standard(&mut st, standard("a"), "2024-01-01 00:00:00".into()).unwrap();
    let b = save_code_standard(&mut st, standard("b"), "2024-01-01 00:00:01".into()).unwrap();
    delete_code_standard(&mut st, a).unwrap();
    assert!(matches!(get_code_standard_by_id(&st, a), Err(StoreError::NotFound)));
    assert_eq!(get_code_standard_by_id(&st, b).unwrap().name, "b");
}

#[test]
fn delete_of_missing_id_succeeds() {
    let mut st = ready();
    assert!(delete_code_standard(&mut st, 5).is_ok());
    save_code_standard(&mut st, standard("a"), "2024-01-01 00:00:00".into()).unwrap();
    assert!(delete_code_standard(&mut st, 5).is_ok());
    assert_eq!(get_code_standards(&st).unwrap().len(), 1);
}

#[test]
fn ids_are_not_reused_after_delete() {
    let mut st = ready();
    let a = save_code_standard(&mut st, standard("a"), "2024-01-01 00:00:00".into()).unwrap();
    delete_code_standard(&mut st, a).unwrap();
    let b = save_code_standard(&mut st, standard("b"), "2024-01-01 00:00:00".into()).unwrap();
    assert_eq!(b, 2);
}

#[test]
fn many_creates_get_distinct_ids_and_are_all_listed() {
    let mut st = ready();
    let mut ids = Vec::new();
    for i in 0..25 {
        let id = save_code_standard(&mut st, standard(&format!("s{i}")), format!("2024-01-01 00:00:{:02}", i % 7))
            .unwrap();
        ids.push(id);
    }
    let mut sorted = ids.clone();
    sorted.sort();
    sorted.dedup();
    assert_eq!(sorted.len(), 25);
    let listed = get_code_standards(&st).unwrap();
    assert_eq!(listed.len(), 25);
    for id in ids {
        assert!(listed.iter().any(|s| s.id == Some(id)));
    }
}

fn record(st: &mut AppState, path: &str, issues: i32, now: &str) -> i64 {
    save_review_history(st, path.to_string(), "none".into(), "rust".into(), "{}".into(), issues, now.to_string())
        .unwrap()
}

#[test]
fn history_limit_three_of_ten_is_newest_first() {
    let mut st = ready();
    for i in 0..10 {
        record(&mut st, &format!("f{i}.rs"), i, "2024-02-02 12:00:00");
    }
    let got = get_review_history(&st, 3).unwrap();
    let ids: Vec<i64> = got.iter().map(|h| h.id).collect();
    assert_eq!(ids, vec![10, 9, 8]);
    assert_eq!(got[0].file_path, "f9.rs");
    assert_eq!(got[0].issues_found, 9);
}

#[test]
fn history_orders_by_time() {
    let mut st = ready();
    record(&mut st, "b", 1, "2024-02-02 12:00:05");
    record(&mut st, "a", 1, "2024-02-02 12:00:01");
    record(&mut st, "c", 1, "2024-02-03 00:00:00");
    let got = get_review_history(&st, 10).unwrap();
    let paths: Vec<&str> = got.iter().map(|h| h.file_path.as_str()).collect();
    assert_eq!(paths, vec!["c", "b", "a"]);
}

#[test]
fn history_limit_not_positive_returns_nothing() {
    let mut st = ready();
    record(&mut st, "a", 0, "2024-01-01 00:00:00");
    assert!(get_review_history(&st, 0).unwrap().is_empty());
    assert!(get_review_history(&st, -1).unwrap().is_empty());
}

#[test]
fn history_limit_above_count_returns_all() {
    let mut st = ready();
    record(&mut st, "a", 0, "2024-01-01 00:00:00");
    record(&mut st, "b", -3, "2024-01-01 00:00:01");
    let got = get_review_history(&st, i32::MAX).unwrap();
    assert_eq!(got.len(), 2);
    assert_eq!(got[0].issues_found, -3);
    assert_eq!(got[1].reviewed_at, "2024-01-01 00:00:00");
}

#[test]
fn error_messages() {
    assert_eq!(StoreError::NotFound.message(), "Query returned no rows");
    assert_eq!(StoreError::Query("bad".into()).message(), "bad");
    assert_eq!(StoreError::Lock("poisoned".into()).message(), "poisoned");
    assert_eq!(StoreError::Io("denied".into()).message(), "denied");
}

fn row(id: i64, name: &str, at: &str) -> CodeStandard {
    CodeStandard { id: Some(id), created_at: Some(at.to_string()), ..standard(name) }
}

#[test]
fn restore_accepts_rows_read_back_newest_first() {
    let rows = vec![row(4, "d", "2024-01-02 00:00:00"), row(2, "b", "2024-01-01 00:00:00"), row(1, "a", "2024-01-01 00:00:00")];
    let history = vec![ReviewHistory {
        id: 3,
        file_path: "x.rs".into(),
        framework: "none".into(),
        language: "rust".into(),
        review_result: "{}".into(),
        issues_found: 2,
        reviewed_at: "2024-01-01 00:00:00".into(),
    }];
    let mut st = AppState::restore(rows, 4, vec![config("http://localhost:11434", None)], 1, history, 3).unwrap();
    assert_eq!(names(&get_code_standards(&st).unwrap()), vec!["d", "b", "a"]);
    assert_eq!(get_user_config(&st).unwrap().unwrap().ollama_url, "http://localhost:11434");
    assert_eq!(get_review_history(&st, 5).unwrap()[0].id, 3);
    let id = save_code_standard(&mut st, standard("e"), "2024-01-03 00:00:00".into()).unwrap();
    assert_eq!(id, 5);
    assert_eq!(record(&mut st, "y.rs", 0, "2024-01-03 00:00:00"), 4);
}

#[test]
fn restore_rejects_rows_out_of_order() {
    let rows = vec![row(1, "a", "2024-01-01 00:00:00"), row(2, "b", "2024-01-02 00:00:00")];
    assert!(matches!(AppState::restore(rows, 2, vec![], 0, vec![], 0), Err(StoreError::Query(_))));
}

#[test]
fn restore_rejects_repeated_ids_and_ids_past_the_counter() {
    let twice = vec![row(1, "a", "2024-01-02 00:00:00"), row(1, "b", "2024-01-01 00:00:00")];
    assert!(AppState::restore(twice, 1, vec![], 0, vec![], 0).is_err());
    let past = vec![row(3, "a", "2024-01-02 00:00:00")];
    assert!(AppState::restore(past, 2, vec![], 0, vec![], 0).is_err());
    let missing_time = vec![CodeStandard { created_at: None, ..row(1, "a", "x") }];
    assert!(AppState::restore(missing_time, 1, vec![], 0, vec![], 0).is_err());
}

#[test]
fn restore_rejects_two_configurations() {
    let two = vec![config("a", None), config("b", None)];
    assert!(AppState::restore(vec![], 0, two, 2, vec![], 0).is_err());
}
