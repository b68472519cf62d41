//! JSON documents, step hydration, search limits and the poller's failure
//! count, on concrete values.

use cadence::db::schema;
use cadence::db::sql::Db;
use cadence::error::AppError;
use cadence::json::JsonValue;
use cadence::models::prompt::CreatePromptRequest;
use cadence::poller::PollerState;
use cadence::services::collection_service::read_filter;
use cadence::services::import_export;
use cadence::services::{playbook_service, prompt_service, search_service};

fn fresh_db() -> Db {
    let raw = rusqlite::Connection::open_in_memory().unwrap();
    raw.execute_batch("PRAGMA foreign_keys = ON;").unwrap();
    let mut conn = Db::new(raw);
    schema::create_tables(&mut conn).unwrap();
    conn
}

fn new_prompt(conn: &mut Db, title: &str, content: &str, tags: &[&str]) -> String {
    prompt_service::create_prompt(
        conn,
        CreatePromptRequest {
            title: title.to_string(),
            description: None,
            content: content.to_string(),
            variant_label: None,
            tags: tags.iter().map(|t| t.to_string()).collect(),
            is_favorite: false,
        },
    )
    .unwrap()
    .prompt
    .id
}

fn text(s: &str) -> JsonValue {
    JsonValue::Str(s.to_string())
}

fn object(members: Vec<(&str, JsonValue)>) -> JsonValue {
    JsonValue::Object(members.into_iter().map(|(k, v)| (k.to_string(), v)).collect())
}

#[test]
fn a_negative_search_limit_keeps_every_match() {
    let mut conn = fresh_db();
    for i in 0..4 {
        new_prompt(&mut conn, &format!("Rust note {}", i), "ownership and borrowing", &[]);
    }
    new_prompt(&mut conn, "Unrelated", "gardening", &[]);
    let all = search_service::search_prompts(&mut conn, "borrowing", -1).unwrap();
    assert_eq!(all.len(), 4);
    let none = search_service::search_prompts(&mut conn, "borrowing", 0).unwrap();
    assert!(none.is_empty());
    let two = search_service::search_prompts(&mut conn, "borrowing", 2).unwrap();
    assert_eq!(two.len(), 2);
}

#[test]
fn search_results_carry_their_prompts_tags() {
    let mut conn = fresh_db();
    let id = new_prompt(&mut conn, "Tagged", "ownership rules", &["rust", "notes"]);
    let found = search_service::search_prompts(&mut conn, "ownership", 10).unwrap();
    assert_eq!(found.len(), 1);
    assert_eq!(found[0].id, id);
    let mut names: Vec<String> = found[0].tags.iter().map(|t| t.name.clone()).collect();
    names.sort();
    assert_eq!(names, vec!["notes".to_string(), "rust".to_string()]);
}

#[test]
fn a_filter_document_gives_its_conditions_and_mode() {
    let doc = object(vec![
        (
            "conditions",
            JsonValue::Array(vec![
                object(vec![("field", text("tag")), ("op", text("includes")), ("value", text("writing"))]),
                object(vec![("field", text("is_favorite")), ("op", text("eq")), ("value", JsonValue::Bool(true))]),
                object(vec![("op", JsonValue::Number("3".to_string()))]),
            ]),
        ),
        ("match", text("any")),
    ]);
    let (conditions, mode) = read_filter(&doc).unwrap();
    assert_eq!(mode, Some("any".to_string()));
    assert_eq!(conditions.len(), 3);
    assert_eq!(conditions[0].field, "tag");
    assert_eq!(conditions[0].op, "includes");
    assert_eq!(conditions[0].text_value, Some("writing".to_string()));
    assert_eq!(conditions[0].bool_value, None);
    assert_eq!(conditions[1].bool_value, Some(true));
    assert_eq!(conditions[1].text_value, None);
    assert_eq!(conditions[2].field, "");
    assert_eq!(conditions[2].op, "");

    let missing = object(vec![("match", text("all"))]);
    assert_eq!(
        read_filter(&missing).map(|_| ()),
        Err(AppError::Internal("Invalid parameter name: filter_query missing 'conditions' array".to_string()))
    );
}

#[test]
fn an_import_document_with_a_malformed_item_imports_nothing() {
    let mut conn = fresh_db();
    let bad = r#"{"prompts":[{"title":"Fine","content":"ok"},{"title":"No content"}]}"#;
    match import_export::import_json(&mut conn, bad) {
        Err(AppError::Invalid(m)) => assert_eq!(m, "Invalid JSON: content"),
        other => panic!("unexpected result {:?}", other),
    }
    let not_json = "{ prompts: ";
    match import_export::import_json(&mut conn, not_json) {
        Err(AppError::Invalid(m)) => assert!(m.starts_with("Invalid JSON: ")),
        other => panic!("unexpected result {:?}", other),
    }
    assert!(prompt_service::list_prompts(&mut conn, 50, 0).unwrap().is_empty());
}

#[test]
fn an_import_document_gives_each_prompt_its_fields() {
    let mut conn = fresh_db();
    let doc = r#"{"prompts":[{"title":"Imported","description":null,"content":"body text","tags":["a","b"],"is_favorite":true,"variants":[{"label":"Short","content":"brief"}]}]}"#;
    let result = import_export::import_json(&mut conn, doc).unwrap();
    assert_eq!(result.imported, 1);
    assert_eq!(result.skipped, 0);
    let listed = prompt_service::list_prompts(&mut conn, 50, 0).unwrap();
    assert_eq!(listed.len(), 1);
    let full = prompt_service::get_prompt_by_id(&mut conn, &listed[0].id).unwrap();
    assert_eq!(full.prompt.title, "Imported");
    assert!(full.prompt.is_favorite);
    let contents: Vec<String> = full.variants.iter().map(|v| v.content.clone()).collect();
    assert!(contents.contains(&"body text".to_string()));
    assert!(contents.contains(&"brief".to_string()));
    let mut tags: Vec<String> = full.tags.iter().map(|t| t.name.clone()).collect();
    tags.sort();
    assert_eq!(tags, vec!["a".to_string(), "b".to_string()]);
}

#[test]
fn the_export_text_is_the_export_document() {
    let mut conn = fresh_db();
    new_prompt(&mut conn, "Exported", "exported body", &["x"]);
    let text = import_export::export_json(&mut conn).unwrap();
    let parsed: serde_json::Value = serde_json::from_str(&text).unwrap();
    assert_eq!(parsed["version"], "1.0");
    assert!(parsed["exported_at"].as_str().map(|s| !s.is_empty()).unwrap_or(false));
    let prompts = parsed["prompts"].as_array().unwrap();
    assert_eq!(prompts.len(), 1);
    assert_eq!(prompts[0]["title"], "Exported");
    assert_eq!(prompts[0]["content"], "exported body");
    assert_eq!(prompts[0]["description"], serde_json::Value::Null);
    assert_eq!(prompts[0]["tags"][0], "x");
    assert_eq!(prompts[0]["is_favorite"], false);
    assert!(text.contains('\n'));
}

#[test]
fn a_step_carries_the_prompts_its_ids_name() {
    let mut conn = fresh_db();
    let main = new_prompt(&mut conn, "Main", "main body", &[]);
    let left = new_prompt(&mut conn, "Left", "left body", &[]);
    let right = new_prompt(&mut conn, "Right", "right body", &[]);
    let playbook = playbook_service::create_playbook(&mut conn, "Flow", None).unwrap();
    playbook_service::add_step(
        &mut conn,
        &playbook.id,
        Some(&main),
        "choice",
        None,
        Some(vec![left.clone(), "missing-id".to_string(), right.clone()]),
    )
    .unwrap();
    let loaded = playbook_service::get_playbook(&mut conn, &playbook.id).unwrap();
    assert_eq!(loaded.steps.len(), 1);
    let step = &loaded.steps[0];
    assert_eq!(step.prompt.as_ref().map(|p| p.prompt.id.clone()), Some(main.clone()));
    let choices: Vec<String> = step.choice_prompts.iter().map(|p| p.prompt.id.clone()).collect();
    assert_eq!(choices, vec![left, right]);
}

#[test]
fn exhaustion_counts_failures_since_the_last_good_read() {
    let mut s = PollerState::new(7);
    s.tick(true, None);
    s.tick(false, None);
    s.tick(true, None);
    s.tick(false, Some(9));
    assert!(!s.read_failures_exhausted());
    s.tick(true, None);
    assert!(s.read_failures_exhausted());
    s.tick(true, Some(8));
    assert!(!s.read_failures_exhausted());
    s.tick(true, None);
    s.tick(false, None);
    s.tick(true, None);
    assert!(!s.read_failures_exhausted());
    s.tick(true, None);
    assert!(s.read_failures_exhausted());
}
