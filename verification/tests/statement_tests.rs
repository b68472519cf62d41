//! Runs the services on an in-memory database and checks what their
//! contracts promise on concrete values.

use cadence::db::schema;
use cadence::db::sql::Db;
use cadence::error::AppError;
use cadence::models::collection::CreateCollectionRequest;
use cadence::models::prompt::CreatePromptRequest;
use cadence::services::collection_service::{
    build_where, smart_collection_items, FilterClause, FilterCondition,
};
use cadence::services::{collection_service, playbook_service, prompt_service, search_service, settings_service};

fn fresh_db() -> Db {
    let raw = rusqlite::Connection::open_in_memory().unwrap();
    raw.execute_batch("PRAGMA foreign_keys = ON;").unwrap();
    let mut conn = Db::new(raw);
    schema::create_tables(&mut conn).unwrap();
    conn
}

fn new_prompt(conn: &mut Db, title: &str, content: &str, tags: &[&str], is_favorite: bool) -> String {
    prompt_service::create_prompt(
        conn,
        CreatePromptRequest {
            title: title.to_string(),
            description: None,
            content: content.to_string(),
            variant_label: None,
            tags: tags.iter().map(|t| t.to_string()).collect(),
            is_favorite,
        },
    )
    .unwrap()
    .prompt
    .id
}

fn condition(field: &str, op: &str, text: Option<&str>, flag: Option<bool>) -> FilterCondition {
    FilterCondition {
        field: field.to_string(),
        op: op.to_string(),
        text_value: text.map(|t| t.to_string()),
        bool_value: flag,
    }
}

#[test]
fn search_never_returns_more_than_the_limit() {
    let mut conn = fresh_db();
    for i in 0..4 {
        new_prompt(&mut conn, &format!("Quasar note {i}"), "quasar body", &[], false);
    }
    assert_eq!(search_service::search_prompts(&mut conn, "quasar", 2).unwrap().len(), 2);
    assert_eq!(search_service::search_prompts(&mut conn, "quasar", 50).unwrap().len(), 4);
    assert!(search_service::search_prompts(&mut conn, "   ", 50).unwrap().is_empty());
}

#[test]
fn smart_filter_joins_all_with_and_and_any_with_or() {
    let mut conn = fresh_db();
    new_prompt(&mut conn, "Tagged only", "one", &["alpha"], false);
    new_prompt(&mut conn, "Favorite only", "two", &[], true);
    new_prompt(&mut conn, "Both", "three", &["alpha"], true);
    let conditions = vec![
        condition("tag", "includes", Some("alpha"), None),
        condition("is_favorite", "eq", None, Some(true)),
    ];
    let all = smart_collection_items(&mut conn, &conditions, &Some("all".to_string()), 50, 0).unwrap();
    assert_eq!(all.len(), 1);
    assert_eq!(all[0].title, "Both");
    let any = smart_collection_items(&mut conn, &conditions, &Some("any".to_string()), 50, 0).unwrap();
    assert_eq!(any.len(), 3);
    let unknown = vec![condition("color", "eq", Some("red"), None)];
    assert!(smart_collection_items(&mut conn, &unknown, &None, 50, 0).unwrap().is_empty());
}

#[test]
fn where_clause_numbers_parameters_from_three() {
    let clauses = vec![FilterClause::TagIncludes("x".to_string()), FilterClause::PinnedIs(false)];
    let (text, params) = build_where(&clauses, false);
    assert_eq!(
        text,
        "EXISTS (SELECT 1 FROM prompt_tags pt JOIN tags t ON pt.tag_id = t.id WHERE pt.prompt_id = p.id AND t.name = ?3) AND p.is_pinned = ?4"
    );
    assert_eq!(params.len(), 2);
}

#[test]
fn playbook_steps_come_back_in_position_order() {
    let mut conn = fresh_db();
    let playbook = playbook_service::create_playbook(&mut conn, "Flow", None).unwrap();
    let first = playbook_service::add_step(&mut conn, &playbook.id, None, "single", Some("first"), None).unwrap();
    let second = playbook_service::add_step(&mut conn, &playbook.id, None, "single", Some("second"), None).unwrap();
    let third = playbook_service::add_step(&mut conn, &playbook.id, None, "single", Some("third"), None).unwrap();
    playbook_service::reorder_steps(&mut conn, &playbook.id, &vec![third.id.clone(), first.id.clone(), second.id.clone()]).unwrap();
    let loaded = playbook_service::get_playbook(&mut conn, &playbook.id).unwrap();
    let order: Vec<String> = loaded.steps.iter().map(|s| s.step.id.clone()).collect();
    assert_eq!(order, vec![third.id.clone(), first.id.clone(), second.id.clone()]);
    let positions: Vec<i64> = loaded.steps.iter().map(|s| s.step.position).collect();
    assert_eq!(positions, vec![0, 1, 2]);

    playbook_service::remove_step(&mut conn, &first.id).unwrap();
    let loaded = playbook_service::get_playbook(&mut conn, &playbook.id).unwrap();
    let order: Vec<String> = loaded.steps.iter().map(|s| s.step.id.clone()).collect();
    assert_eq!(order, vec![third.id.clone(), second.id.clone()]);
    let positions: Vec<i64> = loaded.steps.iter().map(|s| s.step.position).collect();
    assert_eq!(positions, vec![0, 1]);
}

#[test]
fn reorder_refuses_an_incomplete_or_repeated_order() {
    let mut conn = fresh_db();
    let playbook = playbook_service::create_playbook(&mut conn, "Flow", None).unwrap();
    let a = playbook_service::add_step(&mut conn, &playbook.id, None, "single", None, None).unwrap();
    let b = playbook_service::add_step(&mut conn, &playbook.id, None, "single", None, None).unwrap();
    let refused = AppError::Invalid("Step order must contain every playbook step exactly once".to_string());
    assert_eq!(playbook_service::reorder_steps(&mut conn, &playbook.id, &vec![a.id.clone()]).unwrap_err(), refused);
    assert_eq!(
        playbook_service::reorder_steps(&mut conn, &playbook.id, &vec![a.id.clone(), a.id.clone()]).unwrap_err(),
        refused
    );
    assert_eq!(
        playbook_service::reorder_steps(&mut conn, &playbook.id, &vec![b.id.clone(), "other".to_string()]).unwrap_err(),
        refused
    );
    let loaded = playbook_service::get_playbook(&mut conn, &playbook.id).unwrap();
    assert_eq!(loaded.steps[0].step.id, a.id);
    assert_eq!(loaded.steps[1].step.id, b.id);
}

#[test]
fn deleting_the_only_variant_is_refused_and_changes_nothing() {
    let mut conn = fresh_db();
    let id = new_prompt(&mut conn, "Lonely", "only content", &[], false);
    let before = prompt_service::get_prompt_by_id(&mut conn, &id).unwrap();
    let only = before.variants[0].id.clone();
    assert_eq!(
        prompt_service::delete_variant(&mut conn, &only).unwrap_err(),
        AppError::Invalid("Cannot delete the only active variant".to_string())
    );
    let after = prompt_service::get_prompt_by_id(&mut conn, &id).unwrap();
    assert_eq!(after.variants.len(), 1);
    assert_eq!(after.prompt.primary_variant_id, Some(only));
}

#[test]
fn copying_counts_and_returns_the_copied_content() {
    let mut conn = fresh_db();
    let id = new_prompt(&mut conn, "Copied", "primary text", &[], false);
    let extra = prompt_service::add_variant(&mut conn, &id, "Alt", "alternative text").unwrap();
    assert_eq!(prompt_service::record_copy(&mut conn, &id, None).unwrap(), "primary text");
    assert_eq!(prompt_service::record_copy(&mut conn, &id, Some(&extra.id)).unwrap(), "alternative text");
    let loaded = prompt_service::get_prompt_by_id(&mut conn, &id).unwrap();
    assert_eq!(loaded.prompt.copy_count, 2);
    assert!(loaded.prompt.last_copied_at.is_some());

    let other = new_prompt(&mut conn, "Other", "other text", &[], false);
    let other_variant = prompt_service::get_prompt_by_id(&mut conn, &other).unwrap().variants[0].id.clone();
    assert_eq!(
        prompt_service::record_copy(&mut conn, &id, Some(&other_variant)).unwrap_err(),
        AppError::Invalid("Variant must belong to the target prompt".to_string())
    );
    assert_eq!(prompt_service::record_copy(&mut conn, "missing", None).unwrap_err(), AppError::NotFound);
}

#[test]
fn toggling_a_flag_returns_its_new_value() {
    let mut conn = fresh_db();
    let id = new_prompt(&mut conn, "Flags", "content", &[], false);
    assert!(prompt_service::toggle_favorite(&mut conn, &id).unwrap());
    assert!(!prompt_service::toggle_favorite(&mut conn, &id).unwrap());
    assert!(prompt_service::toggle_pinned(&mut conn, &id).unwrap());
    assert_eq!(prompt_service::toggle_pinned(&mut conn, "missing").unwrap_err(), AppError::NotFound);
}

#[test]
fn rebinding_stores_the_binding_under_its_action() {
    let mut conn = fresh_db();
    let shortcuts = settings_service::update_shortcut(&mut conn, "global_toggle_search", "Ctrl+K").unwrap();
    let stored = settings_service::get_setting(&mut conn, settings_service::SHORTCUTS_KEY).unwrap().unwrap();
    assert!(stored.contains("\"global_toggle_search\":\"Ctrl+K\""));
    let bound: Vec<_> = shortcuts.iter().filter(|s| s.action == "global_toggle_search").collect();
    assert_eq!(bound[0].binding, "Ctrl+K");
    assert!(!stored.contains("\"Ctrl+K\":\"global_toggle_search\""));
}

#[test]
fn settings_read_back_what_was_written() {
    let mut conn = fresh_db();
    assert_eq!(settings_service::get_setting(&mut conn, "theme").unwrap(), None);
    settings_service::set_setting(&mut conn, "theme", "dark").unwrap();
    assert_eq!(settings_service::get_setting(&mut conn, "theme").unwrap(), Some("dark".to_string()));
    settings_service::delete_setting(&mut conn, "theme").unwrap();
    assert_eq!(settings_service::get_setting(&mut conn, "theme").unwrap(), None);
    assert!(!settings_service::get_api_enabled(&mut conn).unwrap());
    settings_service::set_api_enabled(&mut conn, true).unwrap();
    assert!(settings_service::get_api_enabled(&mut conn).unwrap());
}

#[test]
fn manual_collection_lists_members_in_the_order_added() {
    let mut conn = fresh_db();
    let a = new_prompt(&mut conn, "First member", "a", &[], false);
    let b = new_prompt(&mut conn, "Second member", "b", &[], false);
    let collection = collection_service::create_collection(
        &mut conn,
        CreateCollectionRequest {
            name: "Manual".to_string(),
            description: None,
            icon: None,
            color: None,
            is_smart: false,
            filter_query: None,
        },
    )
    .unwrap();
    collection_service::add_prompt_to_collection(&mut conn, &collection.id, &b).unwrap();
    collection_service::add_prompt_to_collection(&mut conn, &collection.id, &a).unwrap();
    collection_service::add_prompt_to_collection(&mut conn, &collection.id, &b).unwrap();
    let members = collection_service::get_collection_prompts(&mut conn, &collection.id, 50, 0).unwrap();
    let ids: Vec<String> = members.iter().map(|m| m.id.clone()).collect();
    assert_eq!(ids, vec![b, a]);
    assert_eq!(
        collection_service::get_collection_prompts(&mut conn, "missing", 50, 0).unwrap_err(),
        AppError::NotFound
    );
}

#[test]
fn usage_counts_steps_per_playbook() {
    let mut conn = fresh_db();
    let id = new_prompt(&mut conn, "Used", "content", &[], false);
    let playbook = playbook_service::create_playbook(&mut conn, "Uses it", None).unwrap();
    playbook_service::add_step(&mut conn, &playbook.id, Some(&id), "single", None, None).unwrap();
    playbook_service::add_step(&mut conn, &playbook.id, None, "choice", None, Some(vec![id.clone()])).unwrap();
    let usage = prompt_service::get_prompt_usage(&mut conn, &id).unwrap();
    assert_eq!(usage.playbook_count, 1);
    assert_eq!(usage.step_count, 2);
    assert_eq!(usage.playbook_titles, vec!["Uses it".to_string()]);
    assert_eq!(prompt_service::get_prompt_usage(&mut conn, "missing").unwrap_err(), AppError::NotFound);
}
