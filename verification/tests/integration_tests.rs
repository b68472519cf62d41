//! Integration tests for the Cadence services: each test opens a fresh
//! in-memory SQLite database with the full schema and drives the services.

use cadence::db::sql::Db;
use cadence::db::schema;
use cadence::models::collection::CreateCollectionRequest;
use cadence::models::patch::PatchField;
use cadence::models::prompt::{CreatePromptRequest, PromptWithVariants, UpdatePromptRequest};
use cadence::services::{
    collection_service, import_export, playbook_service, prompt_service, search_service,
    tag_service,
};

fn setup_db() -> Db {
    let raw = rusqlite::Connection::open_in_memory().unwrap();
    raw.execute_batch("PRAGMA foreign_keys=ON;").unwrap();
    let mut conn = Db::new(raw);
    schema::create_tables(&mut conn).unwrap();
    conn
}

fn create_test_prompt(
    conn: &mut Db,
    title: &str,
    content: &str,
    tags: Vec<String>,
    is_favorite: bool,
) -> PromptWithVariants {
    let req = CreatePromptRequest {
        title: title.to_string(),
        description: None,
        content: content.to_string(),
        variant_label: None,
        tags,
        is_favorite,
    };
    prompt_service::create_prompt(conn, req).unwrap()
}

fn title_only(title: &str) -> UpdatePromptRequest {
    UpdatePromptRequest {
        title: Some(title.to_string()),
        description: PatchField::Keep,
        is_favorite: None,
        is_pinned: None,
        primary_variant_id: None,
    }
}

fn favorite_only(is_favorite: bool) -> UpdatePromptRequest {
    UpdatePromptRequest {
        title: None,
        description: PatchField::Keep,
        is_favorite: Some(is_favorite),
        is_pinned: None,
        primary_variant_id: None,
    }
}

fn manual_collection(name: &str, description: Option<&str>) -> CreateCollectionRequest {
    CreateCollectionRequest {
        name: name.to_string(),
        description: description.map(|d| d.to_string()),
        icon: None,
        color: None,
        is_smart: false,
        filter_query: None,
    }
}

fn smart_collection(name: &str, description: Option<&str>, filter: &str) -> CreateCollectionRequest {
    CreateCollectionRequest {
        name: name.to_string(),
        description: description.map(|d| d.to_string()),
        icon: None,
        color: None,
        is_smart: true,
        filter_query: Some(filter.to_string()),
    }
}

#[test]
fn test_prompt_crud() {
    let mut conn = setup_db();

    let created = create_test_prompt(
        &mut conn,
        "My Prompt",
        "Hello, world!",
        vec!["rust".to_string(), "testing".to_string()],
        false,
    );
    assert_eq!(created.prompt.title, "My Prompt");
    assert_eq!(created.variants.len(), 1);
    assert_eq!(created.variants[0].content, "Hello, world!");
    assert_eq!(created.tags.len(), 2);

    let prompt_id = created.prompt.id.clone();

    let list = prompt_service::list_prompts(&mut conn, 50, 0).unwrap();
    assert_eq!(list.len(), 1);
    assert_eq!(list[0].id, prompt_id);

    let fetched = prompt_service::get_prompt_by_id(&mut conn, &prompt_id).unwrap();
    assert_eq!(fetched.prompt.title, "My Prompt");
    assert_eq!(fetched.variants.len(), 1);
    assert_eq!(fetched.tags.len(), 2);

    prompt_service::update_prompt(&mut conn, &prompt_id, title_only("Updated Title")).unwrap();
    let updated = prompt_service::get_prompt_by_id(&mut conn, &prompt_id).unwrap();
    assert_eq!(updated.prompt.title, "Updated Title");

    prompt_service::delete_prompt(&mut conn, &prompt_id).unwrap();
    let list_after_delete = prompt_service::list_prompts(&mut conn, 50, 0).unwrap();
    assert_eq!(list_after_delete.len(), 0);

    let get_result = prompt_service::get_prompt_by_id(&mut conn, &prompt_id);
    assert!(get_result.is_err());
}

#[test]
fn test_variant_operations() {
    let mut conn = setup_db();

    let created = create_test_prompt(&mut conn, "Variant Prompt", "Default content", vec![], false);
    let prompt_id = created.prompt.id.clone();

    let fetched = prompt_service::get_prompt_by_id(&mut conn, &prompt_id).unwrap();
    assert_eq!(fetched.variants.len(), 1);

    let v2 = prompt_service::add_variant(&mut conn, &prompt_id, "Llama Opus", "Opus-tuned content").unwrap();
    assert_eq!(v2.label, "Llama Opus");

    let v3 = prompt_service::add_variant(&mut conn, &prompt_id, "Concise", "Short and direct").unwrap();
    assert_eq!(v3.label, "Concise");

    let fetched = prompt_service::get_prompt_by_id(&mut conn, &prompt_id).unwrap();
    assert_eq!(fetched.variants.len(), 3);

    prompt_service::update_variant(&mut conn, &v2.id, "Updated Opus content", Some("Llama Opus v2")).unwrap();
    let fetched = prompt_service::get_prompt_by_id(&mut conn, &prompt_id).unwrap();
    let updated_v2 = fetched.variants.iter().find(|v| v.id == v2.id).unwrap();
    assert_eq!(updated_v2.content, "Updated Opus content");
    assert_eq!(updated_v2.label, "Llama Opus v2");

    prompt_service::delete_variant(&mut conn, &v3.id).unwrap();
    let fetched = prompt_service::get_prompt_by_id(&mut conn, &prompt_id).unwrap();
    assert_eq!(fetched.variants.len(), 2);
    assert!(fetched.variants.iter().all(|v| v.id != v3.id));
}

#[test]
fn test_favorites() {
    let mut conn = setup_db();

    let p1 = create_test_prompt(&mut conn, "Prompt A", "Content A", vec![], true);
    let _p2 = create_test_prompt(&mut conn, "Prompt B", "Content B", vec![], false);
    let p3 = create_test_prompt(&mut conn, "Prompt C", "Content C", vec![], true);

    let all = prompt_service::list_prompts(&mut conn, 50, 0).unwrap();
    assert_eq!(all.len(), 3);

    let favorites: Vec<_> = all.iter().filter(|p| p.is_favorite).collect();
    assert_eq!(favorites.len(), 2);

    let fav_ids: Vec<&str> = favorites.iter().map(|p| p.id.as_str()).collect();
    assert!(fav_ids.contains(&p1.prompt.id.as_str()));
    assert!(fav_ids.contains(&p3.prompt.id.as_str()));
}

#[test]
fn test_tag_operations() {
    let mut conn = setup_db();

    let tag1 = tag_service::get_or_create_tag(&mut conn, "rust").unwrap();
    assert_eq!(tag1.name, "rust");

    let tag1_again = tag_service::get_or_create_tag(&mut conn, "rust").unwrap();
    assert_eq!(tag1.id, tag1_again.id);

    let prompt = create_test_prompt(&mut conn, "Tagged Prompt", "Content here", vec![], false);
    let prompt_id = prompt.prompt.id.clone();

    tag_service::add_tags_to_prompt(&mut conn, &prompt_id, &["alpha".to_string(), "beta".to_string()]).unwrap();

    let tags = tag_service::get_tags_for_prompt(&mut conn, &prompt_id).unwrap();
    assert_eq!(tags.len(), 2);
    let tag_names: Vec<&str> = tags.iter().map(|t| t.name.as_str()).collect();
    assert!(tag_names.contains(&"alpha"));
    assert!(tag_names.contains(&"beta"));

    let alpha_tag = tags.iter().find(|t| t.name == "alpha").unwrap();
    tag_service::remove_tag_from_prompt(&mut conn, &prompt_id, &alpha_tag.id).unwrap();

    let tags_after = tag_service::get_tags_for_prompt(&mut conn, &prompt_id).unwrap();
    assert_eq!(tags_after.len(), 1);
    assert_eq!(tags_after[0].name, "beta");

    let all_tags = tag_service::list_tags(&mut conn).unwrap();
    assert!(all_tags.len() >= 3, "got {}", all_tags.len());
}

#[test]
fn test_collection_operations() {
    let mut conn = setup_db();

    let p1 = create_test_prompt(&mut conn, "Prompt 1", "Content 1", vec![], false);
    let p2 = create_test_prompt(&mut conn, "Prompt 2", "Content 2", vec![], false);
    let p3 = create_test_prompt(&mut conn, "Prompt 3", "Content 3", vec![], false);

    let coll = collection_service::create_collection(&mut conn, manual_collection("My Collection", Some("Test collection"))).unwrap();
    assert_eq!(coll.name, "My Collection");

    collection_service::add_prompt_to_collection(&mut conn, &coll.id, &p1.prompt.id).unwrap();
    collection_service::add_prompt_to_collection(&mut conn, &coll.id, &p2.prompt.id).unwrap();
    collection_service::add_prompt_to_collection(&mut conn, &coll.id, &p3.prompt.id).unwrap();

    let items = collection_service::get_collection_prompts(&mut conn, &coll.id, 50, 0).unwrap();
    assert_eq!(items.len(), 3);
    assert_eq!(items[0].id, p1.prompt.id);
    assert_eq!(items[1].id, p2.prompt.id);
    assert_eq!(items[2].id, p3.prompt.id);

    collection_service::remove_prompt_from_collection(&mut conn, &coll.id, &p2.prompt.id).unwrap();
    let items_after = collection_service::get_collection_prompts(&mut conn, &coll.id, 50, 0).unwrap();
    assert_eq!(items_after.len(), 2);
    assert!(items_after.iter().all(|i| i.id != p2.prompt.id));
}

#[test]
fn test_smart_collections() {
    let mut conn = setup_db();

    let _llama1 = create_test_prompt(&mut conn, "Llama Prompt 1", "For Llama", vec!["model:llama".to_string()], true);
    let _llama2 = create_test_prompt(&mut conn, "Llama Prompt 2", "Also for Llama", vec!["model:llama".to_string()], false);
    let _gemini = create_test_prompt(&mut conn, "Gemini Prompt", "For Gemini", vec!["model:gemini".to_string()], false);
    let _both = create_test_prompt(
        &mut conn,
        "Multi-model",
        "For both",
        vec!["model:llama".to_string(), "model:gemini".to_string()],
        true,
    );

    let filter_llama = r#"{"conditions":[{"field":"tag","op":"includes","value":"model:llama"}],"match":"all"}"#;
    let llama_coll = collection_service::create_collection(&mut conn, smart_collection("Llama Prompts", None, filter_llama)).unwrap();
    let llama_items = collection_service::get_collection_prompts(&mut conn, &llama_coll.id, 50, 0).unwrap();
    assert_eq!(llama_items.len(), 3);

    let filter_fav = r#"{"conditions":[{"field":"is_favorite","op":"eq","value":true}],"match":"all"}"#;
    let fav_coll = collection_service::create_collection(&mut conn, smart_collection("Favorites", None, filter_fav)).unwrap();
    let fav_items = collection_service::get_collection_prompts(&mut conn, &fav_coll.id, 50, 0).unwrap();
    assert_eq!(fav_items.len(), 2);
    assert!(fav_items.iter().all(|i| i.is_favorite));
}

#[test]
fn test_fts_search() {
    let mut conn = setup_db();

    create_test_prompt(
        &mut conn,
        "Quantum Computing Basics",
        "Explain the basics of quantum computing including qubits and superposition.",
        vec!["science".to_string()],
        false,
    );
    create_test_prompt(
        &mut conn,
        "Rust Error Handling",
        "Write idiomatic Rust code with Result and Option types.",
        vec!["programming".to_string()],
        false,
    );
    create_test_prompt(
        &mut conn,
        "Recipe Generator",
        "Generate a healthy dinner recipe with chicken and vegetables.",
        vec!["cooking".to_string()],
        false,
    );

    let results = search_service::search_prompts(&mut conn, "quantum", 50).unwrap();
    assert_eq!(results.len(), 1);
    assert_eq!(results[0].title, "Quantum Computing Basics");

    let results = search_service::search_prompts(&mut conn, "chicken", 50).unwrap();
    assert_eq!(results.len(), 1);
    assert_eq!(results[0].title, "Recipe Generator");
    let joined: String = results[0].snippet_runs.iter().map(|r| r.text.as_str()).collect();
    assert_eq!(results[0].snippet, joined);
    assert!(results[0].snippet_runs.iter().any(|r| r.highlighted && r.text == "chicken"));

    let results = search_service::search_prompts(&mut conn, "programming", 50).unwrap();
    assert_eq!(results.len(), 1);
    assert_eq!(results[0].title, "Rust Error Handling");

    let results = search_service::search_prompts(&mut conn, "nonexistentxyz", 50).unwrap();
    assert_eq!(results.len(), 0);

    let results = search_service::search_prompts(&mut conn, "", 50).unwrap();
    assert_eq!(results.len(), 0);
}

#[test]
fn test_copy_tracking() {
    let mut conn = setup_db();

    let created = create_test_prompt(&mut conn, "Copy Prompt", "Copy this content", vec![], false);
    let prompt_id = created.prompt.id.clone();

    let fetched = prompt_service::get_prompt_by_id(&mut conn, &prompt_id).unwrap();
    assert_eq!(fetched.prompt.copy_count, 0);
    assert!(fetched.prompt.last_copied_at.is_none());

    let content = prompt_service::record_copy(&mut conn, &prompt_id, None).unwrap();
    assert_eq!(content, "Copy this content");

    let fetched = prompt_service::get_prompt_by_id(&mut conn, &prompt_id).unwrap();
    assert_eq!(fetched.prompt.copy_count, 1);
    assert!(fetched.prompt.last_copied_at.is_some());

    let v2 = prompt_service::add_variant(&mut conn, &prompt_id, "Alt Version", "Alternative content").unwrap();

    let content2 = prompt_service::record_copy(&mut conn, &prompt_id, Some(v2.id.as_str())).unwrap();
    assert_eq!(content2, "Alternative content");

    let fetched = prompt_service::get_prompt_by_id(&mut conn, &prompt_id).unwrap();
    assert_eq!(fetched.prompt.copy_count, 2);
}

#[test]
fn test_playbook_operations() {
    let mut conn = setup_db();

    let p1 = create_test_prompt(&mut conn, "Step 1 Prompt", "First step content", vec![], false);
    let p2 = create_test_prompt(&mut conn, "Step 2 Prompt", "Second step content", vec![], false);

    let playbook = playbook_service::create_playbook(&mut conn, "My Playbook", Some("A test playbook")).unwrap();
    assert_eq!(playbook.title, "My Playbook");

    let step1 = playbook_service::add_step(&mut conn, &playbook.id, Some(p1.prompt.id.as_str()), "single", None, None).unwrap();
    assert_eq!(step1.position, 0);

    let step2 = playbook_service::add_step(&mut conn, &playbook.id, Some(p2.prompt.id.as_str()), "single", None, None).unwrap();
    assert_eq!(step2.position, 1);

    let step3 = playbook_service::add_step(
        &mut conn,
        &playbook.id,
        None,
        "instruction",
        Some("Review and refine the output"),
        None,
    )
    .unwrap();
    assert_eq!(step3.position, 2);

    let fetched = playbook_service::get_playbook(&mut conn, &playbook.id).unwrap();
    assert_eq!(fetched.steps.len(), 3);
    assert_eq!(fetched.steps[0].step.position, 0);
    assert_eq!(fetched.steps[1].step.position, 1);
    assert_eq!(fetched.steps[2].step.position, 2);

    assert!(fetched.steps[0].prompt.is_some());
    assert_eq!(fetched.steps[0].prompt.as_ref().unwrap().prompt.title, "Step 1 Prompt");
    assert!(fetched.steps[2].prompt.is_none());

    playbook_service::remove_step(&mut conn, &step2.id).unwrap();
    let fetched = playbook_service::get_playbook(&mut conn, &playbook.id).unwrap();
    assert_eq!(fetched.steps.len(), 2);
    assert_eq!(fetched.steps[0].step.position, 0);
    assert_eq!(fetched.steps[1].step.position, 1);

    playbook_service::delete_playbook(&mut conn, &playbook.id).unwrap();
    let result = playbook_service::get_playbook(&mut conn, &playbook.id);
    assert!(result.is_err());
}

#[test]
fn test_playbook_session() {
    let mut conn = setup_db();

    let p1 = create_test_prompt(&mut conn, "Session Step 1", "Step 1", vec![], false);
    let p2 = create_test_prompt(&mut conn, "Session Step 2", "Step 2", vec![], false);
    let playbook = playbook_service::create_playbook(&mut conn, "Session Playbook", None).unwrap();
    playbook_service::add_step(&mut conn, &playbook.id, Some(p1.prompt.id.as_str()), "single", None, None).unwrap();
    playbook_service::add_step(&mut conn, &playbook.id, Some(p2.prompt.id.as_str()), "single", None, None).unwrap();

    let session = playbook_service::get_session(&mut conn).unwrap();
    assert!(session.active_playbook_id.is_none());
    assert_eq!(session.current_step, 0);

    let session = playbook_service::start_session(&mut conn, &playbook.id).unwrap();
    assert_eq!(session.active_playbook_id.as_deref(), Some(playbook.id.as_str()));
    assert_eq!(session.current_step, 0);
    assert!(session.started_at.is_some());

    let session = playbook_service::advance_step(&mut conn).unwrap();
    assert_eq!(session.current_step, 1);

    let session = playbook_service::advance_step(&mut conn).unwrap();
    assert_eq!(session.current_step, 2);

    playbook_service::end_session(&mut conn).unwrap();
    let session = playbook_service::get_session(&mut conn).unwrap();
    assert!(session.active_playbook_id.is_none());
    assert_eq!(session.current_step, 0);
    assert!(session.started_at.is_none());
}

#[test]
fn test_import_json() {
    let mut conn = setup_db();

    let json = r#"{
        "prompts": [
            {
                "title": "Import Prompt 1",
                "content": "Content for prompt 1",
                "tags": ["imported", "test"],
                "is_favorite": true,
                "variants": [
                    {"label": "Variant A", "content": "Variant A content"}
                ]
            },
            {
                "title": "Import Prompt 2",
                "content": "Content for prompt 2",
                "tags": ["imported"],
                "is_favorite": false
            },
            {
                "title": "Import Prompt 3",
                "content": "Content for prompt 3"
            }
        ]
    }"#;

    let result = import_export::import_json(&mut conn, json).unwrap();
    assert_eq!(result.imported, 3);
    assert_eq!(result.skipped, 0);
    assert!(result.errors.is_empty(), "{:?}", result.errors);

    let list = prompt_service::list_prompts(&mut conn, 50, 0).unwrap();
    assert_eq!(list.len(), 3);

    let p1 = list.iter().find(|p| p.title == "Import Prompt 1").unwrap();
    let p1_full = prompt_service::get_prompt_by_id(&mut conn, &p1.id).unwrap();
    assert_eq!(p1_full.variants.len(), 2);

    let result2 = import_export::import_json(&mut conn, json).unwrap();
    assert_eq!(result2.imported, 0);
    assert_eq!(result2.skipped, 3);

    let list2 = prompt_service::list_prompts(&mut conn, 50, 0).unwrap();
    assert_eq!(list2.len(), 3);
}

#[test]
fn test_import_markdown() {
    let mut conn = setup_db();

    let markdown = r#"---
title: My Markdown Prompt
tags: [writing, creative]
favorite: true
---
Write a compelling story about a robot discovering emotions."#;

    let result = import_export::import_markdown(&mut conn, "prompt.md", markdown).unwrap();
    assert_eq!(result.imported, 1);
    assert_eq!(result.skipped, 0);

    let list = prompt_service::list_prompts(&mut conn, 50, 0).unwrap();
    assert_eq!(list.len(), 1);

    let prompt = &list[0];
    assert_eq!(prompt.title, "My Markdown Prompt");
    assert!(prompt.is_favorite);

    let tag_names: Vec<&str> = prompt.tags.iter().map(|t| t.name.as_str()).collect();
    assert!(tag_names.contains(&"writing"));
    assert!(tag_names.contains(&"creative"));

    let full = prompt_service::get_prompt_by_id(&mut conn, &prompt.id).unwrap();
    assert_eq!(full.variants[0].content, "Write a compelling story about a robot discovering emotions.");
}

fn exported_prompt<'a>(export: &'a serde_json::Value, title: &str) -> &'a serde_json::Value {
    export["prompts"]
        .as_array()
        .unwrap()
        .iter()
        .find(|p| p["title"].as_str() == Some(title))
        .unwrap()
}

#[test]
fn test_export_json() {
    let mut conn = setup_db();

    let p1 = create_test_prompt(&mut conn, "Export Prompt 1", "Content 1", vec!["tag-a".to_string()], true);
    prompt_service::add_variant(&mut conn, &p1.prompt.id, "Extra V", "Extra variant content").unwrap();

    let _p2 = create_test_prompt(
        &mut conn,
        "Export Prompt 2",
        "Content 2",
        vec!["tag-b".to_string(), "tag-c".to_string()],
        false,
    );

    let json_str = import_export::export_json(&mut conn).unwrap();
    let export: serde_json::Value = serde_json::from_str(&json_str).unwrap();

    assert_eq!(export["version"].as_str(), Some("1.0"));
    assert!(!export["exported_at"].as_str().unwrap().is_empty());
    assert_eq!(export["prompts"].as_array().unwrap().len(), 2);

    let ep1 = exported_prompt(&export, "Export Prompt 1");
    assert_eq!(ep1["content"].as_str(), Some("Content 1"));
    assert_eq!(ep1["is_favorite"].as_bool(), Some(true));
    let tags: Vec<&str> = ep1["tags"].as_array().unwrap().iter().map(|t| t.as_str().unwrap()).collect();
    assert_eq!(tags, vec!["tag-a"]);
    assert_eq!(ep1["variants"].as_array().unwrap().len(), 1);
    assert_eq!(ep1["variants"][0]["label"].as_str(), Some("Extra V"));

    let ep2 = exported_prompt(&export, "Export Prompt 2");
    assert_eq!(ep2["tags"].as_array().unwrap().len(), 2);
    assert_eq!(ep2["variants"].as_array().unwrap().len(), 0);

    prompt_service::delete_prompt(&mut conn, &p1.prompt.id).unwrap();
    let json_str2 = import_export::export_json(&mut conn).unwrap();
    let export2: serde_json::Value = serde_json::from_str(&json_str2).unwrap();
    assert_eq!(export2["prompts"].as_array().unwrap().len(), 1);
}

#[test]
fn test_list_prompts_pagination() {
    let mut conn = setup_db();

    for i in 0..5 {
        create_test_prompt(&mut conn, &format!("Prompt {}", i), &format!("Content {}", i), vec![], false);
    }

    let page1 = prompt_service::list_prompts(&mut conn, 2, 0).unwrap();
    assert_eq!(page1.len(), 2);

    let page2 = prompt_service::list_prompts(&mut conn, 2, 2).unwrap();
    assert_eq!(page2.len(), 2);

    let page3 = prompt_service::list_prompts(&mut conn, 2, 4).unwrap();
    assert_eq!(page3.len(), 1);

    let all_ids: Vec<String> = page1.iter().chain(page2.iter()).chain(page3.iter()).map(|p| p.id.clone()).collect();
    let mut set = std::collections::HashSet::new();
    for id in &all_ids {
        set.insert(id.as_str());
    }
    assert_eq!(set.len(), 5);
}

#[test]
fn test_update_prompt_favorite_toggle() {
    let mut conn = setup_db();

    let created = create_test_prompt(&mut conn, "Toggle Prompt", "Content", vec![], false);
    let prompt_id = created.prompt.id.clone();
    assert!(!created.prompt.is_favorite);

    prompt_service::update_prompt(&mut conn, &prompt_id, favorite_only(true)).unwrap();
    let fetched = prompt_service::get_prompt_by_id(&mut conn, &prompt_id).unwrap();
    assert!(fetched.prompt.is_favorite);

    prompt_service::update_prompt(&mut conn, &prompt_id, favorite_only(false)).unwrap();
    let fetched = prompt_service::get_prompt_by_id(&mut conn, &prompt_id).unwrap();
    assert!(!fetched.prompt.is_favorite);
}

#[test]
fn test_list_collections() {
    let mut conn = setup_db();

    collection_service::create_collection(&mut conn, manual_collection("Alpha Collection", None)).unwrap();
    collection_service::create_collection(
        &mut conn,
        smart_collection("Beta Collection", Some("A beta coll"), r#"{"conditions":[],"match":"all"}"#),
    )
    .unwrap();

    let collections = collection_service::list_collections(&mut conn).unwrap();
    assert_eq!(collections.len(), 2);
    assert_eq!(collections[0].name, "Alpha Collection");
    assert_eq!(collections[1].name, "Beta Collection");
    assert!(collections[1].is_smart);
}

#[test]
fn test_playbook_list_and_update() {
    let mut conn = setup_db();

    let pb1 = playbook_service::create_playbook(&mut conn, "Playbook A", None).unwrap();
    let _pb2 = playbook_service::create_playbook(&mut conn, "Playbook B", Some("Description B")).unwrap();

    let list = playbook_service::list_playbooks(&mut conn).unwrap();
    assert_eq!(list.len(), 2);

    playbook_service::update_playbook(&mut conn, &pb1.id, Some("Updated Playbook A"), None).unwrap();
    let fetched = playbook_service::get_playbook(&mut conn, &pb1.id).unwrap();
    assert_eq!(fetched.playbook.title, "Updated Playbook A");
}

#[test]
fn test_markdown_import_without_frontmatter() {
    let mut conn = setup_db();

    let markdown = "This is plain markdown content without any frontmatter.";
    let result = import_export::import_markdown(&mut conn, "plain-prompt.md", markdown).unwrap();
    assert_eq!(result.imported, 1);

    let list = prompt_service::list_prompts(&mut conn, 50, 0).unwrap();
    assert_eq!(list.len(), 1);
    assert_eq!(list[0].title, "plain-prompt");
}

#[test]
fn test_import_json_with_empty_content() {
    let mut conn = setup_db();

    let json = r#"{
        "prompts": [
            {
                "title": "Has Tags",
                "content": "Some content",
                "tags": ["a", "b", "c"]
            }
        ]
    }"#;

    let result = import_export::import_json(&mut conn, json).unwrap();
    assert_eq!(result.imported, 1);

    let list = prompt_service::list_prompts(&mut conn, 50, 0).unwrap();
    let prompt = &list[0];
    assert_eq!(prompt.tags.len(), 3);
}

#[test]
fn test_search_after_update() {
    let mut conn = setup_db();

    let created = create_test_prompt(&mut conn, "Original Title", "Original content about elephants", vec![], false);
    let prompt_id = created.prompt.id.clone();

    let results = search_service::search_prompts(&mut conn, "elephants", 50).unwrap();
    assert_eq!(results.len(), 1);

    prompt_service::update_prompt(&mut conn, &prompt_id, title_only("Updated About Giraffes")).unwrap();

    let results = search_service::search_prompts(&mut conn, "Giraffes", 50).unwrap();
    assert_eq!(results.len(), 1);
}
