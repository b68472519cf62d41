//! Tests of the library's pure logic on concrete values.

use cadence::db::sql::Db;
use cadence::api::auth::{authorize, AuthDecision};
use cadence::api::keys::generate_api_key;
use cadence::api::lifecycle::{enable_decision, startup_decision, status_of, ApiStatus};
use cadence::api::responses::{check_search_query, error_response};
use cadence::db::paths::{database_dir, database_file};
use cadence::db::sql::{SqlError, SqlValue};
use cadence::error::AppError;
use cadence::models::patch::PatchField;
use cadence::models::prompt::UpdatePromptRequest;
use cadence::models::settings::default_shortcuts_map;
use cadence::search_window::{shortcut_plan, window_action, Mode, ShortcutPlan, WindowAction};
use cadence::services::collection_service::{
    build_where, clauses_from_conditions, condition_clause, FilterClause, FilterCondition,
};
use cadence::services::import_export::{content_prefix, parse_markdown_frontmatter, parse_yaml_list};
use cadence::services::pagination::{sanitize_pagination, sanitize_search_limit};
use cadence::services::playbook_service::{check_complete_order, parse_choice_ids};
use cadence::services::prompt_service::{next_sort_order, plan_prompt_update, usage_from_rows, PromptChange};
use cadence::services::search_service::{build_fts_query, build_snippet_runs, snippet_text, tokenize_query};
use cadence::services::settings_service::{self, rebind, resolve_shortcuts, saved_bindings_of};
use cadence::services::playbook_service::{playbook_from_row, session_from_row};
use cadence::services::tag_service::{tag_from_row, tags_from_rows};

fn strings(items: &[&str]) -> Vec<String> {
    items.iter().map(|s| s.to_string()).collect()
}

fn pairs(items: &[(&str, &str)]) -> Vec<(String, String)> {
    items.iter().map(|(a, b)| (a.to_string(), b.to_string())).collect()
}

fn invalid(message: &str) -> AppError {
    AppError::Invalid(message.to_string())
}

// ---- pagination ----

#[test]
fn page_requests_take_defaults_and_are_capped() {
    assert_eq!(sanitize_pagination(None, None), Ok((100, 0)));
    assert_eq!(sanitize_pagination(Some(1000), Some(5)), Ok((500, 5)));
    assert_eq!(sanitize_pagination(Some(1), Some(0)), Ok((1, 0)));
    assert_eq!(sanitize_pagination(Some(0), None), Err(invalid("limit must be at least 1")));
    assert_eq!(sanitize_pagination(Some(10), Some(-1)), Err(invalid("offset must be at least 0")));
    assert_eq!(sanitize_pagination(Some(-3), Some(-1)), Err(invalid("limit must be at least 1")));
}

#[test]
fn search_limits_take_defaults_and_are_capped() {
    assert_eq!(sanitize_search_limit(None), Ok(100));
    assert_eq!(sanitize_search_limit(Some(500)), Ok(100));
    assert_eq!(sanitize_search_limit(Some(7)), Ok(7));
    assert_eq!(sanitize_search_limit(Some(0)), Err(invalid("limit must be at least 1")));
}

// ---- errors ----

#[test]
fn errors_map_to_messages_and_statuses() {
    assert_eq!(AppError::NotFound.ipc_message(), "The requested item was not found");
    assert_eq!(invalid("bad").ipc_message(), "bad");
    assert_eq!(AppError::Conflict("dup".to_string()).ipc_message(), "dup");
    assert_eq!(AppError::Internal("sql detail".to_string()).ipc_message(), "An internal error occurred");

    assert_eq!(error_response(AppError::NotFound), (404, "Not found".to_string()));
    assert_eq!(error_response(invalid("bad")), (400, "bad".to_string()));
    assert_eq!(error_response(AppError::Conflict("dup".to_string())), (409, "dup".to_string()));
    assert_eq!(
        error_response(AppError::Internal("no such table: prompts".to_string())),
        (500, "Internal server error".to_string())
    );
}

#[test]
fn sqlite_errors_map_to_app_errors() {
    assert_eq!(AppError::from_sql(SqlError::NoRows), AppError::NotFound);
    assert_eq!(
        AppError::from_sql(SqlError::ConstraintViolation),
        AppError::Conflict("The requested change conflicts with existing data".to_string())
    );
    assert_eq!(
        AppError::from_sql(SqlError::Other("disk I/O error".to_string())),
        AppError::Internal("disk I/O error".to_string())
    );
}

#[test]
fn long_search_queries_are_refused() {
    assert_eq!(check_search_query(&"q".repeat(512)), Ok(()));
    assert_eq!(check_search_query(&"é".repeat(512)), Ok(()));
    assert_eq!(check_search_query(&"q".repeat(513)), Err(invalid("query too long")));
}

// ---- search ----

#[test]
fn queries_split_into_word_tokens() {
    assert_eq!(tokenize_query("hello, wor_ld  42!"), strings(&["hello", "wor_ld", "42"]));
    assert_eq!(tokenize_query("  ...  "), Vec::<String>::new());
    assert_eq!(tokenize_query("Café-au-lait"), strings(&["Café", "au", "lait"]));
}

#[test]
fn fts_queries_quote_tokens_and_prefix_the_last() {
    assert_eq!(build_fts_query(&strings(&["rust"])), "\"rust\"*");
    assert_eq!(build_fts_query(&strings(&["a", "b", "c"])), "\"a\" AND \"b\" AND \"c\"*");
}

#[test]
fn snippets_highlight_matching_words() {
    let runs = build_snippet_runs("The quick brown fox", &strings(&["QUICK"]));
    let view: Vec<(&str, bool)> = runs.iter().map(|r| (r.text.as_str(), r.highlighted)).collect();
    assert_eq!(view, vec![("The ", false), ("quick", true), (" brown fox", false)]);
    assert_eq!(snippet_text(&runs), "The quick brown fox");

    let runs = build_snippet_runs("The quick brown fox", &strings(&["brown", "fo"]));
    let view: Vec<(&str, bool)> = runs.iter().map(|r| (r.text.as_str(), r.highlighted)).collect();
    assert_eq!(view, vec![("The quick ", false), ("brown", true), (" ", false), ("fox", true)]);

    assert!(build_snippet_runs("", &strings(&["x"])).is_empty());
}

#[test]
fn snippets_without_a_match_show_the_first_120_characters() {
    let content = "a".repeat(130);
    let runs = build_snippet_runs(&content, &strings(&["zzz"]));
    assert_eq!(runs.len(), 1);
    assert!(!runs[0].highlighted);
    assert_eq!(runs[0].text.chars().count(), 120);
}

#[test]
fn snippets_keep_sixty_characters_around_the_first_match() {
    let content = format!("{} needle {}", "x".repeat(100), "y".repeat(100));
    let runs = build_snippet_runs(&content, &strings(&["needle"]));
    let text = snippet_text(&runs);
    assert_eq!(text.chars().count(), 60 + 6 + 60);
    assert!(runs.iter().any(|r| r.highlighted && r.text == "needle"));
}

// ---- markdown import ----

#[test]
fn front_matter_sets_title_tags_and_favorite() {
    let (title, tags, favorite, body) = parse_markdown_frontmatter(
        "notes.md",
        "---\ntitle: \"Hello\"\ntags: [a, 'b']\nfavorite: Yes\n---\nBody text\n",
    );
    assert_eq!(title, "Hello");
    assert_eq!(tags, strings(&["a", "b"]));
    assert!(favorite);
    assert_eq!(body, "Body text");
}

#[test]
fn markdown_without_front_matter_is_titled_by_its_file() {
    let (title, tags, favorite, body) = parse_markdown_frontmatter("plain.markdown", "text");
    assert_eq!(title, "plain");
    assert!(tags.is_empty());
    assert!(!favorite);
    assert_eq!(body, "text");

    let (title, _, _, body) = parse_markdown_frontmatter("x.md", "---\ntitle: A");
    assert_eq!(title, "x");
    assert_eq!(body, "---\ntitle: A");

    let (title, _, favorite, body) = parse_markdown_frontmatter("y.md", "---\nfavorite: no\n---\nbody");
    assert_eq!(title, "y");
    assert!(!favorite);
    assert_eq!(body, "body");
}

#[test]
fn yaml_lists_drop_brackets_quotes_and_blanks() {
    assert_eq!(parse_yaml_list("[one, \"two\", , three]"), strings(&["one", "two", "three"]));
    assert_eq!(parse_yaml_list("a, b"), strings(&["a", "b"]));
    assert!(parse_yaml_list("[]").is_empty());
}

#[test]
fn duplicate_checks_compare_the_first_200_characters() {
    assert_eq!(content_prefix("short"), "short");
    assert_eq!(content_prefix(&"ü".repeat(250)).chars().count(), 200);
}

// ---- prompts ----

#[test]
fn updates_plan_one_write_per_named_field() {
    let request = UpdatePromptRequest {
        title: Some("T".to_string()),
        description: PatchField::Clear,
        is_favorite: None,
        is_pinned: Some(true),
        primary_variant_id: None,
    };
    let (changes, reindex) = plan_prompt_update(&request);
    assert_eq!(
        changes,
        vec![PromptChange::Title("T".to_string()), PromptChange::ClearDescription, PromptChange::Pinned(true)]
    );
    assert!(reindex);

    let request = UpdatePromptRequest {
        title: None,
        description: PatchField::Keep,
        is_favorite: Some(false),
        is_pinned: None,
        primary_variant_id: None,
    };
    let (changes, reindex) = plan_prompt_update(&request);
    assert_eq!(changes, vec![PromptChange::Favorite(false)]);
    assert!(!reindex);

    let request = UpdatePromptRequest {
        title: None,
        description: PatchField::Keep,
        is_favorite: None,
        is_pinned: None,
        primary_variant_id: None,
    };
    let (changes, reindex) = plan_prompt_update(&request);
    assert_eq!(changes, vec![PromptChange::TouchOnly]);
    assert!(!reindex);
}

#[test]
fn usage_sums_steps_per_playbook() {
    let usage = usage_from_rows(vec![("A".to_string(), 2), ("B".to_string(), 3)]).unwrap();
    assert_eq!(usage.playbook_count, 2);
    assert_eq!(usage.step_count, 5);
    assert_eq!(usage.playbook_titles, strings(&["A", "B"]));
    assert!(usage_from_rows(vec![("A".to_string(), u32::MAX), ("B".to_string(), 1)]).is_err());
}

#[test]
fn variant_sort_order_follows_the_largest() {
    assert_eq!(next_sort_order(-1), Ok(0));
    assert_eq!(next_sort_order(4), Ok(5));
    assert!(next_sort_order(i64::MAX).is_err());
}

// ---- collections ----

fn condition(field: &str, op: &str, text_value: Option<&str>, bool_value: Option<bool>) -> FilterCondition {
    FilterCondition {
        field: field.to_string(),
        op: op.to_string(),
        text_value: text_value.map(|s| s.to_string()),
        bool_value,
    }
}

#[test]
fn filter_conditions_become_clauses() {
    assert_eq!(
        condition_clause(&condition("tag", "includes", Some("t"), None)),
        Some(FilterClause::TagIncludes("t".to_string()))
    );
    assert_eq!(condition_clause(&condition("tag", "includes", None, None)), None);
    assert_eq!(
        condition_clause(&condition("is_pinned", "eq", None, None)),
        Some(FilterClause::PinnedIs(false))
    );
    assert_eq!(condition_clause(&condition("title", "eq", Some("x"), None)), None);
    assert_eq!(
        clauses_from_conditions(&vec![
            condition("title", "eq", Some("x"), None),
            condition("is_favorite", "eq", None, Some(true)),
            condition("tag", "includes", Some("t"), None),
        ]),
        vec![FilterClause::FavoriteIs(true), FilterClause::TagIncludes("t".to_string())]
    );
}

#[test]
fn where_clauses_number_parameters_from_three() {
    let (text, params) = build_where(
        &vec![FilterClause::TagIncludes("x".to_string()), FilterClause::FavoriteIs(true)],
        false,
    );
    assert_eq!(
        text,
        "EXISTS (SELECT 1 FROM prompt_tags pt JOIN tags t ON pt.tag_id = t.id WHERE pt.prompt_id = p.id AND t.name = ?3) AND p.is_favorite = ?4"
    );
    assert_eq!(params, vec![SqlValue::Text("x".to_string()), SqlValue::Integer(1)]);

    let (text, params) = build_where(&vec![FilterClause::PinnedIs(false), FilterClause::FavoriteIs(false)], true);
    assert_eq!(text, "p.is_pinned = ?3 OR p.is_favorite = ?4");
    assert_eq!(params, vec![SqlValue::Integer(0), SqlValue::Integer(0)]);

    let (text, params) = build_where(&vec![], true);
    assert_eq!(text, "");
    assert!(params.is_empty());
}

// ---- playbooks ----

#[test]
fn step_orders_must_name_every_step_once() {
    let existing = strings(&["a", "b", "c"]);
    assert!(check_complete_order(&existing, &strings(&["c", "a", "b"])));
    assert!(!check_complete_order(&existing, &strings(&["a", "a", "b"])));
    assert!(!check_complete_order(&existing, &strings(&["a", "b"])));
    assert!(!check_complete_order(&existing, &strings(&["a", "b", "c", "d"])));
    assert!(!check_complete_order(&existing, &strings(&["a", "b", "z"])));
}

#[test]
fn stored_choice_ids_are_split_and_trimmed() {
    assert_eq!(parse_choice_ids(&Some(" a, b ,,c ".to_string())), strings(&["a", "b", "c"]));
    assert!(parse_choice_ids(&None).is_empty());
}

// ---- settings ----

#[test]
fn shortcuts_show_saved_bindings_over_defaults() {
    let shortcuts = resolve_shortcuts(&pairs(&[("focus_search", "Ctrl+K"), ("unknown", "X")]));
    assert_eq!(shortcuts.len(), 11);
    assert_eq!(shortcuts[0].action, "global_toggle_search");
    assert_eq!(shortcuts[0].binding, "CommandOrControl+Shift+P");
    assert!(shortcuts[0].is_global);
    assert_eq!(shortcuts[1].action, "focus_search");
    assert_eq!(shortcuts[1].binding, "Ctrl+K");
    assert_eq!(shortcuts[1].default_binding, "CommandOrControl+F");
    assert_eq!(shortcuts[1].label, "Focus Search");
    assert!(!shortcuts[1].is_global);
    assert_eq!(shortcuts[10].action, "open_settings");
}

#[test]
fn rebinding_starts_from_what_is_stored() {
    let from_defaults = rebind(None, "new_prompt", "Ctrl+M");
    let mut expected = default_shortcuts_map();
    expected[2].1 = "Ctrl+M".to_string();
    assert_eq!(from_defaults, expected);

    let from_saved = rebind(Some("{\"x\":\"y\"}".to_string()), "new_prompt", "Ctrl+M");
    assert_eq!(from_saved, pairs(&[("x", "y"), ("new_prompt", "Ctrl+M")]));

    let from_garbage = rebind(Some("not json".to_string()), "new_prompt", "Ctrl+M");
    assert_eq!(from_garbage, pairs(&[("new_prompt", "Ctrl+M")]));
}

#[test]
fn saved_bindings_are_read_in_key_order() {
    assert_eq!(
        saved_bindings_of(Some("{\"b\":\"2\",\"a\":\"1\"}".to_string())),
        pairs(&[("a", "1"), ("b", "2")])
    );
    assert!(saved_bindings_of(Some("[1,2]".to_string())).is_empty());
    assert!(saved_bindings_of(None).is_empty());
}

#[test]
fn stored_bindings_are_written_as_sorted_json() {
    let mut conn = Db::new(rusqlite::Connection::open_in_memory().unwrap());
    cadence::db::schema::create_tables(&mut conn).unwrap();
    settings_service::set_setting(&mut conn, settings_service::SHORTCUTS_KEY, "{\"zz\":\"Z\",\"aa\":\"A\"}").unwrap();
    let shortcuts = settings_service::update_shortcut(&mut conn, "new_prompt", "Ctrl+M").unwrap();
    assert_eq!(
        settings_service::get_setting(&mut conn, settings_service::SHORTCUTS_KEY).unwrap(),
        Some("{\"aa\":\"A\",\"new_prompt\":\"Ctrl+M\",\"zz\":\"Z\"}".to_string())
    );
    assert_eq!(shortcuts[2].binding, "Ctrl+M");
    assert_eq!(shortcuts[1].binding, "CommandOrControl+F");

    let reset = settings_service::reset_shortcuts(&mut conn).unwrap();
    assert_eq!(reset[2].binding, "CommandOrControl+N");
    assert!(settings_service::get_setting(&mut conn, settings_service::SHORTCUTS_KEY).unwrap().is_none());
}

#[test]
fn default_bindings_cover_every_action() {
    let defaults = default_shortcuts_map();
    assert_eq!(defaults.len(), 11);
    assert_eq!(defaults[0], ("global_toggle_search".to_string(), "CommandOrControl+Shift+P".to_string()));
    assert_eq!(defaults[6], ("copy_selected".to_string(), "Enter".to_string()));
}

// ---- the local API ----

#[test]
fn host_is_checked_before_the_health_bypass() {
    let key = "cad_secret";
    assert_eq!(authorize(Some("127.0.0.1:9000"), "/api/v1/health", None, 9000, key), AuthDecision::Allow);
    assert_eq!(authorize(Some("localhost:9000"), "/api/v1/health", None, 9000, key), AuthDecision::Allow);
    assert_eq!(authorize(Some("127.0.0.1:9001"), "/api/v1/health", None, 9000, key), AuthDecision::BadRequest);
    assert_eq!(authorize(Some("evil.example:9000"), "/api/v1/prompts", Some("Bearer cad_secret"), 9000, key), AuthDecision::BadRequest);
    assert_eq!(authorize(None, "/api/v1/health", None, 9000, key), AuthDecision::BadRequest);
    assert_eq!(authorize(Some("127.0.0.1:9000 "), "/api/v1/health", None, 9000, key), AuthDecision::BadRequest);
}

#[test]
fn bearer_scheme_ignores_case_but_token_does_not() {
    let key = "cad_secret";
    let host = Some("127.0.0.1:9000");
    assert_eq!(authorize(host, "/api/v1/prompts", Some("Bearer cad_secret"), 9000, key), AuthDecision::Allow);
    assert_eq!(authorize(host, "/api/v1/prompts", Some("bEaReR cad_secret"), 9000, key), AuthDecision::Allow);
    assert_eq!(authorize(host, "/api/v1/prompts", Some("Bearer CAD_SECRET"), 9000, key), AuthDecision::Unauthorized);
    assert_eq!(authorize(host, "/api/v1/prompts", Some("Basic cad_secret"), 9000, key), AuthDecision::Unauthorized);
    assert_eq!(authorize(host, "/api/v1/prompts", Some("Bearercad_secret"), 9000, key), AuthDecision::Unauthorized);
    assert_eq!(authorize(host, "/api/v1/prompts", Some("Bearer  cad_secret"), 9000, key), AuthDecision::Unauthorized);
    assert_eq!(authorize(host, "/api/v1/prompts", None, 9000, key), AuthDecision::Unauthorized);
}

#[test]
fn api_keys_are_prefixed_hex() {
    let key = generate_api_key();
    assert_eq!(key.len(), 68);
    assert!(key.starts_with("cad_"));
    assert!(key[4..].chars().all(|c| c.is_ascii_hexdigit() && !c.is_ascii_uppercase()));
    assert_ne!(generate_api_key(), key);
}

#[test]
fn lifecycle_decisions() {
    let running = status_of(Some(4242));
    assert_eq!(running, ApiStatus { enabled: true, port: Some(4242) });
    let idle = status_of(None);
    assert_eq!(idle, ApiStatus { enabled: false, port: None });

    assert_eq!(startup_decision(false, idle.clone(), Ok(running.clone()), Ok(())), Ok(idle.clone()));
    assert_eq!(startup_decision(true, idle.clone(), Ok(running.clone()), Ok(())), Ok(running.clone()));
    assert_eq!(
        startup_decision(true, idle.clone(), Err(invalid("database file missing; restart Cadence")), Ok(())),
        Err(invalid("database file missing; restart Cadence"))
    );
    assert_eq!(
        startup_decision(true, idle.clone(), Err(invalid("x")), Err(AppError::Internal("disk".to_string()))),
        Err(AppError::Internal("API startup and settings recovery both failed".to_string()))
    );

    assert_eq!(enable_decision(Ok(running.clone()), Ok(())), (false, Ok(running.clone())));
    assert_eq!(
        enable_decision(Ok(running.clone()), Err(AppError::NotFound)),
        (true, Err(AppError::NotFound))
    );
    assert_eq!(enable_decision(Err(invalid("x")), Ok(())), (false, Err(invalid("x"))));
}

#[test]
fn search_window_toggles_only_when_visible() {
    assert_eq!(window_action(Mode::Toggle, true), WindowAction::Hide);
    assert_eq!(window_action(Mode::Toggle, false), WindowAction::ShowAndFocus);
    assert_eq!(window_action(Mode::Show, true), WindowAction::ShowAndFocus);
    assert_eq!(window_action(Mode::Show, false), WindowAction::ShowAndFocus);
}

#[test]
fn database_lives_in_the_cadence_folder() {
    assert_eq!(database_dir("/home/u/.local/share"), "/home/u/.local/share/Cadence");
    assert_eq!(database_file("/data"), "/data/Cadence/cadence.db");
}

fn memory_db() -> Db {
    let raw = rusqlite::Connection::open_in_memory().unwrap();
    raw.execute_batch("PRAGMA foreign_keys=ON;").unwrap();
    let mut conn = Db::new(raw);
    cadence::db::schema::create_tables(&mut conn).unwrap();
    conn
}

#[test]
fn malformed_import_documents_are_invalid() {
    let mut conn = memory_db();
    let err = cadence::services::import_export::import_json(&mut conn, "{not json").unwrap_err();
    assert!(matches!(&err, AppError::Invalid(m) if m.starts_with("Invalid JSON: ")), "{err:?}");
    let err = cadence::services::import_export::import_json(&mut conn, "{\"items\": []}").unwrap_err();
    assert_eq!(err, invalid("Invalid JSON: prompts"));
    let err = cadence::services::import_export::import_json(&mut conn, "{\"prompts\": [{\"title\": \"t\"}]}").unwrap_err();
    assert_eq!(err, invalid("Invalid JSON: content"));
}

#[test]
fn malformed_smart_filters_are_invalid() {
    let mut conn = memory_db();
    let created = cadence::services::prompt_service::create_prompt(
        &mut conn,
        cadence::models::prompt::CreatePromptRequest {
            title: "Any".to_string(),
            description: None,
            content: "body".to_string(),
            variant_label: None,
            tags: vec![],
            is_favorite: false,
        },
    )
    .unwrap();
    assert_eq!(created.prompt.id.len(), 36);

    let smart = |filter: Option<&str>| cadence::models::collection::CreateCollectionRequest {
        name: "Smart".to_string(),
        description: None,
        icon: None,
        color: None,
        is_smart: true,
        filter_query: filter.map(|f| f.to_string()),
    };
    let broken = cadence::services::collection_service::create_collection(&mut conn, smart(Some("{oops"))).unwrap();
    let err = cadence::services::collection_service::get_collection_prompts(&mut conn, &broken.id, 10, 0).unwrap_err();
    assert!(matches!(&err, AppError::Internal(m) if m.starts_with("Invalid parameter name: Invalid filter_query JSON: ")), "{err:?}");

    let no_array = cadence::services::collection_service::create_collection(&mut conn, smart(Some("{\"match\":\"all\"}"))).unwrap();
    assert_eq!(
        cadence::services::collection_service::get_collection_prompts(&mut conn, &no_array.id, 10, 0).unwrap_err(),
        AppError::Internal("Invalid parameter name: filter_query missing 'conditions' array".to_string())
    );

    let empty = cadence::services::collection_service::create_collection(&mut conn, smart(None)).unwrap();
    assert!(cadence::services::collection_service::get_collection_prompts(&mut conn, &empty.id, 10, 0).unwrap().is_empty());

    assert_eq!(
        cadence::services::collection_service::get_collection_prompts_page(&mut conn, &empty.id, Some(0), None).unwrap_err(),
        invalid("limit must be at least 1")
    );
    assert_eq!(
        cadence::services::prompt_service::list_prompts_page(&mut conn, None, Some(-5)).unwrap_err(),
        invalid("offset must be at least 0")
    );
    assert_eq!(cadence::services::prompt_service::list_prompts_page(&mut conn, None, None).unwrap().len(), 1);
    assert_eq!(
        cadence::services::search_service::search_prompts_page(&mut conn, "body", Some(0)).unwrap_err(),
        invalid("limit must be at least 1")
    );
    assert_eq!(cadence::services::search_service::search_prompts_page(&mut conn, "body", None).unwrap().len(), 1);
}

#[test]
fn unknown_collections_and_prompts_are_not_found() {
    let mut conn = memory_db();
    assert_eq!(
        cadence::services::collection_service::get_collection_prompts(&mut conn, "missing", 10, 0).unwrap_err(),
        AppError::NotFound
    );
    assert_eq!(
        cadence::services::prompt_service::get_prompt_by_id(&mut conn, "missing").unwrap_err(),
        AppError::NotFound
    );
}

#[test]
fn the_global_search_binding_is_looked_up_by_action() {
    let shortcuts = resolve_shortcuts(&pairs(&[("global_toggle_search", "Alt+Space")]));
    assert_eq!(settings_service::global_search_binding(&shortcuts), Some("Alt+Space".to_string()));
    let defaults = resolve_shortcuts(&vec![]);
    assert_eq!(
        settings_service::global_search_binding(&defaults),
        Some("CommandOrControl+Shift+P".to_string())
    );
    assert_eq!(settings_service::global_search_binding(&defaults[1..].to_vec()), None);
}

#[test]
fn unchanged_unregistered_shortcuts_are_only_registered() {
    assert_eq!(shortcut_plan("Ctrl+P", "Ctrl+P", false), ShortcutPlan::RegisterThenPersist);
    assert_eq!(shortcut_plan("Ctrl+P", "Ctrl+P", true), ShortcutPlan::Reregister);
    assert_eq!(shortcut_plan("Ctrl+P", "Ctrl+K", false), ShortcutPlan::Reregister);
}

#[test]
fn markdown_imports_count_every_file_once() {
    let mut conn = memory_db();
    let empty = cadence::services::import_export::import_markdown(&mut conn, "notes.md", "---\ntitle: T\n---\n   ").unwrap();
    assert_eq!((empty.imported, empty.skipped), (0, 0));
    assert_eq!(empty.errors, strings(&["notes.md: empty content"]));

    let batch = cadence::services::import_export::import_markdown_batch(
        &mut conn,
        pairs(&[("a.md", "alpha body"), ("b.md", ""), ("a.md", "alpha body")]),
    )
    .unwrap();
    assert_eq!(batch.imported, 1);
    assert_eq!(batch.skipped, 1);
    assert_eq!(batch.errors, strings(&["b.md: empty content"]));
}

#[test]
fn search_entries_hold_title_description_content_and_tags() {
    let tag = |name: &str| cadence::models::tag::Tag {
        id: format!("id-{name}"),
        name: name.to_string(),
        color: None,
        created_at: None,
    };
    let doc = cadence::services::prompt_service::search_document(
        "Title".to_string(),
        None,
        "Body".to_string(),
        &vec![tag("model:llama"), tag("writing")],
    );
    assert_eq!(
        doc,
        ("Title".to_string(), String::new(), "Body".to_string(), "model:llama writing".to_string())
    );
    let doc = cadence::services::prompt_service::search_document("T".to_string(), Some("D".to_string()), "C".to_string(), &vec![]);
    assert_eq!(doc, ("T".to_string(), "D".to_string(), "C".to_string(), String::new()));
}

#[test]
fn rows_of_the_wrong_kinds_are_refused() {
    let text = |s: &str| SqlValue::Text(s.to_string());
    let good_tag = vec![text("id"), text("name"), SqlValue::Null, text("2024")];
    let bad_tag = vec![SqlValue::Integer(1), text("name"), SqlValue::Null, SqlValue::Null];
    assert_eq!(tag_from_row(&good_tag).unwrap().name, "name");
    assert!(matches!(tag_from_row(&bad_tag), Err(AppError::Internal(_))));
    assert_eq!(tags_from_rows(&vec![good_tag.clone(), good_tag.clone()]).unwrap().len(), 2);
    assert!(tags_from_rows(&vec![good_tag, bad_tag]).is_err());

    let session = session_from_row(&vec![SqlValue::Integer(1), SqlValue::Null, SqlValue::Integer(3), SqlValue::Null]).unwrap();
    assert_eq!((session.id, session.current_step), (1, 3));
    assert!(session_from_row(&vec![SqlValue::Integer(1), SqlValue::Integer(2), SqlValue::Integer(3), SqlValue::Null]).is_err());
    assert!(playbook_from_row(&vec![text("p"), text("t"), SqlValue::Null, SqlValue::Null, SqlValue::Other]).is_err());
}

#[test]
fn io_errors_carry_their_detail() {
    assert_eq!(
        cadence::api::lifecycle::io_error("disk full"),
        AppError::Internal("I/O operation failed: disk full".to_string())
    );
}

#[test]
fn an_empty_markdown_batch_imports_nothing() {
    let mut conn = memory_db();
    let r = cadence::services::import_export::import_markdown_batch(&mut conn, vec![]).unwrap();
    assert_eq!((r.imported, r.skipped, r.errors.len()), (0, 0, 0));
}
