use vstd::prelude::*;

use crate::db::sql::{Db, SqlCall, SqlOutcome};

use crate::db::sql::{self, SqlValue};
use crate::error::{AppError, AppResult};
use crate::ids::{new_id, now_rfc3339};
use crate::json::{absent, bool_of, get, json_bool, json_document, json_get, json_str, parse_json, str_of, JsonValue};
use crate::models::collection::{Collection, CreateCollectionRequest};
use crate::models::prompt::PromptListItem;
use crate::services::pagination::{or_default, sanitize_pagination, DEFAULT_PAGE_SIZE};
use crate::services::prompt_service::{self, flag_col, opt_text_col};
use crate::text::{opt_view, decimal, push_decimal, push_str, starts_with, str_eq};

verus! {

broadcast use crate::db::sql::group_calls;

/// `c` is the collection a `collections` row describes.
pub open spec fn collection_row(row: Seq<SqlValue>, c: Collection) -> bool {
    &&& row.len() == 11
    &&& row[0] == SqlValue::Text(c.id)
    &&& row[1] == SqlValue::Text(c.name)
    &&& opt_text_col(row[2], c.description)
    &&& opt_text_col(row[3], c.icon)
    &&& opt_text_col(row[4], c.color)
    &&& flag_col(row[5], c.is_smart)
    &&& opt_text_col(row[6], c.filter_query)
    &&& opt_text_col(row[7], c.sort_field)
    &&& opt_text_col(row[8], c.sort_order)
    &&& opt_text_col(row[9], c.created_at)
    &&& opt_text_col(row[10], c.updated_at)
}

/// The columns of a `collections` row have the kinds a collection needs:
/// text id and name, an integer flag, and nullable text elsewhere.
pub open spec fn collection_row_typed(row: Seq<SqlValue>) -> bool {
    &&& row[0] is Text
    &&& row[1] is Text
    &&& row[5] is Integer
    &&& forall|i: int| (2 <= i <= 4 || 6 <= i <= 10) ==> (#[trigger] row[i] is Text || row[i] is Null)
}

pub fn collection_from_row(row: &Vec<SqlValue>) -> (r: AppResult<Collection>)
    requires
        row.len() == 11,
    ensures
        r is Ok <==> collection_row_typed(row@),
        r matches Ok(c) ==> collection_row(row@, c),
{
    Ok(Collection {
        id: sql::col_text(row, 0)?,
        name: sql::col_text(row, 1)?,
        description: sql::col_opt_text(row, 2)?,
        icon: sql::col_opt_text(row, 3)?,
        color: sql::col_opt_text(row, 4)?,
        is_smart: sql::col_bool(row, 5)?,
        filter_query: sql::col_opt_text(row, 6)?,
        sort_field: sql::col_opt_text(row, 7)?,
        sort_order: sql::col_opt_text(row, 8)?,
        created_at: sql::col_opt_text(row, 9)?,
        updated_at: sql::col_opt_text(row, 10)?,
    })
}

/// `c` is what creating a collection from `req` returns: the fields asked
/// for, no sort field, ascending order, and equal creation and update times.
pub open spec fn created_collection(req: CreateCollectionRequest, c: Collection) -> bool {
    &&& c.name == req.name
    &&& c.description == req.description
    &&& c.icon == req.icon
    &&& c.color == req.color
    &&& c.is_smart == req.is_smart
    &&& c.filter_query == req.filter_query
    &&& c.sort_field is None
    &&& c.sort_order matches Some(o) && o@ == "asc"@
    &&& c.created_at is Some
    &&& c.created_at == c.updated_at
}

/// Creates a collection.
/// Inserts a collection.
pub const INSERT_COLLECTION_SQL: &'static str = "INSERT INTO collections (id, name, description, icon, color, is_smart, filter_query, created_at, updated_at)
         VALUES (?1, ?2, ?3, ?4, ?5, ?6, ?7, ?8, ?9)";

pub fn create_collection(conn: &mut Db, req: CreateCollectionRequest) -> (r: AppResult<Collection>)
    ensures
        sql::extends(old(conn).calls(), final(conn).calls()),
        r is Ok ==> sql::writes_ok(old(conn).calls(), final(conn).calls()),
        sql::all_met(old(conn).calls(), final(conn).calls()) ==> r is Ok,
        r matches Ok(c) ==> created_collection(req, c),
        final(conn).calls().len() == old(conn).calls().len() + 1,
        ({
            let call = final(conn).calls().last();
            &&& call.sql == INSERT_COLLECTION_SQL@
            &&& call.params.len() == 9
            &&& sql::text_is(call.params[1], req.name@)
            &&& sql::opt_text_is(call.params[2], opt_view(req.description))
            &&& sql::opt_text_is(call.params[3], opt_view(req.icon))
            &&& sql::opt_text_is(call.params[4], opt_view(req.color))
            &&& call.params[5] == SqlValue::Integer(if req.is_smart { 1 } else { 0 })
            &&& sql::opt_text_is(call.params[6], opt_view(req.filter_query))
            &&& r is Ok <==> call.outcome is Changed
            &&& r matches Ok(c) ==> sql::text_is(call.params[0], c.id@)
        }),
{
    let id = new_id();
    let now = now_rfc3339();
    let mut params = sql::params5(
        sql::text_param(id.as_str()),
        sql::text_param(req.name.as_str()),
        sql::opt_string_param(&req.description),
        sql::opt_string_param(&req.icon),
        sql::opt_string_param(&req.color),
    );
    params.push(sql::bool_param(req.is_smart));
    params.push(sql::opt_string_param(&req.filter_query));
    params.push(sql::text_param(now.as_str()));
    params.push(sql::text_param(now.as_str()));
    sql::execute(
        conn,
        INSERT_COLLECTION_SQL,
        &params,
    )?;
    Ok(Collection {
        id,
        name: req.name,
        description: req.description,
        icon: req.icon,
        color: req.color,
        is_smart: req.is_smart,
        filter_query: req.filter_query,
        sort_field: None,
        sort_order: Some("asc".to_string()),
        created_at: Some(now.clone()),
        updated_at: Some(now),
    })
}

/// Reads every collection, ordered by name.
pub const LIST_COLLECTIONS_SQL: &'static str = "SELECT id, name, description, icon, color, is_smart, filter_query,
                sort_field, sort_order, created_at, updated_at
         FROM collections
         ORDER BY name";

/// The kinds of a collection row's columns.
pub open spec fn collection_kinds() -> Seq<sql::Kind> {
    seq![sql::Kind::Text, sql::Kind::Text, sql::Kind::OptText, sql::Kind::OptText, sql::Kind::OptText, sql::Kind::Int,
        sql::Kind::OptText, sql::Kind::OptText, sql::Kind::OptText, sql::Kind::OptText, sql::Kind::OptText]
}

/// Every collection, ordered by name: one query, one collection per row.
pub fn list_collections(conn: &mut Db) -> (r: AppResult<Vec<Collection>>)
    ensures
        sql::extends(old(conn).calls(), final(conn).calls()),
        r is Ok ==> sql::writes_ok(old(conn).calls(), final(conn).calls()),
        sql::all_met(old(conn).calls(), final(conn).calls()) ==> r is Ok,
        final(conn).calls().len() == old(conn).calls().len() + 1,
        sql::text_call(final(conn).calls(), old(conn).calls().len() as int, LIST_COLLECTIONS_SQL@, seq![]),
        r matches Ok(v) ==> final(conn).calls().last().outcome matches SqlOutcome::Rows(rows)
            && v.len() == rows.len() && forall|i: int| 0 <= i < rows.len() ==> collection_row(rows[i], #[trigger] v@[i]),
{
    let rows = sql::query_all(conn, LIST_COLLECTIONS_SQL, &Vec::new(), &[sql::Kind::Text, sql::Kind::Text, sql::Kind::OptText, sql::Kind::OptText, sql::Kind::OptText, sql::Kind::Int, sql::Kind::OptText, sql::Kind::OptText, sql::Kind::OptText, sql::Kind::OptText, sql::Kind::OptText])?;
    let ghost answered = sql::rows_view(rows@);
    let mut collections: Vec<Collection> = Vec::new();
    for i in 0..rows.len()
        invariant
            sql::extends(old(conn).calls(), conn.calls()),
            forall|k: int| 0 <= k < rows.len() ==> #[trigger] rows[k].len() == 11,
            answered == sql::rows_view(rows@),
            conn.calls().len() == old(conn).calls().len() + 1,
            sql::text_call(conn.calls(), old(conn).calls().len() as int, LIST_COLLECTIONS_SQL@, seq![]),
            conn.calls().last().outcome == SqlOutcome::Rows(answered),
            collections.len() == i,
            forall|k: int| 0 <= k < i ==> collection_row(answered[k], #[trigger] collections@[k]),
            sql::rows_fit(answered, collection_kinds()),
    {
        proof { assert(answered[i as int] == rows@[i as int]@); }
        collections.push(collection_from_row(&rows[i])?);
    }
    Ok(collections)
}

/// A page of a collection's prompts with an optional limit and offset,
/// checked and capped as every page request is.
pub fn get_collection_prompts_page(conn: &mut Db, collection_id: &str, limit: Option<i64>, offset: Option<i64>) -> (r: AppResult<Vec<PromptListItem>>)
    ensures
        sql::extends(old(conn).calls(), final(conn).calls()),
        r is Ok ==> sql::writes_ok(old(conn).calls(), final(conn).calls()),
        sql::all_met(old(conn).calls(), final(conn).calls())
            && or_default(limit, DEFAULT_PAGE_SIZE) >= 1 && or_default(offset, 0) >= 0
            && (sql::first_row(final(conn).calls()[old(conn).calls().len() as int].outcome) matches Some(row)
                ==> (row[0] != SqlValue::Integer(0) ==> filter_readable(filter_of_row(row))))
            ==> r is Ok,
        or_default(limit, DEFAULT_PAGE_SIZE) < 1 ==> (r matches Err(AppError::Invalid(m)) && m@ == "limit must be at least 1"@),
        or_default(limit, DEFAULT_PAGE_SIZE) >= 1 && or_default(offset, 0) < 0
            ==> (r matches Err(AppError::Invalid(m)) && m@ == "offset must be at least 0"@),
        or_default(limit, DEFAULT_PAGE_SIZE) >= 1 && or_default(offset, 0) >= 0
            ==> sql::text_call(final(conn).calls(), old(conn).calls().len() as int, COLLECTION_KIND_SQL@, seq![collection_id@]),
{
    let (limit, offset) = sanitize_pagination(limit, offset)?;
    get_collection_prompts(conn, collection_id, limit, offset)
}

/// Reads whether a collection is smart, and its filter.
pub const COLLECTION_KIND_SQL: &'static str = "SELECT is_smart, filter_query FROM collections WHERE id = ?1";

/// A page of a manual collection's active members, in the order they were added.
pub const MANUAL_MEMBERS_SQL: &'static str = "SELECT p.id, p.title, p.description, p.is_favorite, p.copy_count, p.last_copied_at,
                COALESCE(SUBSTR(v.content, 1, 100), '') AS snippet,
                (SELECT COUNT(*) FROM variants WHERE prompt_id = p.id AND deleted_at IS NULL) AS variant_count
         FROM prompts p
         JOIN collection_prompts cp ON cp.prompt_id = p.id
         LEFT JOIN variants v ON v.id = p.primary_variant_id AND v.deleted_at IS NULL
         WHERE cp.collection_id = ?1 AND p.deleted_at IS NULL
         ORDER BY cp.position
         LIMIT ?2 OFFSET ?3";

/// The filter text a collection row holds, if any.
pub open spec fn filter_of_row(row: Seq<SqlValue>) -> Option<String> {
    match row[1] {
        SqlValue::Text(t) => Some(t),
        _ => None,
    }
}

/// One page of a collection's prompts: a manual collection's members in the
/// order they were added, or the prompts a smart collection's filter selects.
/// The collection is read first; a missing one is `NotFound`. A manual
/// collection's page is one listing query for its id, limit and offset.
pub fn get_collection_prompts(conn: &mut Db, collection_id: &str, limit: i64, offset: i64) -> (r: AppResult<Vec<PromptListItem>>)
    ensures
        sql::extends(old(conn).calls(), final(conn).calls()),
        r is Ok ==> sql::writes_ok(old(conn).calls(), final(conn).calls()),
        sql::all_met(old(conn).calls(), final(conn).calls())
            && (sql::first_row(final(conn).calls()[old(conn).calls().len() as int].outcome) matches Some(row)
                ==> (row[0] != SqlValue::Integer(0) ==> filter_readable(filter_of_row(row))))
            ==> r is Ok,
        sql::text_call(final(conn).calls(), old(conn).calls().len() as int, COLLECTION_KIND_SQL@, seq![collection_id@]),
        ({
            let n = old(conn).calls().len() as int;
            let calls = final(conn).calls();
            sql::first_row(calls[n].outcome) matches Some(row)
                ==> (row[0] != SqlValue::Integer(0) && sql::met(calls[n])
                    ==> smart_result(calls.take(n + 1), calls, filter_of_row(row), limit, offset, r))
        }),
        ({
            let o = final(conn).calls()[old(conn).calls().len() as int].outcome;
            o is Rows && sql::first_row(o) is None
                ==> r == Err::<Vec<PromptListItem>, AppError>(AppError::NotFound) && final(conn).calls().len() == old(conn).calls().len() + 1
        }),
        ({
            let n = old(conn).calls().len() as int;
            let calls = final(conn).calls();
            sql::first_row(calls[n].outcome) matches Some(row) && row[0] == SqlValue::Integer(0) && sql::met(calls[n]) ==> {
                    &&& calls.len() > n + 1
                    &&& calls[n + 1].sql == MANUAL_MEMBERS_SQL@
                    &&& calls[n + 1].params.len() == 3
                    &&& sql::text_is(calls[n + 1].params[0], collection_id@)
                    &&& calls[n + 1].params[1] == SqlValue::Integer(limit)
                    &&& calls[n + 1].params[2] == SqlValue::Integer(offset)
                    &&& r matches Ok(items) ==> prompt_service::listed(calls[n + 1].outcome, items@)
                }
        }),
{
    let ghost n = conn.calls().len() as int;
    let row = sql::query_one(
        conn,
        COLLECTION_KIND_SQL,
        &sql::params1(sql::text_param(collection_id)),
        &[sql::Kind::Int, sql::Kind::OptText])?;
    let ghost c1 = conn.calls();
    let is_smart = sql::col_bool(&row, 0)?;
    let filter_query = sql::col_opt_text(&row, 1)?;
    let r = if is_smart {
        get_smart_collection_prompts(conn, &filter_query, limit, offset)
    } else {
        prompt_service::list_query(
            conn,
            MANUAL_MEMBERS_SQL,
            &sql::params3(sql::text_param(collection_id), SqlValue::Integer(limit), SqlValue::Integer(offset)),
        )
    };
    proof {
        assert(conn.calls()[n] == c1[n]);
        assert(conn.calls().take(n + 1) =~= c1);
        assert(filter_of_row(row@) == filter_query);
    }
    r
}

// ---------------------------------------------------------------------
// Smart collection filters
// ---------------------------------------------------------------------

/// One condition of a smart filter as written: its field, operator, and
/// value (read as text and as a boolean).
#[derive(Debug, Clone)]
pub struct FilterCondition {
    pub field: String,
    pub op: String,
    pub text_value: Option<String>,
    pub bool_value: Option<bool>,
}

/// A condition the library knows how to apply.
#[derive(Debug, Clone, PartialEq, Eq)]
pub enum FilterClause {
    TagIncludes(String),
    FavoriteIs(bool),
    PinnedIs(bool),
}

/// The clause a condition stands for, if the library knows it: a tag
/// condition needs a text value; a flag condition reads a missing or
/// non-boolean value as false; unknown conditions are skipped.
pub open spec fn clause_of(c: FilterCondition) -> Option<FilterClause> {
    if c.field@ == "tag"@ && c.op@ == "includes"@ {
        match c.text_value {
            Some(t) => Some(FilterClause::TagIncludes(t)),
            None => None,
        }
    } else if c.field@ == "is_favorite"@ && c.op@ == "eq"@ {
        Some(FilterClause::FavoriteIs(match c.bool_value { Some(b) => b, None => false }))
    } else if c.field@ == "is_pinned"@ && c.op@ == "eq"@ {
        Some(FilterClause::PinnedIs(match c.bool_value { Some(b) => b, None => false }))
    } else {
        None
    }
}

/// The clauses of a list of conditions, in order, skipping unknown ones.
pub open spec fn clauses_of(cs: Seq<FilterCondition>) -> Seq<FilterClause>
    decreases cs.len(),
{
    if cs.len() == 0 {
        Seq::empty()
    } else {
        let prev = clauses_of(cs.drop_last());
        match clause_of(cs.last()) {
            Some(c) => prev.push(c),
            None => prev,
        }
    }
}

/// A flag condition carries the value it was given: `is_favorite` (or
/// `is_pinned`) `eq` with the boolean `b` keeps exactly the prompts whose flag
/// is `b`, binding 1 exactly when `b` is true; a missing or non-boolean value
/// counts as false.
pub proof fn lemma_flag_clause_carries_its_value(c: FilterCondition)
    requires
        c.op@ == "eq"@,
        c.field@ == "is_favorite"@ || c.field@ == "is_pinned"@,
    ensures
        clause_of(c) is Some,
        c.field@ == "is_favorite"@ ==> clause_of(c) == Some(FilterClause::FavoriteIs(c.bool_value == Some(true))),
        c.field@ == "is_pinned"@ ==> clause_of(c) == Some(FilterClause::PinnedIs(c.bool_value == Some(true))),
        clause_param(clause_of(c)->0) == SqlValue::Integer(if c.bool_value == Some(true) { 1 } else { 0 }),
        clause_sql(clause_of(c)->0, 3) == (if c.field@ == "is_favorite"@ { "p.is_favorite = ?"@ } else { "p.is_pinned = ?"@ }) + decimal(3),
{
    reveal_strlit("is_favorite");
    reveal_strlit("is_pinned");
    reveal_strlit("tag");
    assert("is_favorite"@ != "tag"@) by { assert("is_favorite"@.len() != "tag"@.len()); }
    assert("is_pinned"@ != "tag"@) by { assert("is_pinned"@.len() != "tag"@.len()); }
    assert("is_pinned"@ != "is_favorite"@) by { assert("is_pinned"@.len() != "is_favorite"@.len()); }
}

/// A tag condition keeps the prompts carrying the tag it names, and is
/// skipped when it names none.
pub proof fn lemma_tag_clause_names_its_tag(c: FilterCondition)
    requires
        c.field@ == "tag"@,
        c.op@ == "includes"@,
    ensures
        match c.text_value {
            Some(t) => clause_of(c) == Some(FilterClause::TagIncludes(t)) && clause_param(clause_of(c)->0) == SqlValue::Text(t),
            None => clause_of(c) is None,
        },
{
}

pub fn condition_clause(c: &FilterCondition) -> (r: Option<FilterClause>)
    ensures
        r == clause_of(*c),
        c.field@ == "is_favorite"@ && c.op@ == "eq"@ ==> r == Some(FilterClause::FavoriteIs(c.bool_value == Some(true))),
        c.field@ == "is_pinned"@ && c.op@ == "eq"@ ==> r == Some(FilterClause::PinnedIs(c.bool_value == Some(true))),
{
    proof {
        if c.op@ == "eq"@ && (c.field@ == "is_favorite"@ || c.field@ == "is_pinned"@) {
            lemma_flag_clause_carries_its_value(*c);
        }
    }
    let field = c.field.as_str();
    let op = c.op.as_str();
    if str_eq(field, "tag") && str_eq(op, "includes") {
        match &c.text_value {
            Some(t) => Some(FilterClause::TagIncludes(t.clone())),
            None => None,
        }
    } else if str_eq(field, "is_favorite") && str_eq(op, "eq") {
        Some(FilterClause::FavoriteIs(match c.bool_value { Some(b) => b, None => false }))
    } else if str_eq(field, "is_pinned") && str_eq(op, "eq") {
        Some(FilterClause::PinnedIs(match c.bool_value { Some(b) => b, None => false }))
    } else {
        None
    }
}

/// The SQL test for one clause, using parameter number `index`.
pub open spec fn clause_sql(c: FilterClause, index: nat) -> Seq<char> {
    match c {
        FilterClause::TagIncludes(_) => "EXISTS (SELECT 1 FROM prompt_tags pt JOIN tags t ON pt.tag_id = t.id WHERE pt.prompt_id = p.id AND t.name = ?"@ + decimal(index) + ")"@,
        FilterClause::FavoriteIs(_) => "p.is_favorite = ?"@ + decimal(index),
        FilterClause::PinnedIs(_) => "p.is_pinned = ?"@ + decimal(index),
    }
}

/// The parameter value one clause binds.
pub open spec fn clause_param(c: FilterClause) -> SqlValue {
    match c {
        FilterClause::TagIncludes(t) => SqlValue::Text(t),
        FilterClause::FavoriteIs(b) => SqlValue::Integer(if b { 1 } else { 0 }),
        FilterClause::PinnedIs(b) => SqlValue::Integer(if b { 1 } else { 0 }),
    }
}

/// The WHERE text of clauses numbered from parameter 3 on, joined by `joiner`.
pub open spec fn where_sql(cs: Seq<FilterClause>, joiner: Seq<char>) -> Seq<char>
    decreases cs.len(),
{
    if cs.len() == 0 {
        Seq::empty()
    } else if cs.len() == 1 {
        clause_sql(cs[0], 3)
    } else {
        where_sql(cs.drop_last(), joiner) + joiner + clause_sql(cs.last(), (cs.len() + 2) as nat)
    }
}

/// The WHERE text and parameters for a list of clauses, numbering their
/// parameters from 3 (1 and 2 are the page limit and offset), joined by
/// OR when any clause may match and by AND when all must.
pub fn build_where(clauses: &Vec<FilterClause>, match_any: bool) -> (r: (String, Vec<SqlValue>))
    requires
        clauses.len() + 2 <= u64::MAX,
    ensures
        r.0@ == where_sql(clauses@, if match_any { " OR "@ } else { " AND "@ }),
        r.1@ == clauses@.map_values(|c: FilterClause| clause_param(c)),
{
    let joiner: &str = if match_any { " OR " } else { " AND " };
    let ghost j = joiner@;
    let mut text = String::new();
    let mut params: Vec<SqlValue> = Vec::new();
    for i in 0..clauses.len()
        invariant
            clauses.len() + 2 <= u64::MAX,
            j == joiner@,
            j == (if match_any { " OR "@ } else { " AND "@ }),
            text@ == where_sql(clauses@.take(i as int), j),
            params@ == clauses@.take(i as int).map_values(|c: FilterClause| clause_param(c)),
    {
        let ghost before = text@;
        if i > 0 {
            push_str(&mut text, joiner);
        }
        let ghost with_joiner = text@;
        let index: u64 = (i as u64) + 3;
        match &clauses[i] {
            FilterClause::TagIncludes(t) => {
                push_str(&mut text, "EXISTS (SELECT 1 FROM prompt_tags pt JOIN tags t ON pt.tag_id = t.id WHERE pt.prompt_id = p.id AND t.name = ?");
                push_decimal(&mut text, index);
                push_str(&mut text, ")");
                params.push(SqlValue::Text(t.clone()));
            }
            FilterClause::FavoriteIs(b) => {
                push_str(&mut text, "p.is_favorite = ?");
                push_decimal(&mut text, index);
                params.push(sql::bool_param(*b));
            }
            FilterClause::PinnedIs(b) => {
                push_str(&mut text, "p.is_pinned = ?");
                push_decimal(&mut text, index);
                params.push(sql::bool_param(*b));
            }
        }
        proof {
            let taken = clauses@.take(i + 1);
            assert(taken.drop_last() =~= clauses@.take(i as int));
            assert(taken.last() == clauses@[i as int]);
            assert(text@ =~= with_joiner + clause_sql(clauses@[i as int], index as nat));
            if i == 0 {
                assert(taken.len() == 1);
                assert(text@ =~= where_sql(taken, j));
            } else {
                assert(with_joiner =~= before + j);
                assert(where_sql(taken, j) == where_sql(taken.drop_last(), j) + j + clause_sql(taken.last(), (taken.len() + 2) as nat));
                assert(text@ =~= where_sql(taken, j));
            }
            assert(params@ =~= taken.map_values(|c: FilterClause| clause_param(c)));
        }
    }
    proof { assert(clauses@.take(clauses.len() as int) =~= clauses@); }
    (text, params)
}

/// The clauses of the conditions, in order, skipping unknown ones.
pub fn clauses_from_conditions(conditions: &Vec<FilterCondition>) -> (r: Vec<FilterClause>)
    ensures
        r@ == clauses_of(conditions@),
        r.len() <= conditions.len(),
{
    let mut clauses: Vec<FilterClause> = Vec::new();
    for i in 0..conditions.len()
        invariant
            clauses@ == clauses_of(conditions@.take(i as int)),
            clauses.len() <= i,
    {
        proof {
            assert(conditions@.take(i + 1).drop_last() =~= conditions@.take(i as int));
            assert(conditions@.take(i + 1).last() == conditions@[i as int]);
        }
        if let Some(c) = condition_clause(&conditions[i]) {
            clauses.push(c);
        }
    }
    proof { assert(conditions@.take(conditions.len() as int) =~= conditions@); }
    clauses
}

/// The items of a filter document's `conditions` array, when it has one.
pub open spec fn filter_items(doc: JsonValue) -> Option<Seq<JsonValue>> {
    match get(doc, "conditions"@) {
        Some(JsonValue::Array(items)) => Some(items@),
        _ => None,
    }
}

/// A text member, or the empty text when it is missing or no string.
pub open spec fn text_or_empty(v: Option<JsonValue>) -> Seq<char> {
    match str_of(v) {
        Some(t) => t,
        None => Seq::empty(),
    }
}

/// `c` is the condition a filter item describes: its `field` and `op`
/// texts, and its `value` read as a text and as a boolean.
pub open spec fn condition_of_item(item: JsonValue, c: FilterCondition) -> bool {
    &&& c.field@ == text_or_empty(get(item, "field"@))
    &&& c.op@ == text_or_empty(get(item, "op"@))
    &&& opt_view(c.text_value) == str_of(get(item, "value"@))
    &&& c.bool_value == bool_of(get(item, "value"@))
}

/// `cs` are the conditions of the filter items, one each, in order.
pub open spec fn conditions_of_items(items: Seq<JsonValue>, cs: Seq<FilterCondition>) -> bool {
    &&& cs.len() == items.len()
    &&& forall|i: int| 0 <= i < items.len() ==> condition_of_item(items[i], #[trigger] cs[i])
}

/// Reads the conditions and the match mode of a parsed filter document: one
/// condition per item of its `conditions` array, and the text of its `match`
/// member. A document without a `conditions` array is an internal error.
pub fn read_filter(filter: &JsonValue) -> (r: AppResult<(Vec<FilterCondition>, Option<String>)>)
    ensures
        r is Ok <==> filter_items(*filter) is Some,
        r matches Ok((cs, mode)) ==> conditions_of_items(filter_items(*filter)->0, cs@)
            && opt_view(mode) == str_of(get(*filter, "match"@)),
        r matches Err(e) ==> (e matches AppError::Internal(m) && m@ == "Invalid parameter name: filter_query missing 'conditions' array"@),
{
    let items = match json_get(filter, "conditions") {
        Some(JsonValue::Array(items)) => items,
        _ => return Err(AppError::internal("Invalid parameter name: filter_query missing 'conditions' array")),
    };
    let mut conditions: Vec<FilterCondition> = Vec::new();
    for i in 0..items.len()
        invariant
            filter_items(*filter) == Some(items@),
            conditions.len() == i,
            forall|k: int| 0 <= k < i ==> condition_of_item(items@[k], #[trigger] conditions@[k]),
    {
        let item = &items[i];
        let field = match json_str(json_get(item, "field")) { Some(f) => f, None => String::new() };
        let op = match json_str(json_get(item, "op")) { Some(o) => o, None => String::new() };
        let value = json_get(item, "value");
        let c = FilterCondition {
            field,
            op,
            text_value: json_str(value),
            bool_value: json_bool(value),
        };
        proof { assert(condition_of_item(items@[i as int], c)); }
        conditions.push(c);
    }
    let mode = json_str(json_get(filter, "match"));
    Ok((conditions, mode))
}

/// The filter of a smart collection can be read: it is absent or empty, or
/// a JSON document with a `conditions` array of fewer than `usize::MAX - 2` items.
pub open spec fn filter_readable(filter_query: Option<String>) -> bool {
    match filter_query {
        None => true,
        Some(t) => t@.len() == 0 || (json_document(t@) matches Some(doc)
            && filter_items(doc) matches Some(items) && items.len() < usize::MAX - 2),
    }
}

/// What reading a smart collection's filter `fq` did from `before` to
/// `after`: an absent or empty filter found nothing and asked nothing; a
/// filter that is not valid JSON, or has no conditions array, is an internal
/// error; otherwise its conditions and match mode are those of the page query.
pub open spec fn smart_result(before: Seq<SqlCall>, after: Seq<SqlCall>, fq: Option<String>, limit: i64, offset: i64,
    r: AppResult<Vec<PromptListItem>>) -> bool
{
    &&& ((fq matches Some(t) ==> t@.len() == 0) ==> (r matches Ok(items) && items.len() == 0)
            && after == before)
    &&& (fq matches Some(t) && t@.len() > 0 && json_document(t@) is None ==> (r matches Err(AppError::Internal(m))
            && starts_with(m@, "Invalid parameter name: Invalid filter_query JSON: "@)))
    &&& (fq matches Some(t) && t@.len() > 0 && (json_document(t@) matches Some(doc) && filter_items(doc) is None)
            ==> (r matches Err(AppError::Internal(m)) && m@ == "Invalid parameter name: filter_query missing 'conditions' array"@))
    &&& (fq matches Some(t) ==> (t@.len() > 0 ==> (json_document(t@) matches Some(doc) ==> (filter_items(doc) matches Some(items)
            ==> exists|cs: Seq<FilterCondition>| #[trigger] conditions_of_items(items, cs)
                && smart_page(before, after, cs, str_of(get(doc, "match"@)), limit, offset, r)))))
}

/// The prompts a smart collection's filter selects, most recently updated
/// first. An absent or empty filter selects nothing; a filter that is not
/// valid JSON, or has no conditions array, is an internal error, as a failed
/// SQLite call is; otherwise its conditions and match mode are those the
/// page query is built from.
fn get_smart_collection_prompts(conn: &mut Db, filter_query: &Option<String>, limit: i64, offset: i64) -> (r: AppResult<Vec<PromptListItem>>)
    ensures
        sql::extends(old(conn).calls(), final(conn).calls()),
        r is Ok ==> sql::writes_ok(old(conn).calls(), final(conn).calls()),
        sql::all_met(old(conn).calls(), final(conn).calls()) && filter_readable(*filter_query) ==> r is Ok,
        smart_result(old(conn).calls(), final(conn).calls(), *filter_query, limit, offset, r),
{
    let text = match filter_query {
        Some(q) => q,
        None => {
            let r = Ok(Vec::new());
            proof { assert(r matches Ok(items) && items.len() == 0); }
            return r;
        }
    };
    if text.as_str().is_empty() {
        let r = Ok(Vec::new());
        proof { assert(r matches Ok(items) && items.len() == 0); }
        return r;
    }
    let filter = match parse_json(text.as_str()) {
        Ok(v) => v,
        Err(message) => {
            let mut full = "Invalid parameter name: Invalid filter_query JSON: ".to_string();
            push_str(&mut full, message.as_str());
            proof {
                let prefix = "Invalid parameter name: Invalid filter_query JSON: "@;
                assert(full@.take(prefix.len() as int) =~= prefix);
            }
            return Err(AppError::Internal(full));
        }
    };
    let (conditions, match_mode) = read_filter(&filter)?;
    let ghost cs = conditions@;
    let r = smart_collection_items(conn, &conditions, &match_mode, limit, offset);
    proof {
        assert(conditions_of_items(filter_items(filter)->0, cs));
    }
    r
}

/// The head of a smart collection's query, up to its filter.
pub const SMART_SELECT_SQL: &'static str = "SELECT p.id, p.title, p.description, p.is_favorite, p.copy_count, p.last_copied_at,
                COALESCE(SUBSTR(v.content, 1, 100), '') AS snippet,
                (SELECT COUNT(*) FROM variants WHERE prompt_id = p.id AND deleted_at IS NULL) AS variant_count
         FROM prompts p
         LEFT JOIN variants v ON v.id = p.primary_variant_id AND v.deleted_at IS NULL
         WHERE p.deleted_at IS NULL AND (";

/// The tail of a smart collection's query, after its filter.
pub const SMART_ORDER_SQL: &'static str = ")
         ORDER BY p.updated_at DESC
         LIMIT ?1 OFFSET ?2";

/// A filter matches any of its conditions exactly when its match mode is "any".
pub open spec fn match_any_of(mode: Option<Seq<char>>) -> bool {
    mode == Some("any"@)
}

/// The word that joins a filter's clauses.
pub open spec fn joiner_of(match_any: bool) -> Seq<char> {
    if match_any { " OR "@ } else { " AND "@ }
}

/// The query a smart collection with these clauses runs.
pub open spec fn smart_sql(clauses: Seq<FilterClause>, match_any: bool) -> Seq<char> {
    SMART_SELECT_SQL@ + where_sql(clauses, joiner_of(match_any)) + SMART_ORDER_SQL@
}

/// The parameters of that query: the page, then one per clause.
pub open spec fn smart_params(clauses: Seq<FilterClause>, limit: i64, offset: i64) -> Seq<SqlValue> {
    seq![SqlValue::Integer(limit), SqlValue::Integer(offset)] + clauses.map_values(|c: FilterClause| clause_param(c))
}

/// What a smart page with conditions `cs` and match mode `mode` did from
/// `before` to `after`: without known conditions it found nothing and asked
/// nothing; otherwise it ran one query, its clauses joined by OR when the mode
/// is "any" and by AND otherwise, and listed the rows it answered.
pub open spec fn smart_page(before: Seq<SqlCall>, after: Seq<SqlCall>, cs: Seq<FilterCondition>, mode: Option<Seq<char>>,
    limit: i64, offset: i64, r: AppResult<Vec<PromptListItem>>) -> bool
{
    let n = before.len() as int;
    let clauses = clauses_of(cs);
    &&& clauses.len() == 0 ==> (r matches Ok(items) && items.len() == 0) && after == before
    &&& 0 < clauses.len() < usize::MAX - 2 ==> {
        &&& after.len() > n
        &&& after[n].sql == smart_sql(clauses, match_any_of(mode))
        &&& after[n].params == smart_params(clauses, limit, offset)
        &&& r matches Ok(items) ==> prompt_service::listed(after[n].outcome, items@)
    }
}

/// The page of prompts a smart filter with these conditions and match mode
/// selects. Without known conditions it selects nothing and asks nothing of
/// the database; otherwise it runs one query, its clauses joined by OR when
/// the mode is "any" and by AND otherwise, and lists the rows it answered.
pub fn smart_collection_items(
    conn: &mut Db,
    conditions: &Vec<FilterCondition>,
    match_mode: &Option<String>,
    limit: i64,
    offset: i64,
) -> (r: AppResult<Vec<PromptListItem>>)
    ensures
        sql::extends(old(conn).calls(), final(conn).calls()),
        r is Ok ==> sql::writes_ok(old(conn).calls(), final(conn).calls()),
        sql::all_met(old(conn).calls(), final(conn).calls()) && conditions.len() < usize::MAX - 2 ==> r is Ok,
        clauses_of(conditions@).len() >= usize::MAX - 2 ==> r matches Err(AppError::Internal(_)),
        final(conn).calls() == old(conn).calls() && r is Err
            ==> (r matches Err(AppError::Internal(m)) && m@ == "filter_query has too many conditions"@),
        smart_page(old(conn).calls(), final(conn).calls(), conditions@, opt_view(*match_mode), limit, offset, r),
{
    let clauses = clauses_from_conditions(conditions);
    if clauses.len() == 0 {
        return Ok(Vec::new());
    }
    if clauses.len() >= usize::MAX - 2 {
        return Err(AppError::internal("filter_query has too many conditions"));
    }
    let match_any = match match_mode {
        Some(m) => str_eq(m.as_str(), "any"),
        None => false,
    };
    let (where_clause, condition_params) = build_where(&clauses, match_any);
    let mut sql_text = String::new();
    push_str(&mut sql_text, SMART_SELECT_SQL);
    push_str(&mut sql_text, where_clause.as_str());
    push_str(&mut sql_text, SMART_ORDER_SQL);
    let mut params = sql::params2(SqlValue::Integer(limit), SqlValue::Integer(offset));
    let mut condition_params = condition_params;
    params.append(&mut condition_params);
    proof {
        assert(match_any == match_any_of(opt_view(*match_mode)));
        assert(sql_text@ =~= smart_sql(clauses@, match_any));
        assert(params@ =~= smart_params(clauses@, limit, offset));
    }
    prompt_service::list_query(conn, sql_text.as_str(), &params)
}

// ---------------------------------------------------------------------
// Membership
// ---------------------------------------------------------------------

/// Finds a collection by id.
pub const COLLECTION_EXISTS_SQL: &'static str = "SELECT 1 FROM collections WHERE id = ?1";

/// Reads the last position used in a collection (-1 when it has no member).
pub const LAST_MEMBER_POSITION_SQL: &'static str = "SELECT COALESCE(MAX(position), -1) FROM collection_prompts WHERE collection_id = ?1";

/// Adds a member at a position, unless it is already a member.
pub const ADD_MEMBER_SQL: &'static str = "INSERT OR IGNORE INTO collection_prompts (collection_id, prompt_id, position) VALUES (?1, ?2, ?3)";

/// Removes a member.
pub const REMOVE_MEMBER_SQL: &'static str = "DELETE FROM collection_prompts WHERE collection_id = ?1 AND prompt_id = ?2";

/// Adds an active prompt to a collection after its last member; adding a
/// member again changes nothing (the insert is ignored for an existing
/// member). The collection must exist and the prompt be active (else
/// `NotFound`).
pub fn add_prompt_to_collection(conn: &mut Db, collection_id: &str, prompt_id: &str) -> (r: AppResult<()>)
    ensures
        sql::extends(old(conn).calls(), final(conn).calls()),
        r is Ok ==> sql::writes_ok(old(conn).calls(), final(conn).calls()),
        sql::all_met(old(conn).calls(), final(conn).calls()) ==> r is Ok,
        sql::text_call(final(conn).calls(), old(conn).calls().len() as int, COLLECTION_EXISTS_SQL@, seq![collection_id@]),
        ({
            let o = final(conn).calls()[old(conn).calls().len() as int].outcome;
            o is Rows && sql::first_row(o) is None ==> r == Err::<(), AppError>(AppError::NotFound)
        }),
        r is Ok ==> {
            let n = old(conn).calls().len() as int;
            let calls = final(conn).calls();
            &&& calls.len() == n + 4
            &&& sql::text_call(calls, n + 1, prompt_service::ACTIVE_PROMPT_SQL@, seq![prompt_id@])
            &&& sql::met(calls[n + 1])
            &&& sql::text_call(calls, n + 2, LAST_MEMBER_POSITION_SQL@, seq![collection_id@])
            &&& calls[n + 3].sql == ADD_MEMBER_SQL@
            &&& calls[n + 3].params.len() == 3
            &&& sql::first_row(calls[n + 2].outcome) matches Some(row)
                && (row[0] matches SqlValue::Integer(last) && calls[n + 3].params[2] == SqlValue::Integer((last + 1) as i64))
            &&& sql::text_is(calls[n + 3].params[0], collection_id@)
            &&& sql::text_is(calls[n + 3].params[1], prompt_id@)
            &&& calls[n + 3].outcome is Changed
        },
{
    let ghost n = conn.calls().len() as int;
    sql::query_one(conn, COLLECTION_EXISTS_SQL, &sql::params1(sql::text_param(collection_id)), &[sql::Kind::Int])?;
    let ghost c1 = conn.calls();
    prompt_service::ensure_prompt_exists(conn, prompt_id)?;
    let ghost c2 = conn.calls();
    let row = sql::query_one(
        conn,
        LAST_MEMBER_POSITION_SQL,
        &sql::params1(sql::text_param(collection_id)),
        &[sql::Kind::IntIn(-1, 9223372036854775806)])?;
    let ghost c3 = conn.calls();
    let max_position = sql::col_int(&row, 0)?;
    let position = prompt_service::next_sort_order(max_position)?;
    sql::execute(
        conn,
        ADD_MEMBER_SQL,
        &sql::params3(sql::text_param(collection_id), sql::text_param(prompt_id), SqlValue::Integer(position)),
    )?;
    proof {
        assert(conn.calls()[n] == c1[n]);
        assert(conn.calls()[n + 1] == c2[n + 1]);
        assert(conn.calls()[n + 2] == c3[n + 2]);
    }
    Ok(())
}

/// Removes a prompt from a collection; removing a non-member changes
/// nothing: one delete of that membership.
pub fn remove_prompt_from_collection(conn: &mut Db, collection_id: &str, prompt_id: &str) -> (r: AppResult<()>)
    ensures
        sql::extends(old(conn).calls(), final(conn).calls()),
        r is Ok ==> sql::writes_ok(old(conn).calls(), final(conn).calls()),
        sql::all_met(old(conn).calls(), final(conn).calls()) ==> r is Ok,
        final(conn).calls().len() == old(conn).calls().len() + 1,
        sql::text_call(final(conn).calls(), old(conn).calls().len() as int, REMOVE_MEMBER_SQL@, seq![collection_id@, prompt_id@]),
        r is Ok <==> final(conn).calls().last().outcome is Changed,
{
    sql::execute(
        conn,
        REMOVE_MEMBER_SQL,
        &sql::params2(sql::text_param(collection_id), sql::text_param(prompt_id)),
    )?;
    Ok(())
}

}
