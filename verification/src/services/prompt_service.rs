use vstd::prelude::*;

use crate::db::sql::{Db, SqlCall, SqlOutcome};

use crate::db::sql::{self, SqlValue};
use crate::error::{AppError, AppResult};
use crate::ids::{new_id, now_rfc3339};
use crate::models::patch::PatchField;
use crate::models::prompt::{
    CreatePromptRequest, Prompt, PromptListItem, PromptUsage, PromptWithVariants,
    UpdatePromptRequest, Variant,
};
use crate::models::tag::Tag;
use crate::services::pagination::{or_default, sanitize_pagination, DEFAULT_PAGE_SIZE};
use crate::services::{tag_service, transaction};
use crate::text::{opt_view, push_char, push_str};

verus! {

broadcast use crate::db::sql::group_calls;

// ---------------------------------------------------------------------
// Reading rows
// ---------------------------------------------------------------------

/// A nullable text column holds `o`.
pub open spec fn opt_text_col(v: SqlValue, o: Option<String>) -> bool {
    match o {
        Some(s) => v == SqlValue::Text(s),
        None => v is Null,
    }
}

/// An integer flag column holds `b`.
pub open spec fn flag_col(v: SqlValue, b: bool) -> bool {
    v matches SqlValue::Integer(n) && b == (n != 0)
}

/// `p` is the prompt a `prompts` row describes (id, title, description,
/// primary_variant_id, is_favorite, is_pinned, copy_count, last_copied_at,
/// created_at, updated_at, deleted_at).
pub open spec fn prompt_row(row: Seq<SqlValue>, p: Prompt) -> bool {
    &&& row.len() == 11
    &&& row[0] == SqlValue::Text(p.id)
    &&& row[1] == SqlValue::Text(p.title)
    &&& opt_text_col(row[2], p.description)
    &&& opt_text_col(row[3], p.primary_variant_id)
    &&& flag_col(row[4], p.is_favorite)
    &&& flag_col(row[5], p.is_pinned)
    &&& row[6] == SqlValue::Integer(p.copy_count)
    &&& opt_text_col(row[7], p.last_copied_at)
    &&& opt_text_col(row[8], p.created_at)
    &&& opt_text_col(row[9], p.updated_at)
    &&& opt_text_col(row[10], p.deleted_at)
}

/// `v` is the variant a `variants` row describes (id, prompt_id, label,
/// content, content_type, variables, sort_order, created_at, updated_at,
/// deleted_at).
pub open spec fn variant_row(row: Seq<SqlValue>, v: Variant) -> bool {
    &&& row.len() == 10
    &&& row[0] == SqlValue::Text(v.id)
    &&& row[1] == SqlValue::Text(v.prompt_id)
    &&& row[2] == SqlValue::Text(v.label)
    &&& row[3] == SqlValue::Text(v.content)
    &&& opt_text_col(row[4], v.content_type)
    &&& opt_text_col(row[5], v.variables)
    &&& row[6] == SqlValue::Integer(v.sort_order)
    &&& opt_text_col(row[7], v.created_at)
    &&& opt_text_col(row[8], v.updated_at)
    &&& opt_text_col(row[9], v.deleted_at)
}

/// `item` is the list entry a listing row describes (id, title, description,
/// is_favorite, copy_count, last_copied_at, snippet, variant_count), with
/// the given tags and no highlighted runs.
pub open spec fn list_item_row(row: Seq<SqlValue>, item: PromptListItem, tags: Seq<Tag>) -> bool {
    &&& row.len() == 8
    &&& row[0] == SqlValue::Text(item.id)
    &&& row[1] == SqlValue::Text(item.title)
    &&& opt_text_col(row[2], item.description)
    &&& flag_col(row[3], item.is_favorite)
    &&& row[4] == SqlValue::Integer(item.copy_count)
    &&& opt_text_col(row[5], item.last_copied_at)
    &&& row[6] == SqlValue::Text(item.snippet)
    &&& row[7] == SqlValue::Integer(item.variant_count)
    &&& item.snippet_runs@.len() == 0
    &&& item.tags@ == tags
}

/// The kinds of a prompt row's columns.
pub open spec fn prompt_kinds() -> Seq<sql::Kind> {
    seq![sql::Kind::Text, sql::Kind::Text, sql::Kind::OptText, sql::Kind::OptText, sql::Kind::Int, sql::Kind::Int,
        sql::Kind::Int, sql::Kind::OptText, sql::Kind::OptText, sql::Kind::OptText, sql::Kind::OptText]
}

/// The kinds of a variant row's columns.
pub open spec fn variant_kinds() -> Seq<sql::Kind> {
    seq![sql::Kind::Text, sql::Kind::Text, sql::Kind::Text, sql::Kind::Text, sql::Kind::OptText, sql::Kind::OptText,
        sql::Kind::Int, sql::Kind::OptText, sql::Kind::OptText, sql::Kind::OptText]
}

/// The kinds of a listing row's columns.
pub open spec fn list_kinds() -> Seq<sql::Kind> {
    seq![sql::Kind::Text, sql::Kind::Text, sql::Kind::OptText, sql::Kind::Int, sql::Kind::Int, sql::Kind::OptText,
        sql::Kind::Text, sql::Kind::Int]
}

pub fn prompt_from_row(row: &Vec<SqlValue>) -> (r: AppResult<Prompt>)
    requires
        row.len() == 11,
    ensures
        sql::fits(row@, prompt_kinds()) ==> r is Ok,
        r matches Ok(p) ==> prompt_row(row@, p),
        r matches Err(e) ==> e is Internal,
{
    Ok(Prompt {
        id: sql::col_text(row, 0)?,
        title: sql::col_text(row, 1)?,
        description: sql::col_opt_text(row, 2)?,
        primary_variant_id: sql::col_opt_text(row, 3)?,
        is_favorite: sql::col_bool(row, 4)?,
        is_pinned: sql::col_bool(row, 5)?,
        copy_count: sql::col_int(row, 6)?,
        last_copied_at: sql::col_opt_text(row, 7)?,
        created_at: sql::col_opt_text(row, 8)?,
        updated_at: sql::col_opt_text(row, 9)?,
        deleted_at: sql::col_opt_text(row, 10)?,
    })
}

pub fn variant_from_row(row: &Vec<SqlValue>) -> (r: AppResult<Variant>)
    requires
        row.len() == 10,
    ensures
        sql::fits(row@, variant_kinds()) ==> r is Ok,
        r matches Ok(v) ==> variant_row(row@, v),
        r matches Err(e) ==> e is Internal,
{
    Ok(Variant {
        id: sql::col_text(row, 0)?,
        prompt_id: sql::col_text(row, 1)?,
        label: sql::col_text(row, 2)?,
        content: sql::col_text(row, 3)?,
        content_type: sql::col_opt_text(row, 4)?,
        variables: sql::col_opt_text(row, 5)?,
        sort_order: sql::col_int(row, 6)?,
        created_at: sql::col_opt_text(row, 7)?,
        updated_at: sql::col_opt_text(row, 8)?,
        deleted_at: sql::col_opt_text(row, 9)?,
    })
}

/// Reads a listing row; the tags are supplied by the caller.
pub fn list_item_from_row(row: &Vec<SqlValue>, tags: Vec<Tag>) -> (r: AppResult<PromptListItem>)
    requires
        row.len() == 8,
    ensures
        sql::fits(row@, list_kinds()) ==> r is Ok,
        r matches Ok(item) ==> list_item_row(row@, item, tags@),
        r matches Err(e) ==> e is Internal,
{
    Ok(PromptListItem {
        id: sql::col_text(row, 0)?,
        title: sql::col_text(row, 1)?,
        description: sql::col_opt_text(row, 2)?,
        is_favorite: sql::col_bool(row, 3)?,
        copy_count: sql::col_int(row, 4)?,
        last_copied_at: sql::col_opt_text(row, 5)?,
        snippet: sql::col_text(row, 6)?,
        snippet_runs: Vec::new(),
        variant_count: sql::col_int(row, 7)?,
        tags,
    })
}

/// Reads listing rows, fetching each prompt's tags.
pub fn list_items_from_rows(conn: &mut Db, rows: &Vec<Vec<SqlValue>>) -> (r: AppResult<Vec<PromptListItem>>)
    requires
        forall|i: int| 0 <= i < rows.len() ==> #[trigger] rows[i].len() == 8,
    ensures
        sql::extends(old(conn).calls(), final(conn).calls()),
        r is Ok ==> sql::writes_ok(old(conn).calls(), final(conn).calls()),
        sql::all_met(old(conn).calls(), final(conn).calls()) && sql::rows_fit(sql::rows_view(rows@), list_kinds()) ==> r is Ok,
        r matches Ok(items) ==> items.len() == rows.len()
            && forall|i: int| 0 <= i < rows.len() ==> list_item_row(#[trigger] rows[i]@, items[i], items[i].tags@),
        r matches Ok(items) ==> forall|i: int| 0 <= i < items.len()
            ==> tag_service::tags_read(final(conn).calls(), (#[trigger] items[i]).id@, items[i].tags@),
        rows.len() == 0 ==> r is Ok,
{
    let mut items: Vec<PromptListItem> = Vec::new();
    for i in 0..rows.len()
        invariant
            sql::extends(old(conn).calls(), conn.calls()),
            forall|k: int| 0 <= k < rows.len() ==> #[trigger] rows[k].len() == 8,
            items.len() == i,
            forall|k: int| 0 <= k < i ==> list_item_row(#[trigger] rows[k]@, items[k], items[k].tags@),
            forall|k: int| 0 <= k < i ==> tag_service::tags_read(conn.calls(), (#[trigger] items[k]).id@, items[k].tags@),
            sql::writes_ok(old(conn).calls(), conn.calls()),
    {
        proof { assert(sql::rows_view(rows@)[i as int] == rows@[i as int]@); }
        let id = sql::col_text(&rows[i], 0)?;
        let ghost before = conn.calls();
        let ghost prev = items@;
        let tags = tag_service::get_tags_for_prompt(conn, id.as_str())?;
        proof { assert(tag_service::tags_read_at(conn.calls(), before.len() as int, id@, tags@)); }
        let item = list_item_from_row(&rows[i], tags)?;
        items.push(item);
        proof {
            assert forall|k: int| 0 <= k < items.len()
                implies tag_service::tags_read(conn.calls(), (#[trigger] items@[k]).id@, items@[k].tags@) by {
                if k < i {
                    assert(items@[k] == prev[k]);
                    tag_service::lemma_tags_read_stable(before, conn.calls(), prev[k].id@, prev[k].tags@);
                }
            }
        }
    }
    Ok(items)
}

/// `items` are the list entries the rows of a listing answered, one per
/// row and in the same order.
pub open spec fn listed(o: sql::SqlOutcome, items: Seq<PromptListItem>) -> bool {
    &&& o matches sql::SqlOutcome::Rows(rows)
    &&& items.len() == rows.len()
    &&& forall|i: int| 0 <= i < items.len() ==> list_item_row(rows[i], #[trigger] items[i], items[i].tags@)
}

/// Runs a listing query (eight columns per row) and reads its rows as list
/// entries, each with its tags.
pub fn list_query(conn: &mut Db, sql_text: &str, params: &Vec<SqlValue>) -> (r: AppResult<Vec<PromptListItem>>)
    ensures
        sql::extends(old(conn).calls(), final(conn).calls()),
        r is Ok ==> sql::writes_ok(old(conn).calls(), final(conn).calls()),
        sql::all_met(old(conn).calls(), final(conn).calls()) ==> r is Ok,
        final(conn).calls().len() > old(conn).calls().len(),
        final(conn).calls()[old(conn).calls().len() as int].sql == sql_text@,
        final(conn).calls()[old(conn).calls().len() as int].params == params@,
        r matches Ok(items) ==> listed(final(conn).calls()[old(conn).calls().len() as int].outcome, items@),
        r matches Ok(items) ==> forall|i: int| 0 <= i < items.len()
            ==> tag_service::tags_read(final(conn).calls(), (#[trigger] items[i]).id@, items[i].tags@),
{
    let ghost n = conn.calls().len() as int;
    let rows = sql::query_all(conn, sql_text, params, &[sql::Kind::Text, sql::Kind::Text, sql::Kind::OptText, sql::Kind::Int, sql::Kind::Int, sql::Kind::OptText, sql::Kind::Text, sql::Kind::Int])?;
    let ghost after = conn.calls();
    let items = list_items_from_rows(conn, &rows)?;
    proof {
        assert(conn.calls()[n] == after[n]);
        assert forall|i: int| 0 <= i < items.len() implies list_item_row(sql::rows_view(rows@)[i], #[trigger] items@[i], items@[i].tags@) by {
            assert(sql::rows_view(rows@)[i] == rows@[i]@);
        }
    }
    Ok(items)
}

// ---------------------------------------------------------------------
// Existence checks
// ---------------------------------------------------------------------

/// Finds an active prompt by id.
pub const ACTIVE_PROMPT_SQL: &'static str = "SELECT 1 FROM prompts WHERE id = ?1 AND deleted_at IS NULL";

/// Succeeds when an active (not soft-deleted) prompt has this id: one query,
/// and `NotFound` when it answers no row.
pub fn ensure_prompt_exists(conn: &mut Db, prompt_id: &str) -> (r: AppResult<()>)
    ensures
        sql::extends(old(conn).calls(), final(conn).calls()),
        r is Ok ==> sql::writes_ok(old(conn).calls(), final(conn).calls()),
        sql::all_met(old(conn).calls(), final(conn).calls()) ==> r is Ok,
        final(conn).calls().len() == old(conn).calls().len() + 1,
        sql::text_call(final(conn).calls(), old(conn).calls().len() as int, ACTIVE_PROMPT_SQL@, seq![prompt_id@]),
        r is Ok <==> sql::met(final(conn).calls().last()),
        r is Ok ==> sql::first_row(final(conn).calls().last().outcome) is Some,
        final(conn).calls().last().outcome is Rows && sql::first_row(final(conn).calls().last().outcome) is None
            ==> r == Err::<(), AppError>(AppError::NotFound),
{
    sql::query_one(
        conn,
        ACTIVE_PROMPT_SQL,
        &sql::params1(sql::text_param(prompt_id)),
        &[sql::Kind::Int])?;
    Ok(())
}

/// A missing row means the request named something it may not: an invalid request.
fn missing_row_is_invalid(r: AppResult<Vec<SqlValue>>, message: &str) -> (out: AppResult<Vec<SqlValue>>)
    ensures
        r == Err::<Vec<SqlValue>, AppError>(AppError::NotFound) ==> (out matches Err(AppError::Invalid(m)) && m@ == message@),
        r != Err::<Vec<SqlValue>, AppError>(AppError::NotFound) ==> out == r,
{
    match r {
        Err(AppError::NotFound) => Err(AppError::invalid(message)),
        other => other,
    }
}

/// Finds an active variant of an active prompt.
pub const VARIANT_OF_PROMPT_SQL: &'static str = "SELECT 1
         FROM variants v
         JOIN prompts p ON p.id = v.prompt_id AND p.deleted_at IS NULL
         WHERE v.id = ?1
           AND v.prompt_id = ?2
           AND v.deleted_at IS NULL";

/// Succeeds when the variant is active and belongs to the active prompt:
/// one query; no row is an invalid request.
fn ensure_variant_belongs_to_prompt(conn: &mut Db, prompt_id: &str, variant_id: &str) -> (r: AppResult<()>)
    ensures
        sql::extends(old(conn).calls(), final(conn).calls()),
        r is Ok ==> sql::writes_ok(old(conn).calls(), final(conn).calls()),
        sql::all_met(old(conn).calls(), final(conn).calls()) ==> r is Ok,
        final(conn).calls().len() == old(conn).calls().len() + 1,
        sql::text_call(final(conn).calls(), old(conn).calls().len() as int, VARIANT_OF_PROMPT_SQL@, seq![variant_id@, prompt_id@]),
        r is Ok <==> sql::met(final(conn).calls().last()),
        r is Ok ==> sql::first_row(final(conn).calls().last().outcome) is Some,
        final(conn).calls().last().outcome is Rows && sql::first_row(final(conn).calls().last().outcome) is None
            ==> (r matches Err(AppError::Invalid(m)) && m@ == "Variant must belong to the target prompt"@),
        r matches Err(e) ==> !(e is NotFound),
{
    let found = sql::query_one(
        conn,
        VARIANT_OF_PROMPT_SQL,
        &sql::params2(sql::text_param(variant_id), sql::text_param(prompt_id)),
        &[sql::Kind::Int]);
    missing_row_is_invalid(found, "Variant must belong to the target prompt")?;
    Ok(())
}

/// Reads the active primary variant of an active prompt.
pub const ACTIVE_PRIMARY_SQL: &'static str = "SELECT v.id
         FROM prompts p
         JOIN variants v ON v.id = p.primary_variant_id
         WHERE p.id = ?1
           AND p.deleted_at IS NULL
           AND v.prompt_id = p.id
           AND v.deleted_at IS NULL";

/// The id of the prompt's primary variant, when it is active: one query;
/// no row is an invalid request.
fn get_active_primary_variant_id(conn: &mut Db, prompt_id: &str) -> (r: AppResult<String>)
    ensures
        sql::extends(old(conn).calls(), final(conn).calls()),
        r is Ok ==> sql::writes_ok(old(conn).calls(), final(conn).calls()),
        sql::all_met(old(conn).calls(), final(conn).calls()) ==> r is Ok,
        final(conn).calls().len() == old(conn).calls().len() + 1,
        sql::text_call(final(conn).calls(), old(conn).calls().len() as int, ACTIVE_PRIMARY_SQL@, seq![prompt_id@]),
        r is Ok <==> sql::met(final(conn).calls().last()),
        r matches Ok(v) ==> sql::first_row(final(conn).calls().last().outcome) matches Some(row) && sql::text_is(row[0], v@),
        final(conn).calls().last().outcome is Rows && sql::first_row(final(conn).calls().last().outcome) is None
            ==> (r matches Err(AppError::Invalid(m)) && m@ == "Prompt primary variant is missing or invalid"@),
{
    let found = sql::query_one(
        conn,
        ACTIVE_PRIMARY_SQL,
        &sql::params1(sql::text_param(prompt_id)),
        &[sql::Kind::Text]);
    let row = missing_row_is_invalid(found, "Prompt primary variant is missing or invalid")?;
    sql::col_text(&row, 0)
}

/// The first active variant of a prompt other than the given one, by sort
/// order, creation time and id.
pub const NEXT_VARIANT_SQL: &'static str = "SELECT id
         FROM variants
         WHERE prompt_id = ?1 AND id <> ?2 AND deleted_at IS NULL
         ORDER BY sort_order, created_at, id
         LIMIT 1";

/// The first active variant of a prompt other than the excluded one.
fn next_active_variant_id(conn: &mut Db, prompt_id: &str, excluding_variant_id: &str) -> (r: AppResult<Option<String>>)
    ensures
        sql::extends(old(conn).calls(), final(conn).calls()),
        r is Ok ==> sql::writes_ok(old(conn).calls(), final(conn).calls()),
        sql::all_met(old(conn).calls(), final(conn).calls()) ==> r is Ok,
        final(conn).calls().len() == old(conn).calls().len() + 1,
        sql::text_call(final(conn).calls(), old(conn).calls().len() as int, NEXT_VARIANT_SQL@, seq![prompt_id@, excluding_variant_id@]),
        r matches Ok(None) ==> sql::first_row(final(conn).calls().last().outcome) is None,
        r matches Ok(Some(v)) ==> sql::first_row(final(conn).calls().last().outcome) matches Some(row) && sql::text_is(row[0], v@),
        final(conn).calls().last().outcome is Rows && sql::first_row(final(conn).calls().last().outcome) is None ==> r matches Ok(None),
{
    match sql::query_opt(
        conn,
        NEXT_VARIANT_SQL,
        &sql::params2(sql::text_param(prompt_id), sql::text_param(excluding_variant_id)),
        &[sql::Kind::Text])? {
        Some(row) => Ok(Some(sql::col_text(&row, 0)?)),
        None => Ok(None),
    }
}

// ---------------------------------------------------------------------
// Creating
// ---------------------------------------------------------------------

/// The label a new prompt's first variant gets.
pub open spec fn first_variant_label(request: CreatePromptRequest) -> Seq<char> {
    match request.variant_label {
        Some(l) => l@,
        None => "Default"@,
    }
}

/// `created` is what creating a prompt from `request` returns: the prompt as
/// asked, not pinned, never copied, not deleted, with one static variant
/// holding the content that is its primary variant, and one tag per name.
pub open spec fn created_as_requested(request: CreatePromptRequest, created: PromptWithVariants) -> bool {
    let p = created.prompt;
    &&& p.title == request.title
    &&& p.description == request.description
    &&& p.is_favorite == request.is_favorite
    &&& !p.is_pinned
    &&& p.copy_count == 0
    &&& p.last_copied_at is None
    &&& p.deleted_at is None
    &&& p.created_at is Some
    &&& p.created_at == p.updated_at
    &&& created.variants.len() == 1
    &&& p.primary_variant_id == Some(created.variants[0].id)
    &&& created.variants[0].prompt_id == p.id
    &&& created.variants[0].label@ == first_variant_label(request)
    &&& created.variants[0].content == request.content
    &&& created.variants[0].content_type matches Some(t) && t@ == "static"@
    &&& created.variants[0].variables is None
    &&& created.variants[0].sort_order == 0
    &&& created.variants[0].deleted_at is None
    &&& created.variants[0].created_at == p.created_at
    &&& created.tags.len() == request.tags.len()
}

/// Inserts a prompt row, not yet with a primary variant.
pub const INSERT_PROMPT_SQL: &'static str = "INSERT INTO prompts
            (id, title, description, primary_variant_id, is_favorite, is_pinned,
             copy_count, created_at, updated_at)
         VALUES (?1, ?2, ?3, NULL, ?4, 0, 0, ?5, ?5)";

/// Inserts a static variant at sort order 0.
pub const INSERT_FIRST_VARIANT_SQL: &'static str = "INSERT INTO variants
            (id, prompt_id, label, content, content_type, sort_order, created_at, updated_at)
         VALUES (?1, ?2, ?3, ?4, 'static', 0, ?5, ?5)";

/// Makes a variant the primary one of an active prompt.
pub const SET_PRIMARY_SQL: &'static str = "UPDATE prompts SET primary_variant_id = ?1
         WHERE id = ?2 AND deleted_at IS NULL";

/// The writes that create a prompt, from position `n` of `calls`: the
/// prompt row with the requested title, description and favourite flag; and,
/// once it is created as `created`, its first variant and the link to it.
pub open spec fn creation_writes(calls: Seq<SqlCall>, n: int, request: CreatePromptRequest, created: Option<PromptWithVariants>) -> bool {
    &&& calls.len() > n
    &&& calls[n].sql == INSERT_PROMPT_SQL@
    &&& calls[n].params.len() == 5
    &&& sql::text_is(calls[n].params[1], request.title@)
    &&& sql::opt_text_is(calls[n].params[2], opt_view(request.description))
    &&& calls[n].params[3] == SqlValue::Integer(if request.is_favorite { 1 } else { 0 })
    &&& created matches Some(c) ==> {
        let p = c.prompt;
        let v = c.variants[0];
        &&& calls.len() > n + 2
        &&& sql::text_is(calls[n].params[0], p.id@)
        &&& p.created_at matches Some(now) && sql::text_is(calls[n].params[4], now@)
        &&& calls[n].outcome is Changed
        &&& sql::text_call(calls, n + 1, INSERT_FIRST_VARIANT_SQL@, seq![v.id@, p.id@, v.label@, v.content@, v.created_at->0@])
        &&& calls[n + 1].outcome is Changed
        &&& sql::text_call(calls, n + 2, SET_PRIMARY_SQL@, seq![v.id@, p.id@])
        &&& calls[n + 2].outcome == SqlOutcome::Changed(1)
    }
}

/// Creates a prompt with its first variant and tags, in one transaction:
/// its row is the first write after the transaction opens; when it succeeds,
/// its variant, the link to it and its search entry were written before the
/// commit; when any write fails, the transaction is rolled back.
pub fn create_prompt(conn: &mut Db, request: CreatePromptRequest) -> (r: AppResult<PromptWithVariants>)
    ensures
        transaction::in_transaction(old(conn).calls(), final(conn).calls(), r is Ok),
        final(conn).calls().len() > old(conn).calls().len() + 1 ==> creation_writes(final(conn).calls(), old(conn).calls().len() + 1int,
            request, match r { Ok(c) => Some(c), Err(_) => None }),
        r matches Ok(c) ==> refreshed(old(conn).calls(), final(conn).calls().drop_last(), c.prompt.id@),
        sql::extends(old(conn).calls(), final(conn).calls()),
        r is Ok ==> sql::writes_ok(old(conn).calls(), final(conn).calls()),
        sql::all_met(old(conn).calls(), final(conn).calls()) ==> r is Ok,
        r matches Ok(created) ==> created_as_requested(request, created),
        r matches Ok(c) ==> exists|qs: Seq<int>| #[trigger] tag_service::tags_linked(final(conn).calls(), old(conn).calls().len() + 1int,
            c.prompt.id@, crate::text::strings_view(request.tags@), qs),
{
    let ghost s0 = conn.calls();
    if let Err(e) = transaction::begin(conn) {
        proof { transaction::lemma_transaction_shape(s0, conn.calls(), conn.calls(), conn.calls(), false, false); }
        return Err(e);
    }
    let ghost s1 = conn.calls();
    let ghost req = request;
    let result = create_prompt_tx(conn, request);
    let ghost s2 = conn.calls();
    let r = transaction::finish(conn, result);
    proof {
        transaction::lemma_transaction_shape(s0, s1, s2, conn.calls(), true, r is Ok);
        let n = s1.len() as int;
        assert(creation_writes(s2, n, req, match result { Ok(c) => Some(c), Err(_) => None }));
        assert(conn.calls()[n] == s2[n]);
        if r is Ok {
            assert(conn.calls().drop_last() =~= s2);
            assert(conn.calls()[n + 1] == s2[n + 1]);
            assert(conn.calls()[n + 2] == s2[n + 2]);
            let c = r->Ok_0;
            let mid = choose|mid: Seq<SqlCall>| sql::extends(s1, mid) && indexed(mid, s2, c.prompt.id@);
            assert(sql::extends(s0, mid) && indexed(mid, s2, c.prompt.id@));
            let names = crate::text::strings_view(req.tags@);
            let qs = choose|qs: Seq<int>| #[trigger] tag_service::tags_linked(s2, s1.len() as int, c.prompt.id@, names, qs);
            tag_service::lemma_tags_linked_stable(s2, conn.calls(), s1.len() as int, c.prompt.id@, names, qs);
        }
    }
    r
}

/// Creates a prompt inside the caller's transaction: its row first, then
/// (when that succeeded) its first variant, the link to it, its tags and its
/// search entry.
pub fn create_prompt_tx(conn: &mut Db, request: CreatePromptRequest) -> (r: AppResult<PromptWithVariants>)
    ensures
        sql::extends(old(conn).calls(), final(conn).calls()),
        r is Ok ==> sql::writes_ok(old(conn).calls(), final(conn).calls()),
        sql::all_met(old(conn).calls(), final(conn).calls()) ==> r is Ok,
        r matches Ok(created) ==> created_as_requested(request, created),
        creation_writes(final(conn).calls(), old(conn).calls().len() as int, request,
            match r { Ok(c) => Some(c), Err(_) => None }),
        r matches Ok(created) ==> refreshed(old(conn).calls(), final(conn).calls(), created.prompt.id@),
        r matches Ok(created) ==> exists|qs: Seq<int>| #[trigger] tag_service::tags_linked(final(conn).calls(), old(conn).calls().len() as int,
            created.prompt.id@, crate::text::strings_view(request.tags@), qs),
{
    let ghost req = request;
    let ghost n = conn.calls().len() as int;
    let CreatePromptRequest { title, description, content, variant_label, tags: tag_names, is_favorite } = request;

    let prompt_id = new_id();
    let variant_id = new_id();
    let now = now_rfc3339();
    let variant_label = match variant_label {
        Some(l) => l,
        None => "Default".to_string(),
    };

    sql::execute(
        conn,
        INSERT_PROMPT_SQL,
        &sql::params5(
            sql::text_param(prompt_id.as_str()),
            sql::text_param(title.as_str()),
            sql::opt_string_param(&description),
            sql::bool_param(is_favorite),
            sql::text_param(now.as_str()),
        ),
    )?;

    let ghost c1 = conn.calls();
    sql::execute(
        conn,
        INSERT_FIRST_VARIANT_SQL,
        &sql::params5(
            sql::text_param(variant_id.as_str()),
            sql::text_param(prompt_id.as_str()),
            sql::text_param(variant_label.as_str()),
            sql::text_param(content.as_str()),
            sql::text_param(now.as_str()),
        ),
    )?;

    let ghost c2 = conn.calls();
    sql::execute_one(
        conn,
        SET_PRIMARY_SQL,
        &sql::params2(sql::text_param(variant_id.as_str()), sql::text_param(prompt_id.as_str())),
    )?;
    let ghost c3 = conn.calls();

    let tags = tag_service::add_tags_to_prompt_tx(conn, prompt_id.as_str(), tag_names.as_slice())?;
    let ghost c4 = conn.calls();
    update_fts_index_tx(conn, prompt_id.as_str())?;
    proof {
        let names = crate::text::strings_view(tag_names@);
        let qs = choose|qs: Seq<int>| #[trigger] tag_service::tags_linked(c4, c3.len() as int, prompt_id@, names, qs);
        tag_service::lemma_tags_linked_stable(c4, conn.calls(), c3.len() as int, prompt_id@, names, qs);
        assert(tag_service::tags_linked(conn.calls(), n, prompt_id@, names, qs));
    }
    proof {
        assert(conn.calls()[n] == c1[n]);
        assert(conn.calls()[n + 1] == c2[n + 1]);
        assert(conn.calls()[n + 2] == c3[n + 2]);
        assert(indexed(c4, conn.calls(), prompt_id@));
        assert(sql::extends(old(conn).calls(), c4));
    }

    let mut variants = Vec::new();
    variants.push(Variant {
        id: variant_id.clone(),
        prompt_id: prompt_id.clone(),
        label: variant_label,
        content,
        content_type: Some("static".to_string()),
        variables: None,
        sort_order: 0,
        created_at: Some(now.clone()),
        updated_at: Some(now.clone()),
        deleted_at: None,
    });
    Ok(PromptWithVariants {
        prompt: Prompt {
            id: prompt_id,
            title,
            description,
            primary_variant_id: Some(variant_id),
            is_favorite,
            is_pinned: false,
            copy_count: 0,
            last_copied_at: None,
            created_at: Some(now.clone()),
            updated_at: Some(now),
            deleted_at: None,
        },
        variants,
        tags,
    })
}

// ---------------------------------------------------------------------
// Reading
// ---------------------------------------------------------------------

/// Reads an active prompt.
pub const PROMPT_SQL: &'static str = "SELECT id, title, description, primary_variant_id, is_favorite, is_pinned,
                copy_count, last_copied_at, created_at, updated_at, deleted_at
         FROM prompts
         WHERE id = ?1 AND deleted_at IS NULL";

/// Reads a prompt's active variants by sort order.
pub const PROMPT_VARIANTS_SQL: &'static str = "SELECT id, prompt_id, label, content, content_type, variables, sort_order,
                created_at, updated_at, deleted_at
         FROM variants
         WHERE prompt_id = ?1 AND deleted_at IS NULL
         ORDER BY sort_order";

/// What the three reads of prompt `id` from position `i` answered, read
/// into `p`: its row, its active variants in order, and its tags.
pub open spec fn prompt_read_at(calls: Seq<SqlCall>, i: int, id: Seq<char>, p: PromptWithVariants) -> bool {
    &&& i + 2 < calls.len()
    &&& sql::text_call(calls, i, PROMPT_SQL@, seq![id])
    &&& sql::first_row(calls[i].outcome) matches Some(row) && prompt_row(row, p.prompt)
    &&& sql::text_call(calls, i + 1, PROMPT_VARIANTS_SQL@, seq![id])
    &&& calls[i + 1].outcome matches SqlOutcome::Rows(rows) && p.variants.len() == rows.len()
        && forall|k: int| 0 <= k < rows.len() ==> variant_row(rows[k], #[trigger] p.variants@[k])
    &&& sql::text_call(calls, i + 2, tag_service::PROMPT_TAGS_SQL@, seq![id])
    &&& tag_service::tags_answered(calls[i + 2].outcome, p.tags@)
}

/// The read of prompt `id` at position `i` answered no row: there is no
/// such active prompt.
pub open spec fn prompt_missing_at(calls: Seq<SqlCall>, i: int, id: Seq<char>) -> bool {
    &&& sql::text_call(calls, i, PROMPT_SQL@, seq![id])
    &&& calls[i].outcome is Rows
    &&& sql::first_row(calls[i].outcome) is None
}

/// Later statements leave what earlier reads of a prompt answered unchanged.
pub proof fn lemma_prompt_read_stable(a: Seq<SqlCall>, b: Seq<SqlCall>, i: int, id: Seq<char>, p: PromptWithVariants)
    requires
        sql::extends(a, b),
        prompt_read_at(a, i, id, p),
    ensures
        prompt_read_at(b, i, id, p),
{
    assert(b[i] == a[i]);
    assert(b[i + 1] == a[i + 1]);
    assert(b[i + 2] == a[i + 2]);
}

/// Later statements leave a read that found no prompt unchanged.
pub proof fn lemma_prompt_missing_stable(a: Seq<SqlCall>, b: Seq<SqlCall>, i: int, id: Seq<char>)
    requires
        sql::extends(a, b),
        prompt_missing_at(a, i, id),
    ensures
        prompt_missing_at(b, i, id),
{
    assert(b[i] == a[i]);
}

/// An active prompt with its active variants (by sort order) and its tags:
/// three reads, the prompt (no row is `NotFound`), its variants and its
/// tags, and the result is what they answered.
pub fn get_prompt_by_id(conn: &mut Db, id: &str) -> (r: AppResult<PromptWithVariants>)
    ensures
        sql::extends(old(conn).calls(), final(conn).calls()),
        r is Ok ==> sql::writes_ok(old(conn).calls(), final(conn).calls()),
        sql::all_met(old(conn).calls(), final(conn).calls()) ==> r is Ok,
        sql::text_call(final(conn).calls(), old(conn).calls().len() as int, PROMPT_SQL@, seq![id@]),
        ({
            let o = final(conn).calls()[old(conn).calls().len() as int].outcome;
            o is Rows && sql::first_row(o) is None ==> r == Err::<PromptWithVariants, AppError>(AppError::NotFound)
        }),
        r == Err::<PromptWithVariants, AppError>(AppError::NotFound)
            ==> prompt_missing_at(final(conn).calls(), old(conn).calls().len() as int, id@)
                && final(conn).calls().len() == old(conn).calls().len() + 1,
        r matches Ok(p) ==> final(conn).calls().len() == old(conn).calls().len() + 3
            && prompt_read_at(final(conn).calls(), old(conn).calls().len() as int, id@, p),
{
    let ghost n = conn.calls().len() as int;
    let row = sql::query_one(
        conn,
        PROMPT_SQL,
        &sql::params1(sql::text_param(id)),
        &[sql::Kind::Text, sql::Kind::Text, sql::Kind::OptText, sql::Kind::OptText, sql::Kind::Int, sql::Kind::Int, sql::Kind::Int, sql::Kind::OptText, sql::Kind::OptText, sql::Kind::OptText, sql::Kind::OptText])?;
    let ghost c1 = conn.calls();
    let prompt = prompt_from_row(&row)?;

    let rows = sql::query_all(
        conn,
        PROMPT_VARIANTS_SQL,
        &sql::params1(sql::text_param(id)),
        &[sql::Kind::Text, sql::Kind::Text, sql::Kind::Text, sql::Kind::Text, sql::Kind::OptText, sql::Kind::OptText, sql::Kind::Int, sql::Kind::OptText, sql::Kind::OptText, sql::Kind::OptText])?;
    let ghost c2 = conn.calls();
    let ghost answered = sql::rows_view(rows@);
    proof { assert(c2[n] == c1[n]); }
    let mut variants: Vec<Variant> = Vec::new();
    for i in 0..rows.len()
        invariant
            sql::extends(old(conn).calls(), conn.calls()),
            forall|k: int| 0 <= k < rows.len() ==> #[trigger] rows[k].len() == 10,
            answered == sql::rows_view(rows@),
            conn.calls() == c2,
            n == old(conn).calls().len(),
            sql::text_call(c2, n, PROMPT_SQL@, seq![id@]),
            sql::first_row(c2[n].outcome) is Some,
            variants.len() == i,
            forall|k: int| 0 <= k < i ==> variant_row(answered[k], #[trigger] variants@[k]),
            sql::rows_fit(answered, variant_kinds()),
    {
        proof { assert(answered[i as int] == rows@[i as int]@); }
        variants.push(variant_from_row(&rows[i])?);
    }

    let tags = tag_service::get_tags_for_prompt(conn, id)?;
    proof {
        assert(conn.calls()[n] == c1[n]);
        assert(conn.calls()[n + 1] == c2[n + 1]);
    }
    Ok(PromptWithVariants { prompt, variants, tags })
}

/// A page of active prompts with an optional limit and offset, checked and
/// capped as every page request is.
pub fn list_prompts_page(conn: &mut Db, limit: Option<i64>, offset: Option<i64>) -> (r: AppResult<Vec<PromptListItem>>)
    ensures
        sql::extends(old(conn).calls(), final(conn).calls()),
        r is Ok ==> sql::writes_ok(old(conn).calls(), final(conn).calls()),
        sql::all_met(old(conn).calls(), final(conn).calls()) && or_default(limit, DEFAULT_PAGE_SIZE) >= 1
            && or_default(offset, 0) >= 0 ==> r is Ok,
        or_default(limit, DEFAULT_PAGE_SIZE) < 1 ==> (r matches Err(AppError::Invalid(m)) && m@ == "limit must be at least 1"@),
        or_default(limit, DEFAULT_PAGE_SIZE) >= 1 && or_default(offset, 0) < 0
            ==> (r matches Err(AppError::Invalid(m)) && m@ == "offset must be at least 0"@),
        or_default(limit, DEFAULT_PAGE_SIZE) >= 1 && or_default(offset, 0) >= 0 ==> {
            let n = old(conn).calls().len() as int;
            &&& final(conn).calls().len() > n
            &&& final(conn).calls()[n].sql == LIST_PROMPTS_SQL@
            &&& final(conn).calls()[n].params == seq![
                SqlValue::Integer(crate::services::pagination::min_i64(or_default(limit, DEFAULT_PAGE_SIZE), crate::services::pagination::MAX_PAGE_SIZE)),
                SqlValue::Integer(or_default(offset, 0))]
            &&& r matches Ok(items) ==> listed(final(conn).calls()[n].outcome, items@)
        },
{
    let (limit, offset) = sanitize_pagination(limit, offset)?;
    list_prompts(conn, limit, offset)
}

/// A page of active prompts, most recently updated first.
pub const LIST_PROMPTS_SQL: &'static str = "SELECT p.id, p.title, p.description, p.is_favorite, p.copy_count,
                p.last_copied_at, COALESCE(SUBSTR(v.content, 1, 100), ''),
                (SELECT COUNT(*) FROM variants
                 WHERE prompt_id = p.id AND deleted_at IS NULL)
         FROM prompts p
         LEFT JOIN variants v ON v.id = p.primary_variant_id AND v.deleted_at IS NULL
         WHERE p.deleted_at IS NULL
         ORDER BY p.updated_at DESC
         LIMIT ?1 OFFSET ?2";

/// One page of active prompts, most recently updated first: one listing
/// query for the limit and offset, one entry per row it answered.
pub fn list_prompts(conn: &mut Db, limit: i64, offset: i64) -> (r: AppResult<Vec<PromptListItem>>)
    ensures
        sql::extends(old(conn).calls(), final(conn).calls()),
        r is Ok ==> sql::writes_ok(old(conn).calls(), final(conn).calls()),
        sql::all_met(old(conn).calls(), final(conn).calls()) ==> r is Ok,
        final(conn).calls().len() > old(conn).calls().len(),
        final(conn).calls()[old(conn).calls().len() as int].sql == LIST_PROMPTS_SQL@,
        final(conn).calls()[old(conn).calls().len() as int].params == seq![SqlValue::Integer(limit), SqlValue::Integer(offset)],
        r matches Ok(items) ==> listed(final(conn).calls()[old(conn).calls().len() as int].outcome, items@),
{
    list_query(conn, LIST_PROMPTS_SQL, &sql::params2(SqlValue::Integer(limit), SqlValue::Integer(offset)))
}

// ---------------------------------------------------------------------
// Updating
// ---------------------------------------------------------------------

/// One column write of a prompt update.
#[derive(Debug, Clone, PartialEq, Eq)]
pub enum PromptChange {
    Title(String),
    ClearDescription,
    Description(String),
    Favorite(bool),
    Pinned(bool),
    PrimaryVariant(String),
    TouchOnly,
}

/// The writes an update request makes, in order: each field it names, or a
/// bare timestamp refresh when it names none.
pub open spec fn planned_changes(r: UpdatePromptRequest) -> Seq<PromptChange> {
    let title = match r.title { Some(t) => seq![PromptChange::Title(t)], None => Seq::empty() };
    let description = match r.description {
        PatchField::Keep => Seq::empty(),
        PatchField::Clear => seq![PromptChange::ClearDescription],
        PatchField::Replace(d) => seq![PromptChange::Description(d)],
    };
    let favorite = match r.is_favorite { Some(b) => seq![PromptChange::Favorite(b)], None => Seq::empty() };
    let pinned = match r.is_pinned { Some(b) => seq![PromptChange::Pinned(b)], None => Seq::empty() };
    let primary = match r.primary_variant_id { Some(v) => seq![PromptChange::PrimaryVariant(v)], None => Seq::empty() };
    let all = title + description + favorite + pinned + primary;
    if all.len() == 0 { seq![PromptChange::TouchOnly] } else { all }
}

/// Whether an update changes what the search index holds for the prompt.
pub open spec fn update_needs_reindex(r: UpdatePromptRequest) -> bool {
    r.title is Some || !(r.description is Keep) || r.primary_variant_id is Some
}

/// The writes an update request makes, and whether the search entry must be rebuilt.
pub fn plan_prompt_update(request: &UpdatePromptRequest) -> (r: (Vec<PromptChange>, bool))
    ensures
        r.0@ == planned_changes(*request),
        r.1 == update_needs_reindex(*request),
{
    let mut changes: Vec<PromptChange> = Vec::new();
    if let Some(title) = &request.title {
        changes.push(PromptChange::Title(title.clone()));
    }
    match &request.description {
        PatchField::Keep => {}
        PatchField::Clear => changes.push(PromptChange::ClearDescription),
        PatchField::Replace(d) => changes.push(PromptChange::Description(d.clone())),
    }
    if let Some(b) = request.is_favorite {
        changes.push(PromptChange::Favorite(b));
    }
    if let Some(b) = request.is_pinned {
        changes.push(PromptChange::Pinned(b));
    }
    if let Some(v) = &request.primary_variant_id {
        changes.push(PromptChange::PrimaryVariant(v.clone()));
    }
    if changes.len() == 0 {
        changes.push(PromptChange::TouchOnly);
    }
    proof {
        assert(changes@ =~= planned_changes(*request));
    }
    let reindex = request.title.is_some() || !request.description.is_keep() || request.primary_variant_id.is_some();
    (changes, reindex)
}

pub const SET_TITLE_SQL: &'static str = "UPDATE prompts SET title = ?1, updated_at = ?2 WHERE id = ?3 AND deleted_at IS NULL";
pub const CLEAR_DESCRIPTION_SQL: &'static str = "UPDATE prompts SET description = NULL, updated_at = ?1 WHERE id = ?2 AND deleted_at IS NULL";
pub const SET_DESCRIPTION_SQL: &'static str = "UPDATE prompts SET description = ?1, updated_at = ?2 WHERE id = ?3 AND deleted_at IS NULL";
pub const SET_FAVORITE_SQL: &'static str = "UPDATE prompts SET is_favorite = ?1, updated_at = ?2 WHERE id = ?3 AND deleted_at IS NULL";
pub const SET_PINNED_SQL: &'static str = "UPDATE prompts SET is_pinned = ?1, updated_at = ?2 WHERE id = ?3 AND deleted_at IS NULL";
pub const SET_PRIMARY_VARIANT_SQL: &'static str = "UPDATE prompts SET primary_variant_id = ?1, updated_at = ?2 WHERE id = ?3 AND deleted_at IS NULL";
pub const TOUCH_PROMPT_SQL: &'static str = "UPDATE prompts SET updated_at = ?1 WHERE id = ?2 AND deleted_at IS NULL";

/// `call` is the write of one planned change to the active prompt `id`: the
/// statement for that column with the new value, a timestamp, and the id;
/// it changed exactly one row.
pub open spec fn writes_change(call: SqlCall, change: PromptChange, id: Seq<char>) -> bool {
    let p = call.params;
    &&& call.outcome == SqlOutcome::Changed(1)
    &&& match change {
        PromptChange::Title(t) => call.sql == SET_TITLE_SQL@ && p.len() == 3 && sql::text_is(p[0], t@),
        PromptChange::ClearDescription => call.sql == CLEAR_DESCRIPTION_SQL@ && p.len() == 2,
        PromptChange::Description(d) => call.sql == SET_DESCRIPTION_SQL@ && p.len() == 3 && sql::text_is(p[0], d@),
        PromptChange::Favorite(b) => call.sql == SET_FAVORITE_SQL@ && p.len() == 3 && p[0] == SqlValue::Integer(if b { 1 } else { 0 }),
        PromptChange::Pinned(b) => call.sql == SET_PINNED_SQL@ && p.len() == 3 && p[0] == SqlValue::Integer(if b { 1 } else { 0 }),
        PromptChange::PrimaryVariant(v) => call.sql == SET_PRIMARY_VARIANT_SQL@ && p.len() == 3 && sql::text_is(p[0], v@),
        PromptChange::TouchOnly => call.sql == TOUCH_PROMPT_SQL@ && p.len() == 2,
    }
    &&& p[p.len() - 2] is Text
    &&& sql::text_is(p.last(), id)
}

/// Performs one planned write; a primary variant must belong to the prompt.
fn apply_prompt_change(conn: &mut Db, id: &str, change: &PromptChange, now: &str) -> (r: AppResult<()>)
    ensures
        sql::extends(old(conn).calls(), final(conn).calls()),
        r is Ok ==> sql::writes_ok(old(conn).calls(), final(conn).calls()),
        sql::all_met(old(conn).calls(), final(conn).calls()) ==> r is Ok,
        r is Ok ==> final(conn).calls().len() > old(conn).calls().len()
            && writes_change(final(conn).calls().last(), *change, id@),
{
    let id_param = sql::text_param(id);
    let now_param = sql::text_param(now);
    match change {
        PromptChange::Title(title) => sql::execute_one(
            conn,
            SET_TITLE_SQL,
            &sql::params3(sql::text_param(title.as_str()), now_param, id_param),
        ),
        PromptChange::ClearDescription => sql::execute_one(
            conn,
            CLEAR_DESCRIPTION_SQL,
            &sql::params2(now_param, id_param),
        ),
        PromptChange::Description(d) => sql::execute_one(
            conn,
            SET_DESCRIPTION_SQL,
            &sql::params3(sql::text_param(d.as_str()), now_param, id_param),
        ),
        PromptChange::Favorite(b) => sql::execute_one(
            conn,
            SET_FAVORITE_SQL,
            &sql::params3(sql::bool_param(*b), now_param, id_param),
        ),
        PromptChange::Pinned(b) => sql::execute_one(
            conn,
            SET_PINNED_SQL,
            &sql::params3(sql::bool_param(*b), now_param, id_param),
        ),
        PromptChange::PrimaryVariant(v) => {
            ensure_variant_belongs_to_prompt(conn, id, v.as_str())?;
            sql::execute_one(
                conn,
                SET_PRIMARY_VARIANT_SQL,
                &sql::params3(sql::text_param(v.as_str()), now_param, id_param),
            )
        }
        PromptChange::TouchOnly => sql::execute_one(
            conn,
            TOUCH_PROMPT_SQL,
            &sql::params2(now_param, id_param),
        ),
    }
}

/// The changes were written in order, one statement each, between `before`
/// and `after`, at the positions `pos`.
pub open spec fn written_at(before: Seq<SqlCall>, after: Seq<SqlCall>, changes: Seq<PromptChange>, id: Seq<char>, pos: Seq<int>) -> bool {
    &&& pos.len() == changes.len()
    &&& forall|k: int| 0 <= k < pos.len() ==> before.len() <= #[trigger] pos[k] < after.len()
    &&& forall|k: int| 0 <= k < pos.len() ==> writes_change(after[#[trigger] pos[k]], changes[k], id)
    &&& forall|k1: int, k2: int| 0 <= k1 < k2 < pos.len() ==> #[trigger] pos[k1] < #[trigger] pos[k2]
}

/// Every change of the list was written, in order, between `before` and `after`.
pub open spec fn written(before: Seq<SqlCall>, after: Seq<SqlCall>, changes: Seq<PromptChange>, id: Seq<char>) -> bool {
    exists|pos: Seq<int>| #[trigger] written_at(before, after, changes, id, pos)
}

/// Applies a partial update to an active prompt, in one transaction. When
/// it succeeds, every planned write was made in order and, when the update
/// touched indexed text, the prompt's search entry was rebuilt from its
/// current text before the commit: the index never keeps the old text.
pub fn update_prompt(conn: &mut Db, id: &str, request: UpdatePromptRequest) -> (r: AppResult<()>)
    ensures
        transaction::in_transaction(old(conn).calls(), final(conn).calls(), r is Ok),
        sql::extends(old(conn).calls(), final(conn).calls()),
        r is Ok ==> sql::writes_ok(old(conn).calls(), final(conn).calls()),
        sql::all_met(old(conn).calls(), final(conn).calls()) ==> r is Ok,
        r is Ok ==> written(old(conn).calls(), final(conn).calls().drop_last(), planned_changes(request), id@),
        r is Ok && update_needs_reindex(request) ==> refreshed(old(conn).calls(), final(conn).calls().drop_last(), id@),
{
    let ghost s0 = conn.calls();
    let ghost req = request;
    if let Err(e) = transaction::begin(conn) {
        proof { transaction::lemma_transaction_shape(s0, conn.calls(), conn.calls(), conn.calls(), false, false); }
        return Err(e);
    }
    let ghost s1 = conn.calls();
    let result = update_prompt_tx(conn, id, request);
    let ghost s2 = conn.calls();
    let r = transaction::finish(conn, result);
    proof {
        transaction::lemma_transaction_shape(s0, s1, s2, conn.calls(), true, r is Ok);
        if r is Ok {
            assert(conn.calls().drop_last() =~= s2);
            let pos = choose|pos: Seq<int>| written_at(s1, s2, planned_changes(req), id@, pos);
            assert(written_at(s0, s2, planned_changes(req), id@, pos));
            if update_needs_reindex(req) {
                let mid = choose|mid: Seq<SqlCall>| sql::extends(s1, mid) && indexed(mid, s2, id@);
                assert(sql::extends(s0, mid) && indexed(mid, s2, id@));
            }
        }
    }
    r
}

/// Applies a partial update inside the caller's transaction: after checking
/// the prompt is active, every planned write in order, then a search-index
/// refresh when the indexed text changed.
pub fn update_prompt_tx(conn: &mut Db, id: &str, request: UpdatePromptRequest) -> (r: AppResult<()>)
    ensures
        sql::extends(old(conn).calls(), final(conn).calls()),
        r is Ok ==> sql::writes_ok(old(conn).calls(), final(conn).calls()),
        sql::all_met(old(conn).calls(), final(conn).calls()) ==> r is Ok,
        sql::text_call(final(conn).calls(), old(conn).calls().len() as int, ACTIVE_PROMPT_SQL@, seq![id@]),
        r is Ok ==> written(old(conn).calls(), final(conn).calls(), planned_changes(request), id@),
        r is Ok && update_needs_reindex(request) ==> refreshed(old(conn).calls(), final(conn).calls(), id@),
{
    let ghost n = conn.calls().len() as int;
    ensure_prompt_exists(conn, id)?;
    let now = now_rfc3339();
    let (changes, reindex) = plan_prompt_update(&request);
    let ghost mut pos: Seq<int> = Seq::empty();
    for i in 0..changes.len()
        invariant
            sql::extends(old(conn).calls(), conn.calls()),
            n == old(conn).calls().len(),
            sql::text_call(conn.calls(), n, ACTIVE_PROMPT_SQL@, seq![id@]),
            written_at(old(conn).calls(), conn.calls(), changes@.take(i as int), id@, pos),
            sql::writes_ok(old(conn).calls(), conn.calls()),
    {
        let ghost before = conn.calls();
        apply_prompt_change(conn, id, &changes[i], now.as_str())?;
        proof {
            let new_pos = conn.calls().len() - 1;
            assert(changes@.take(i + 1) =~= changes@.take(i as int).push(changes@[i as int]));
            assert forall|k: int| 0 <= k < pos.len() implies conn.calls()[#[trigger] pos[k]] == before[pos[k]] by {}
            pos = pos.push(new_pos);
            assert(written_at(old(conn).calls(), conn.calls(), changes@.take(i + 1), id@, pos));
        }
    }
    proof {
        assert(changes@.take(changes.len() as int) =~= changes@);
        assert(written_at(old(conn).calls(), conn.calls(), planned_changes(request), id@, pos));
    }
    if reindex {
        let ghost mid = conn.calls();
        update_fts_index_tx(conn, id)?;
        proof {
            assert(indexed(mid, conn.calls(), id@));
            assert forall|k: int| 0 <= k < pos.len() implies conn.calls()[#[trigger] pos[k]] == mid[pos[k]] by {}
            assert(written_at(old(conn).calls(), conn.calls(), planned_changes(request), id@, pos));
        }
    }
    Ok(())
}

// ---------------------------------------------------------------------
// Usage
// ---------------------------------------------------------------------

/// The sum of a sequence of counts.
pub open spec fn sum_counts(s: Seq<(String, u32)>) -> int
    decreases s.len(),
{
    if s.len() == 0 { 0 } else { sum_counts(s.drop_last()) + s.last().1 }
}

/// The usage a list of (playbook title, matching steps) rows reports.
pub open spec fn usage_of(rows: Seq<(String, u32)>, u: PromptUsage) -> bool {
    &&& u.playbook_count == rows.len()
    &&& u.step_count == sum_counts(rows)
    &&& u.playbook_titles@ == rows.map_values(|r: (String, u32)| r.0)
}

/// Summarises per-playbook step counts; counts too large for a `u32` are an
/// internal error.
pub fn usage_from_rows(rows: Vec<(String, u32)>) -> (r: AppResult<PromptUsage>)
    ensures
        r matches Ok(u) ==> usage_of(rows@, u),
        r is Err <==> (rows.len() > u32::MAX || sum_counts(rows@) > u32::MAX),
{
    let ghost all = rows@;
    let mut titles: Vec<String> = Vec::new();
    let mut total: u64 = 0;
    let mut overflow = false;
    let n = rows.len();
    let mut i: usize = 0;
    while i < n
        invariant
            n == rows.len(),
            all == rows@,
            i <= n,
            titles@ == all.take(i as int).map_values(|r: (String, u32)| r.0),
            !overflow ==> total == sum_counts(all.take(i as int)) && total <= u32::MAX,
            overflow ==> sum_counts(all.take(i as int)) > u32::MAX,
        decreases n - i,
    {
        let count = rows[i].1;
        proof {
            assert(all.take(i + 1).drop_last() =~= all.take(i as int));
            assert(all.take(i + 1).last() == all[i as int]);
        }
        if !overflow {
            if total + (count as u64) > u32::MAX as u64 {
                overflow = true;
            } else {
                total = total + count as u64;
            }
        }
        titles.push(rows[i].0.clone());
        proof {
            assert(titles@ =~= all.take(i + 1).map_values(|r: (String, u32)| r.0));
        }
        i = i + 1;
    }
    proof { assert(all.take(n as int) =~= all); }
    if overflow || n > u32::MAX as usize {
        return Err(AppError::internal("Prompt usage counts are too large"));
    }
    Ok(PromptUsage { playbook_count: n as u32, step_count: total as u32, playbook_titles: titles })
}

/// Counts, per playbook (by title, then id), the steps that use a prompt
/// directly or among their choices.
pub const USAGE_SQL: &'static str = "SELECT pb.title, COUNT(ps.id)
         FROM playbooks pb
         JOIN playbook_steps ps ON ps.playbook_id = pb.id
         WHERE ps.prompt_id = ?1
            OR INSTR(
                ',' || COALESCE(ps.choice_prompt_ids, '') || ',',
                ',' || ?1 || ','
            ) > 0
         GROUP BY pb.id, pb.title
         ORDER BY pb.title ASC, pb.id ASC";

/// `pair` is the (title, count) a usage row answered.
pub open spec fn usage_pair(row: Seq<SqlValue>, pair: (String, u32)) -> bool {
    sql::text_is(row[0], pair.0@) && row[1] == SqlValue::Integer(pair.1 as i64)
}

/// `pairs` are the (title, count) rows a usage query answered.
pub open spec fn usage_pairs(rows: Seq<Seq<SqlValue>>, pairs: Seq<(String, u32)>) -> bool {
    &&& pairs.len() == rows.len()
    &&& forall|k: int| 0 <= k < rows.len() ==> usage_pair(#[trigger] rows[k], pairs[k])
}

/// `u` summarises the (title, count) rows a usage query answered.
pub open spec fn usage_answered(rows: Seq<Seq<SqlValue>>, u: PromptUsage) -> bool {
    exists|pairs: Seq<(String, u32)>| #[trigger] usage_pairs(rows, pairs) && usage_of(pairs, u)
}

/// The (title, count) rows a usage query answered sum to a count that a
/// `u32` holds, over no more than `u32::MAX` playbooks.
pub open spec fn usage_fits(o: SqlOutcome) -> bool {
    forall|pairs: Seq<(String, u32)>| #[trigger] usage_pairs(o->Rows_0, pairs)
        ==> pairs.len() <= u32::MAX && sum_counts(pairs) <= u32::MAX
}

/// The playbooks whose steps use a prompt (directly or as a choice), with
/// how many of their steps do, ordered by title: the prompt must be active
/// (else `NotFound`); the result summarises the rows the usage query answered.
pub fn get_prompt_usage(conn: &mut Db, prompt_id: &str) -> (r: AppResult<PromptUsage>)
    ensures
        sql::extends(old(conn).calls(), final(conn).calls()),
        r is Ok ==> sql::writes_ok(old(conn).calls(), final(conn).calls()),
        sql::all_met(old(conn).calls(), final(conn).calls()) && usage_fits(final(conn).calls()[old(conn).calls().len() + 1int].outcome) ==> r is Ok,
        sql::text_call(final(conn).calls(), old(conn).calls().len() as int, ACTIVE_PROMPT_SQL@, seq![prompt_id@]),
        ({
            let o = final(conn).calls()[old(conn).calls().len() as int].outcome;
            o is Rows && sql::first_row(o) is None ==> r == Err::<PromptUsage, AppError>(AppError::NotFound)
        }),
        r matches Ok(u) ==> {
            let n = old(conn).calls().len() as int;
            let calls = final(conn).calls();
            &&& calls.len() == n + 2
            &&& sql::text_call(calls, n + 1, USAGE_SQL@, seq![prompt_id@])
            &&& calls[n + 1].outcome matches SqlOutcome::Rows(rows) && usage_answered(rows, u)
        },
{
    let ghost n = conn.calls().len() as int;
    ensure_prompt_exists(conn, prompt_id)?;
    let ghost c1 = conn.calls();
    let rows = sql::query_all(
        conn,
        USAGE_SQL,
        &sql::params1(sql::text_param(prompt_id)),
        &[sql::Kind::Text, sql::Kind::IntIn(0, 4294967295)])?;
    let ghost c2 = conn.calls();
    let ghost answered = sql::rows_view(rows@);
    proof { assert(c2[n] == c1[n]); }
    let mut pairs: Vec<(String, u32)> = Vec::new();
    for i in 0..rows.len()
        invariant
            sql::extends(old(conn).calls(), conn.calls()),
            conn.calls() == c2,
            c2.len() == n + 2,
            n == old(conn).calls().len(),
            sql::text_call(c2, n, ACTIVE_PROMPT_SQL@, seq![prompt_id@]),
            sql::met(c2[n]),
            sql::first_row(c2[n].outcome) is Some,
            sql::text_call(c2, n + 1, USAGE_SQL@, seq![prompt_id@]),
            c2[n + 1].outcome == SqlOutcome::Rows(answered),
            forall|k: int| 0 <= k < rows.len() ==> #[trigger] rows[k].len() == 2,
            answered == sql::rows_view(rows@),
            pairs.len() == i,
            forall|k: int| 0 <= k < i ==> usage_pair(#[trigger] answered[k], pairs@[k]),
            sql::rows_fit(answered, seq![sql::Kind::Text, sql::Kind::IntIn(0, 4294967295)]),
    {
        proof { assert(answered[i as int] == rows@[i as int]@); }
        let title = sql::col_text(&rows[i], 0)?;
        let count = sql::col_int(&rows[i], 1)?;
        if count < 0 || count > u32::MAX as i64 {
            return Err(AppError::internal("Invalid step count"));
        }
        let steps: u32 = count as u32;
        let ghost t = title@;
        proof {
            assert(steps as i64 == count);
            assert(answered[i as int][1] == SqlValue::Integer(count));
            assert(sql::text_is(answered[i as int][0], t));
        }
        pairs.push((title, steps));
        proof {
            assert(pairs@[i as int].0@ == t && pairs@[i as int].1 == steps);
            assert(usage_pair(answered[i as int], pairs@[i as int]));
        }
    }
    let ghost pv = pairs@;
    let r = usage_from_rows(pairs);
    proof {
        assert(answered.len() == rows.len());
        assert(usage_pairs(answered, pv));
        if r is Err {
            assert(!usage_fits(conn.calls()[n + 1].outcome));
        }
        if r is Ok {
            assert(usage_of(pv, r->Ok_0));
            assert(usage_answered(answered, r->Ok_0));
            assert(conn.calls()[n + 1].outcome == SqlOutcome::Rows(answered));
        }
    }
    r
}

// ---------------------------------------------------------------------
// Flags, deletion, copies
// ---------------------------------------------------------------------

/// A prompt flag that can be toggled.
#[derive(Debug, Clone, Copy, PartialEq, Eq)]
pub enum PromptFlag {
    Favorite,
    Pinned,
}

/// Flips the favorite flag of an active prompt and returns its new value.
pub fn toggle_favorite(conn: &mut Db, id: &str) -> (r: AppResult<bool>)
    ensures
        sql::extends(old(conn).calls(), final(conn).calls()),
        r is Ok ==> sql::writes_ok(old(conn).calls(), final(conn).calls()),
        sql::all_met(old(conn).calls(), final(conn).calls()) ==> r is Ok,
        transaction::in_transaction(old(conn).calls(), final(conn).calls(), r is Ok),
        final(conn).calls().len() > old(conn).calls().len() + 1 ==> reads_flag(final(conn).calls(), old(conn).calls().len() + 1int, PromptFlag::Favorite, id@),
        r matches Ok(b) ==> toggled(final(conn).calls().drop_last(), old(conn).calls().len() + 1int, PromptFlag::Favorite, id@, b),
{
    toggle_flag(conn, id, PromptFlag::Favorite)
}

/// Flips the pinned flag of an active prompt and returns its new value.
pub fn toggle_pinned(conn: &mut Db, id: &str) -> (r: AppResult<bool>)
    ensures
        sql::extends(old(conn).calls(), final(conn).calls()),
        r is Ok ==> sql::writes_ok(old(conn).calls(), final(conn).calls()),
        sql::all_met(old(conn).calls(), final(conn).calls()) ==> r is Ok,
        transaction::in_transaction(old(conn).calls(), final(conn).calls(), r is Ok),
        final(conn).calls().len() > old(conn).calls().len() + 1 ==> reads_flag(final(conn).calls(), old(conn).calls().len() + 1int, PromptFlag::Pinned, id@),
        r matches Ok(b) ==> toggled(final(conn).calls().drop_last(), old(conn).calls().len() + 1int, PromptFlag::Pinned, id@, b),
{
    toggle_flag(conn, id, PromptFlag::Pinned)
}

pub const FAVORITE_FLAG_SQL: &'static str = "SELECT is_favorite FROM prompts WHERE id = ?1 AND deleted_at IS NULL";
pub const PINNED_FLAG_SQL: &'static str = "SELECT is_pinned FROM prompts WHERE id = ?1 AND deleted_at IS NULL";

/// The query that reads a flag of an active prompt.
pub open spec fn flag_select_sql(flag: PromptFlag) -> Seq<char> {
    match flag { PromptFlag::Favorite => FAVORITE_FLAG_SQL@, PromptFlag::Pinned => PINNED_FLAG_SQL@ }
}

/// The write that sets a flag of an active prompt.
pub open spec fn flag_update_sql(flag: PromptFlag) -> Seq<char> {
    match flag { PromptFlag::Favorite => SET_FAVORITE_SQL@, PromptFlag::Pinned => SET_PINNED_SQL@ }
}

/// The statement at position `n` reads the flag of prompt `id`.
pub open spec fn reads_flag(calls: Seq<SqlCall>, n: int, flag: PromptFlag, id: Seq<char>) -> bool {
    sql::text_call(calls, n, flag_select_sql(flag), seq![id])
}

/// From position `n` on: the flag of `id` was read as the opposite of
/// `new_state`, then written as `new_state` on exactly one row; nothing else.
pub open spec fn toggled(calls: Seq<SqlCall>, n: int, flag: PromptFlag, id: Seq<char>, new_state: bool) -> bool {
    &&& calls.len() == n + 2
    &&& reads_flag(calls, n, flag, id)
    &&& sql::first_row(calls[n].outcome) matches Some(row) && flag_col(row[0], !new_state)
    &&& calls[n + 1].sql == flag_update_sql(flag)
    &&& calls[n + 1].params.len() == 3
    &&& calls[n + 1].params[0] == SqlValue::Integer(if new_state { 1 } else { 0 })
    &&& calls[n + 1].params[1] is Text
    &&& sql::text_is(calls[n + 1].params[2], id)
    &&& calls[n + 1].outcome == SqlOutcome::Changed(1)
}

fn toggle_flag(conn: &mut Db, id: &str, flag: PromptFlag) -> (r: AppResult<bool>)
    ensures
        transaction::in_transaction(old(conn).calls(), final(conn).calls(), r is Ok),
        sql::extends(old(conn).calls(), final(conn).calls()),
        r is Ok ==> sql::writes_ok(old(conn).calls(), final(conn).calls()),
        sql::all_met(old(conn).calls(), final(conn).calls()) ==> r is Ok,
        final(conn).calls().len() > old(conn).calls().len() + 1 ==> reads_flag(final(conn).calls(), old(conn).calls().len() + 1int, flag, id@),
        r matches Ok(b) ==> toggled(final(conn).calls().drop_last(), old(conn).calls().len() + 1int, flag, id@, b),
{
    let ghost s0 = conn.calls();
    if let Err(e) = transaction::begin(conn) {
        proof { transaction::lemma_transaction_shape(s0, conn.calls(), conn.calls(), conn.calls(), false, false); }
        return Err(e);
    }
    let ghost s1 = conn.calls();
    let result = toggle_flag_tx(conn, id, flag);
    let ghost s2 = conn.calls();
    let r = transaction::finish(conn, result);
    proof {
        transaction::lemma_transaction_shape(s0, s1, s2, conn.calls(), true, r is Ok);
        assert(conn.calls()[s1.len() as int] == s2[s1.len() as int]);
        if r is Ok {
            assert(conn.calls().drop_last() =~= s2);
        }
    }
    r
}

fn toggle_flag_tx(conn: &mut Db, id: &str, flag: PromptFlag) -> (r: AppResult<bool>)
    ensures
        sql::extends(old(conn).calls(), final(conn).calls()),
        r is Ok ==> sql::writes_ok(old(conn).calls(), final(conn).calls()),
        sql::all_met(old(conn).calls(), final(conn).calls()) ==> r is Ok,
        reads_flag(final(conn).calls(), old(conn).calls().len() as int, flag, id@),
        r matches Ok(b) ==> toggled(final(conn).calls(), old(conn).calls().len() as int, flag, id@, b),
{
    let ghost n = conn.calls().len() as int;
    let select_sql = match flag {
        PromptFlag::Favorite => FAVORITE_FLAG_SQL,
        PromptFlag::Pinned => PINNED_FLAG_SQL,
    };
    let row = sql::query_one(conn, select_sql, &sql::params1(sql::text_param(id)), &[sql::Kind::Int])?;
    let ghost c1 = conn.calls();
    let current = sql::col_bool(&row, 0)?;
    let new_state = !current;
    let update_sql = match flag {
        PromptFlag::Favorite => SET_FAVORITE_SQL,
        PromptFlag::Pinned => SET_PINNED_SQL,
    };
    let now = now_rfc3339();
    sql::execute_one(
        conn,
        update_sql,
        &sql::params3(sql::bool_param(new_state), sql::text_param(now.as_str()), sql::text_param(id)),
    )?;
    proof { assert(conn.calls()[n] == c1[n]); }
    Ok(new_state)
}

/// Soft-deletes an active prompt.
pub const SOFT_DELETE_PROMPT_SQL: &'static str = "UPDATE prompts SET deleted_at = ?1, updated_at = ?1
         WHERE id = ?2 AND deleted_at IS NULL";

/// Soft-deletes an active prompt and drops it from the search index, in one
/// transaction: the soft delete is the first write; when it succeeds the
/// prompt's search entry is refreshed (and so dropped) before the commit.
pub fn delete_prompt(conn: &mut Db, id: &str) -> (r: AppResult<()>)
    ensures
        transaction::in_transaction(old(conn).calls(), final(conn).calls(), r is Ok),
        sql::extends(old(conn).calls(), final(conn).calls()),
        r is Ok ==> sql::writes_ok(old(conn).calls(), final(conn).calls()),
        sql::all_met(old(conn).calls(), final(conn).calls()) ==> r is Ok,
        final(conn).calls().len() > old(conn).calls().len() + 1 ==> soft_deletes(final(conn).calls(), old(conn).calls().len() + 1int, id@),
        r is Ok ==> final(conn).calls()[old(conn).calls().len() + 1int].outcome == SqlOutcome::Changed(1)
            && refreshed(old(conn).calls(), final(conn).calls().drop_last(), id@),
{
    let ghost s0 = conn.calls();
    if let Err(e) = transaction::begin(conn) {
        proof { transaction::lemma_transaction_shape(s0, conn.calls(), conn.calls(), conn.calls(), false, false); }
        return Err(e);
    }
    let ghost s1 = conn.calls();
    let result = delete_prompt_tx(conn, id);
    let ghost s2 = conn.calls();
    let r = transaction::finish(conn, result);
    proof {
        transaction::lemma_transaction_shape(s0, s1, s2, conn.calls(), true, r is Ok);
        assert(conn.calls()[s1.len() as int] == s2[s1.len() as int]);
        if r is Ok {
            assert(conn.calls().drop_last() =~= s2);
            let mid = choose|mid: Seq<SqlCall>| sql::extends(s1, mid) && indexed(mid, s2, id@);
            assert(sql::extends(s0, mid) && indexed(mid, s2, id@));
        }
    }
    r
}

/// The statement at position `n` soft-deletes prompt `id`.
pub open spec fn soft_deletes(calls: Seq<SqlCall>, n: int, id: Seq<char>) -> bool {
    &&& 0 <= n < calls.len()
    &&& calls[n].sql == SOFT_DELETE_PROMPT_SQL@
    &&& calls[n].params.len() == 2
    &&& calls[n].params[0] is Text
    &&& sql::text_is(calls[n].params[1], id)
}

fn delete_prompt_tx(conn: &mut Db, id: &str) -> (r: AppResult<()>)
    ensures
        sql::extends(old(conn).calls(), final(conn).calls()),
        r is Ok ==> sql::writes_ok(old(conn).calls(), final(conn).calls()),
        sql::all_met(old(conn).calls(), final(conn).calls()) ==> r is Ok,
        soft_deletes(final(conn).calls(), old(conn).calls().len() as int, id@),
        r is Ok ==> final(conn).calls()[old(conn).calls().len() as int].outcome == SqlOutcome::Changed(1)
            && refreshed(old(conn).calls(), final(conn).calls(), id@),
{
    let ghost n = conn.calls().len() as int;
    let now = now_rfc3339();
    sql::execute_one(
        conn,
        SOFT_DELETE_PROMPT_SQL,
        &sql::params2(sql::text_param(now.as_str()), sql::text_param(id)),
    )?;
    let ghost c1 = conn.calls();
    let r = update_fts_index_tx(conn, id);
    proof {
        assert(conn.calls()[n] == c1[n]);
        if r is Ok {
            assert(indexed(c1, conn.calls(), id@));
        }
    }
    r
}

/// Records that a prompt was copied (the given variant, or its primary one)
/// and returns the copied content, in one transaction.
pub fn record_copy(conn: &mut Db, prompt_id: &str, variant_id: Option<&str>) -> (r: AppResult<String>)
    ensures
        transaction::in_transaction(old(conn).calls(), final(conn).calls(), r is Ok),
        sql::extends(old(conn).calls(), final(conn).calls()),
        r is Ok ==> sql::writes_ok(old(conn).calls(), final(conn).calls()),
        sql::all_met(old(conn).calls(), final(conn).calls()) ==> r is Ok,
        final(conn).calls().len() > old(conn).calls().len() + 1
            ==> copy_checks(final(conn).calls(), old(conn).calls().len() + 1int, prompt_id@, opt_str_view(variant_id), r),
        r matches Ok(content) ==> copied(final(conn).calls().drop_last(), old(conn).calls().len() + 1int, prompt_id@, opt_str_view(variant_id), content@),
{
    let ghost s0 = conn.calls();
    if let Err(e) = transaction::begin(conn) {
        proof { transaction::lemma_transaction_shape(s0, conn.calls(), conn.calls(), conn.calls(), false, false); }
        return Err(e);
    }
    let ghost s1 = conn.calls();
    let result = record_copy_tx(conn, prompt_id, variant_id);
    let ghost s2 = conn.calls();
    let r = transaction::finish(conn, result);
    proof {
        transaction::lemma_transaction_shape(s0, s1, s2, conn.calls(), true, r is Ok);
        let n = s1.len() as int;
        assert(conn.calls()[n] == s2[n]);
        if s2.len() > n + 1 {
            assert(conn.calls()[n + 1] == s2[n + 1]);
        }
        if r is Ok {
            assert(conn.calls().drop_last() =~= s2);
        }
    }
    r
}

/// The text of an optional string slice.
pub open spec fn opt_str_view(s: Option<&str>) -> Option<Seq<char>> {
    match s { Some(t) => Some(t@), None => None }
}

/// Reads a variant's content, when it and its prompt are active.
pub const VARIANT_CONTENT_SQL: &'static str = "SELECT v.content
         FROM variants v
         JOIN prompts p ON p.id = v.prompt_id AND p.deleted_at IS NULL
         WHERE v.id = ?1 AND v.prompt_id = ?2 AND v.deleted_at IS NULL";

/// Records one copy.
pub const INSERT_COPY_SQL: &'static str = "INSERT INTO copy_history (id, prompt_id, variant_id, copied_at)
         VALUES (?1, ?2, ?3, ?4)";

/// Counts one copy of an active prompt.
pub const COUNT_COPY_SQL: &'static str = "UPDATE prompts
         SET copy_count = copy_count + 1, last_copied_at = ?1, updated_at = ?1
         WHERE id = ?2 AND deleted_at IS NULL";

/// The checks a copy starts with, from position `n`: the prompt must be
/// active (else `NotFound`); then a given variant must be one of its active
/// variants (else the request is invalid), or its primary variant must be active.
pub open spec fn copy_checks(calls: Seq<SqlCall>, n: int, prompt_id: Seq<char>, variant_id: Option<Seq<char>>, r: AppResult<String>) -> bool {
    &&& sql::text_call(calls, n, ACTIVE_PROMPT_SQL@, seq![prompt_id])
    &&& (calls[n].outcome is Rows && sql::first_row(calls[n].outcome) is None ==> r == Err::<String, AppError>(AppError::NotFound))
    &&& sql::met(calls[n]) ==> match variant_id {
        Some(v) => sql::text_call(calls, n + 1, VARIANT_OF_PROMPT_SQL@, seq![v, prompt_id])
            && (calls[n + 1].outcome is Rows && sql::first_row(calls[n + 1].outcome) is None
                ==> (r matches Err(AppError::Invalid(m)) && m@ == "Variant must belong to the target prompt"@)),
        None => sql::text_call(calls, n + 1, ACTIVE_PRIMARY_SQL@, seq![prompt_id]),
    }
}

/// A successful copy from position `n`: the checks passed; the copied
/// variant (the given one, or the primary one read) had `content`; one copy
/// was recorded for it, and the prompt's copy count raised on exactly one row.
pub open spec fn copied(calls: Seq<SqlCall>, n: int, prompt_id: Seq<char>, variant_id: Option<Seq<char>>, content: Seq<char>) -> bool {
    let used = match variant_id {
        Some(v) => v,
        None => match sql::first_row(calls[n + 1].outcome) { Some(row) => text_or_empty(row[0]), None => Seq::empty() },
    };
    &&& calls.len() == n + 5
    &&& sql::first_row(calls[n].outcome) is Some
    &&& sql::first_row(calls[n + 1].outcome) is Some
    &&& sql::text_call(calls, n + 2, VARIANT_CONTENT_SQL@, seq![used, prompt_id])
    &&& sql::first_row(calls[n + 2].outcome) matches Some(row) && sql::text_is(row[0], content)
    &&& calls[n + 3].sql == INSERT_COPY_SQL@ && calls[n + 3].params.len() == 4
    &&& sql::text_is(calls[n + 3].params[1], prompt_id) && sql::text_is(calls[n + 3].params[2], used)
    &&& calls[n + 3].outcome is Changed
    &&& calls[n + 4].sql == COUNT_COPY_SQL@ && calls[n + 4].params.len() == 2
    &&& calls[n + 3].params[3] is Text && calls[n + 4].params[0] is Text
    &&& text_or_empty(calls[n + 4].params[0]) == text_or_empty(calls[n + 3].params[3])
    &&& sql::text_is(calls[n + 4].params[1], prompt_id)
    &&& calls[n + 4].outcome == SqlOutcome::Changed(1)
}

pub fn record_copy_tx(conn: &mut Db, prompt_id: &str, variant_id: Option<&str>) -> (r: AppResult<String>)
    ensures
        sql::extends(old(conn).calls(), final(conn).calls()),
        r is Ok ==> sql::writes_ok(old(conn).calls(), final(conn).calls()),
        sql::all_met(old(conn).calls(), final(conn).calls()) ==> r is Ok,
        copy_checks(final(conn).calls(), old(conn).calls().len() as int, prompt_id@, opt_str_view(variant_id), r),
        r matches Ok(content) ==> copied(final(conn).calls(), old(conn).calls().len() as int, prompt_id@, opt_str_view(variant_id), content@),
{
    let ghost n = conn.calls().len() as int;
    ensure_prompt_exists(conn, prompt_id)?;
    let ghost c1 = conn.calls();
    let actual_variant_id = match variant_id {
        Some(id) => {
            ensure_variant_belongs_to_prompt(conn, prompt_id, id)?;
            crate::text::owned(id)
        }
        None => get_active_primary_variant_id(conn, prompt_id)?,
    };
    let ghost c2 = conn.calls();
    proof { assert(actual_variant_id@ == (match opt_str_view(variant_id) {
        Some(v) => v,
        None => match sql::first_row(c2[n + 1].outcome) { Some(row) => text_or_empty(row[0]), None => Seq::empty() },
    })); }

    let row = sql::query_one(
        conn,
        VARIANT_CONTENT_SQL,
        &sql::params2(sql::text_param(actual_variant_id.as_str()), sql::text_param(prompt_id)),
        &[sql::Kind::Text])?;
    let ghost c3 = conn.calls();
    let content = sql::col_text(&row, 0)?;

    let now = now_rfc3339();
    let history_id = new_id();
    sql::execute(
        conn,
        INSERT_COPY_SQL,
        &sql::params4(
            sql::text_param(history_id.as_str()),
            sql::text_param(prompt_id),
            sql::text_param(actual_variant_id.as_str()),
            sql::text_param(now.as_str()),
        ),
    )?;
    let ghost c4 = conn.calls();

    sql::execute_one(
        conn,
        COUNT_COPY_SQL,
        &sql::params2(sql::text_param(now.as_str()), sql::text_param(prompt_id)),
    )?;
    proof {
        assert(conn.calls()[n] == c1[n]);
        assert(conn.calls()[n + 1] == c2[n + 1]);
        assert(conn.calls()[n + 2] == c3[n + 2]);
        assert(conn.calls()[n + 3] == c4[n + 3]);
    }
    Ok(content)
}

// ---------------------------------------------------------------------
// Variants
// ---------------------------------------------------------------------

/// Adds a static variant after the prompt's last active one, in one transaction.
pub fn add_variant(conn: &mut Db, prompt_id: &str, label: &str, content: &str) -> (r: AppResult<Variant>)
    ensures
        transaction::in_transaction(old(conn).calls(), final(conn).calls(), r is Ok),
        final(conn).calls().len() > old(conn).calls().len() + 1 ==> sql::text_call(final(conn).calls(), old(conn).calls().len() + 1int, ACTIVE_PROMPT_SQL@, seq![prompt_id@]),
        r matches Ok(v) ==> variant_added(final(conn).calls().drop_last(), old(conn).calls().len() + 1int, prompt_id@, v),
        sql::extends(old(conn).calls(), final(conn).calls()),
        r is Ok ==> sql::writes_ok(old(conn).calls(), final(conn).calls()),
        sql::all_met(old(conn).calls(), final(conn).calls()) ==> r is Ok,
        r matches Ok(v) ==> v.prompt_id@ == prompt_id@ && v.label@ == label@ && v.content@ == content@
            && v.deleted_at is None && v.sort_order >= 0,
{
    let ghost s0 = conn.calls();
    if let Err(e) = transaction::begin(conn) {
        proof { transaction::lemma_transaction_shape(s0, conn.calls(), conn.calls(), conn.calls(), false, false); }
        return Err(e);
    }
    let ghost s1 = conn.calls();
    let result = add_variant_tx(conn, prompt_id, label, content);
    let ghost s2 = conn.calls();
    let r = transaction::finish(conn, result);
    proof {
        transaction::lemma_transaction_shape(s0, s1, s2, conn.calls(), true, r is Ok);
        assert(conn.calls()[s1.len() as int] == s2[s1.len() as int]);
        if r is Ok {
            assert(conn.calls().drop_last() =~= s2);
        }
    }
    r
}

/// The sort position after the largest one in use (-1 when none is).
pub fn next_sort_order(max_sort: i64) -> (r: AppResult<i64>)
    ensures
        r matches Ok(n) ==> n == max_sort + 1,
        r is Err <==> max_sort == i64::MAX,
{
    if max_sort == i64::MAX {
        Err(AppError::internal("Variant sort order is exhausted"))
    } else {
        Ok(max_sort + 1)
    }
}

/// Reads the last sort order used by a prompt's active variants (-1 when none).
pub const LAST_SORT_ORDER_SQL: &'static str = "SELECT COALESCE(MAX(sort_order), -1)
         FROM variants WHERE prompt_id = ?1 AND deleted_at IS NULL";

/// Inserts a static variant at a sort order.
pub const INSERT_VARIANT_SQL: &'static str = "INSERT INTO variants
            (id, prompt_id, label, content, content_type, sort_order, created_at, updated_at)
         VALUES (?1, ?2, ?3, ?4, 'static', ?5, ?6, ?6)";

/// What adding variant `v` to prompt `prompt_id` did from position `n`:
/// the prompt was found active, the last sort order read, the variant
/// inserted right after it, the prompt's timestamp refreshed, and the
/// prompt's search entry rebuilt.
pub open spec fn variant_added(calls: Seq<SqlCall>, n: int, prompt_id: Seq<char>, v: Variant) -> bool {
    let w = calls[n + 2];
    &&& sql::text_call(calls, n, ACTIVE_PROMPT_SQL@, seq![prompt_id])
    &&& sql::met(calls[n])
    &&& sql::text_call(calls, n + 1, LAST_SORT_ORDER_SQL@, seq![prompt_id])
    &&& sql::first_row(calls[n + 1].outcome) matches Some(row) && row[0] == SqlValue::Integer((v.sort_order - 1) as i64)
    &&& w.sql == INSERT_VARIANT_SQL@
    &&& w.params.len() == 6
    &&& sql::text_is(w.params[0], v.id@)
    &&& sql::text_is(w.params[1], prompt_id)
    &&& sql::text_is(w.params[2], v.label@)
    &&& sql::text_is(w.params[3], v.content@)
    &&& w.params[4] == SqlValue::Integer(v.sort_order)
    &&& w.outcome is Changed
    &&& stamped_write(calls[n + 3], TOUCH_PROMPT_SQL@, prompt_id)
    &&& indexed(calls.take(n + 4), calls, prompt_id)
}

pub fn add_variant_tx(conn: &mut Db, prompt_id: &str, label: &str, content: &str) -> (r: AppResult<Variant>)
    ensures
        sql::extends(old(conn).calls(), final(conn).calls()),
        r is Ok ==> sql::writes_ok(old(conn).calls(), final(conn).calls()),
        sql::all_met(old(conn).calls(), final(conn).calls()) ==> r is Ok,
        r matches Ok(v) ==> v.prompt_id@ == prompt_id@ && v.label@ == label@ && v.content@ == content@
            && v.deleted_at is None && v.sort_order >= 0,
        sql::text_call(final(conn).calls(), old(conn).calls().len() as int, ACTIVE_PROMPT_SQL@, seq![prompt_id@]),
        ({
            let o = final(conn).calls()[old(conn).calls().len() as int].outcome;
            o is Rows && sql::first_row(o) is None ==> r == Err::<Variant, AppError>(AppError::NotFound)
        }),
        r matches Ok(v) ==> variant_added(final(conn).calls(), old(conn).calls().len() as int, prompt_id@, v),
{
    let ghost n = conn.calls().len() as int;
    ensure_prompt_exists(conn, prompt_id)?;
    let ghost c1 = conn.calls();
    let row = sql::query_one(
        conn,
        LAST_SORT_ORDER_SQL,
        &sql::params1(sql::text_param(prompt_id)),
        &[sql::Kind::IntIn(-1, 9223372036854775806)])?;
    let ghost c2 = conn.calls();
    let max_sort = sql::col_int(&row, 0)?;
    if max_sort < -1 {
        return Err(AppError::internal("Invalid variant sort order"));
    }
    let sort_order = next_sort_order(max_sort)?;
    let id = new_id();
    let now = now_rfc3339();
    let mut params = sql::params5(
        sql::text_param(id.as_str()),
        sql::text_param(prompt_id),
        sql::text_param(label),
        sql::text_param(content),
        SqlValue::Integer(sort_order),
    );
    params.push(sql::text_param(now.as_str()));
    sql::execute(
        conn,
        INSERT_VARIANT_SQL,
        &params,
    )?;
    let ghost c3 = conn.calls();
    sql::execute_one(
        conn,
        TOUCH_PROMPT_SQL,
        &sql::params2(sql::text_param(now.as_str()), sql::text_param(prompt_id)),
    )?;
    let ghost c4 = conn.calls();
    update_fts_index_tx(conn, prompt_id)?;
    let v = Variant {
        id,
        prompt_id: crate::text::owned(prompt_id),
        label: crate::text::owned(label),
        content: crate::text::owned(content),
        content_type: Some("static".to_string()),
        variables: None,
        sort_order,
        created_at: Some(now.clone()),
        updated_at: Some(now),
        deleted_at: None,
    };
    proof {
        assert(conn.calls()[n] == c1[n]);
        assert(conn.calls()[n + 1] == c2[n + 1]);
        assert(conn.calls()[n + 2] == c3[n + 2]);
        assert(conn.calls()[n + 3] == c4[n + 3]);
        assert(c4 =~= conn.calls().take(n + 4));
    }
    Ok(v)
}

/// Replaces a variant's content (and label, when given), in one transaction.
pub fn update_variant(conn: &mut Db, id: &str, content: &str, label: Option<&str>) -> (r: AppResult<()>)
    ensures
        transaction::in_transaction(old(conn).calls(), final(conn).calls(), r is Ok),
        sql::all_met(old(conn).calls(), final(conn).calls()) ==> r is Ok,
        final(conn).calls().len() > old(conn).calls().len() + 1 ==> sql::text_call(final(conn).calls(), old(conn).calls().len() + 1int, VARIANT_PROMPT_SQL@, seq![id@]),
        r is Ok ==> variant_updated(final(conn).calls().drop_last(), old(conn).calls().len() + 1int, id@, content@, opt_str_view(label)),
        sql::extends(old(conn).calls(), final(conn).calls()),
{
    let ghost s0 = conn.calls();
    if let Err(e) = transaction::begin(conn) {
        proof { transaction::lemma_transaction_shape(s0, conn.calls(), conn.calls(), conn.calls(), false, false); }
        return Err(e);
    }
    let ghost s1 = conn.calls();
    let result = update_variant_tx(conn, id, content, label);
    let ghost s2 = conn.calls();
    let r = transaction::finish(conn, result);
    proof {
        transaction::lemma_transaction_shape(s0, s1, s2, conn.calls(), true, r is Ok);
        assert(conn.calls()[s1.len() as int] == s2[s1.len() as int]);
        if r is Ok {
            assert(conn.calls().drop_last() =~= s2);
        }
    }
    r
}

/// Reads the prompt of an active variant of an active prompt.
pub const VARIANT_PROMPT_SQL: &'static str = "SELECT v.prompt_id
         FROM variants v
         JOIN prompts p ON p.id = v.prompt_id AND p.deleted_at IS NULL
         WHERE v.id = ?1 AND v.deleted_at IS NULL";

/// Replaces a variant's content and label.
pub const SET_VARIANT_LABELLED_SQL: &'static str = "UPDATE variants SET content = ?1, label = ?2, updated_at = ?3
             WHERE id = ?4 AND deleted_at IS NULL";

/// Replaces a variant's content.
pub const SET_VARIANT_CONTENT_SQL: &'static str = "UPDATE variants SET content = ?1, updated_at = ?2
             WHERE id = ?3 AND deleted_at IS NULL";

/// What replacing variant `id`'s content did from position `n`: it found
/// the variant's prompt (no row is `NotFound`); when it succeeds, it wrote
/// the content (and the label, when given) on exactly one row, refreshed
/// the prompt's timestamp, and rebuilt the prompt's search entry.
pub open spec fn variant_updated(calls: Seq<SqlCall>, n: int, id: Seq<char>, content: Seq<char>, label: Option<Seq<char>>) -> bool {
    let prompt_id = match sql::first_row(calls[n].outcome) { Some(row) => text_or_empty(row[0]), None => Seq::empty() };
    let w = calls[n + 1];
    &&& sql::text_call(calls, n, VARIANT_PROMPT_SQL@, seq![id])
    &&& sql::met(calls[n])
    &&& match label {
        Some(l) => w.sql == SET_VARIANT_LABELLED_SQL@ && w.params.len() == 4 && sql::text_is(w.params[1], l),
        None => w.sql == SET_VARIANT_CONTENT_SQL@ && w.params.len() == 3,
    }
    &&& sql::text_is(w.params[0], content)
    &&& sql::text_is(w.params.last(), id)
    &&& w.outcome == SqlOutcome::Changed(1)
    &&& stamped_write(calls[n + 2], TOUCH_PROMPT_SQL@, prompt_id)
    &&& indexed(calls.take(n + 3), calls, prompt_id)
}

fn update_variant_tx(conn: &mut Db, id: &str, content: &str, label: Option<&str>) -> (r: AppResult<()>)
    ensures
        sql::extends(old(conn).calls(), final(conn).calls()),
        r is Ok ==> sql::writes_ok(old(conn).calls(), final(conn).calls()),
        sql::all_met(old(conn).calls(), final(conn).calls()) ==> r is Ok,
        sql::text_call(final(conn).calls(), old(conn).calls().len() as int, VARIANT_PROMPT_SQL@, seq![id@]),
        ({
            let o = final(conn).calls()[old(conn).calls().len() as int].outcome;
            o is Rows && sql::first_row(o) is None ==> r == Err::<(), AppError>(AppError::NotFound)
        }),
        r is Ok ==> variant_updated(final(conn).calls(), old(conn).calls().len() as int, id@, content@, opt_str_view(label)),
{
    let ghost n = conn.calls().len() as int;
    let row = sql::query_one(
        conn,
        VARIANT_PROMPT_SQL,
        &sql::params1(sql::text_param(id)),
        &[sql::Kind::Text])?;
    let ghost c1 = conn.calls();
    let prompt_id = sql::col_text(&row, 0)?;
    let now = now_rfc3339();
    match label {
        Some(label) => sql::execute_one(
            conn,
            SET_VARIANT_LABELLED_SQL,
            &sql::params4(sql::text_param(content), sql::text_param(label), sql::text_param(now.as_str()), sql::text_param(id)),
        )?,
        None => sql::execute_one(
            conn,
            SET_VARIANT_CONTENT_SQL,
            &sql::params3(sql::text_param(content), sql::text_param(now.as_str()), sql::text_param(id)),
        )?,
    };
    let ghost c2 = conn.calls();
    sql::execute_one(
        conn,
        TOUCH_PROMPT_SQL,
        &sql::params2(sql::text_param(now.as_str()), sql::text_param(prompt_id.as_str())),
    )?;
    let ghost c3 = conn.calls();
    let r = update_fts_index_tx(conn, prompt_id.as_str());
    proof {
        assert(conn.calls()[n] == c1[n]);
        assert(conn.calls()[n + 1] == c2[n + 1]);
        assert(conn.calls()[n + 2] == c3[n + 2]);
        assert(c3 =~= conn.calls().take(n + 3));
    }
    r
}

/// Soft-deletes a variant, in one transaction. Deleting the primary variant
/// first promotes the next active one; the only active variant cannot be
/// deleted, and then nothing is written and the transaction is rolled back.
pub fn delete_variant(conn: &mut Db, id: &str) -> (r: AppResult<()>)
    ensures
        transaction::in_transaction(old(conn).calls(), final(conn).calls(), r is Ok),
        sql::extends(old(conn).calls(), final(conn).calls()),
        r is Ok ==> sql::writes_ok(old(conn).calls(), final(conn).calls()),
        sql::all_met(old(conn).calls(), final(conn).calls()) && !only_active_variant(final(conn).calls(), old(conn).calls().len() + 1int)
            ==> r is Ok,
        final(conn).calls().len() > old(conn).calls().len() + 1
            ==> variant_delete_checks(final(conn).calls(), old(conn).calls().len() + 1int, id@, r),
        r is Ok ==> variant_deleted(final(conn).calls().drop_last(), old(conn).calls().len() + 1int, id@),
{
    let ghost s0 = conn.calls();
    if let Err(e) = transaction::begin(conn) {
        proof { transaction::lemma_transaction_shape(s0, conn.calls(), conn.calls(), conn.calls(), false, false); }
        return Err(e);
    }
    let ghost s1 = conn.calls();
    let result = delete_variant_tx(conn, id);
    let ghost s2 = conn.calls();
    let r = transaction::finish(conn, result);
    proof {
        transaction::lemma_transaction_shape(s0, s1, s2, conn.calls(), true, r is Ok);
        let n = s1.len() as int;
        assert(conn.calls()[n] == s2[n]);
        if s2.len() > n + 1 {
            assert(conn.calls()[n + 1] == s2[n + 1]);
        }
        if r is Ok {
            assert(conn.calls().drop_last() =~= s2);
        }
    }
    r
}

/// Reads a variant's prompt and whether it is that prompt's primary variant.
pub const VARIANT_STATE_SQL: &'static str = "SELECT v.prompt_id, CASE WHEN p.primary_variant_id = v.id THEN 1 ELSE 0 END
         FROM variants v
         JOIN prompts p ON p.id = v.prompt_id
         WHERE v.id = ?1 AND v.deleted_at IS NULL AND p.deleted_at IS NULL";

/// Soft-deletes an active variant.
pub const SOFT_DELETE_VARIANT_SQL: &'static str = "UPDATE variants SET deleted_at = ?1, updated_at = ?1
         WHERE id = ?2 AND deleted_at IS NULL";

/// `call` is the write `sql` with a timestamp then the given text (an id),
/// and it changed exactly one row.
pub open spec fn stamped_write(call: SqlCall, sql: Seq<char>, target: Seq<char>) -> bool {
    &&& call.sql == sql
    &&& call.params.len() == 2
    &&& call.params[0] is Text
    &&& sql::text_is(call.params[1], target)
    &&& call.outcome == SqlOutcome::Changed(1)
}

/// What deleting variant `id` checks, from position `n`: the variant must be
/// active in an active prompt (else `NotFound`); when it is the primary
/// variant, the next active variant is looked up, and without one the
/// request is refused and nothing is written.
pub open spec fn variant_delete_checks(calls: Seq<SqlCall>, n: int, id: Seq<char>, r: AppResult<()>) -> bool {
    &&& sql::text_call(calls, n, VARIANT_STATE_SQL@, seq![id])
    &&& (calls[n].outcome is Rows && sql::first_row(calls[n].outcome) is None ==> r == Err::<(), AppError>(AppError::NotFound))
    &&& (sql::first_row(calls[n].outcome) is Some ==> {
            let row = sql::first_row(calls[n].outcome)->0;
            sql::met(calls[n]) && row[1] != SqlValue::Integer(0)
            ==> {
                &&& sql::text_call(calls, n + 1, NEXT_VARIANT_SQL@, seq![text_or_empty(row[0]), id])
                &&& (calls[n + 1].outcome is Rows && sql::first_row(calls[n + 1].outcome) is None
                    ==> (r matches Err(AppError::Invalid(m)) && m@ == "Cannot delete the only active variant"@))
            }
        })
}

/// A successful deletion of variant `id` from position `n`: its prompt and
/// primary status were read; a primary variant first handed its place to
/// the next active variant; the variant was soft-deleted; a non-primary
/// deletion refreshed the prompt's timestamp; and the prompt's search entry
/// was rebuilt last.
pub open spec fn variant_deleted(calls: Seq<SqlCall>, n: int, id: Seq<char>) -> bool {
    &&& sql::text_call(calls, n, VARIANT_STATE_SQL@, seq![id])
    &&& sql::first_row(calls[n].outcome) matches Some(row) && row.len() == 2
    &&& {
        let row = sql::first_row(calls[n].outcome)->0;
        let prompt_id = text_or_empty(row[0]);
        if row[1] == SqlValue::Integer(0) {
            &&& calls.len() > n + 2
            &&& stamped_write(calls[n + 1], SOFT_DELETE_VARIANT_SQL@, id)
            &&& stamped_write(calls[n + 2], TOUCH_PROMPT_SQL@, prompt_id)
            &&& indexed(calls.take(n + 3), calls, prompt_id)
        } else {
            &&& calls.len() > n + 3
            &&& sql::text_call(calls, n + 1, NEXT_VARIANT_SQL@, seq![prompt_id, id])
            &&& sql::first_row(calls[n + 1].outcome) matches Some(next)
                && calls[n + 2].sql == SET_PRIMARY_VARIANT_SQL@ && calls[n + 2].params.len() == 3
                && sql::text_is(calls[n + 2].params[0], text_or_empty(next[0]))
            &&& calls[n + 2].params[1] is Text
            &&& sql::text_is(calls[n + 2].params[2], prompt_id)
            &&& calls[n + 2].outcome == SqlOutcome::Changed(1)
            &&& stamped_write(calls[n + 3], SOFT_DELETE_VARIANT_SQL@, id)
            &&& indexed(calls.take(n + 4), calls, prompt_id)
        }
    }
}

/// From position `n`, the variant read was primary and the lookup of
/// another active variant answered none: it is the only active one.
pub open spec fn only_active_variant(calls: Seq<SqlCall>, n: int) -> bool {
    &&& sql::first_row(calls[n].outcome) matches Some(row) && row[1] != SqlValue::Integer(0)
    &&& calls.len() > n + 1
    &&& sql::first_row(calls[n + 1].outcome) is None
}

pub fn delete_variant_tx(conn: &mut Db, id: &str) -> (r: AppResult<()>)
    ensures
        sql::extends(old(conn).calls(), final(conn).calls()),
        r is Ok ==> sql::writes_ok(old(conn).calls(), final(conn).calls()),
        sql::all_met(old(conn).calls(), final(conn).calls()) && !only_active_variant(final(conn).calls(), old(conn).calls().len() as int)
            ==> r is Ok,
        variant_delete_checks(final(conn).calls(), old(conn).calls().len() as int, id@, r),
        r is Ok ==> variant_deleted(final(conn).calls(), old(conn).calls().len() as int, id@),
{
    let ghost n = conn.calls().len() as int;
    let row = sql::query_one(
        conn,
        VARIANT_STATE_SQL,
        &sql::params1(sql::text_param(id)),
        &[sql::Kind::Text, sql::Kind::Int])?;
    let ghost c1 = conn.calls();
    let prompt_id = sql::col_text(&row, 0)?;
    let is_primary = sql::col_bool(&row, 1)?;
    let now = now_rfc3339();
    if is_primary {
        let replacement = match next_active_variant_id(conn, prompt_id.as_str(), id)? {
            Some(r) => r,
            None => return Err(AppError::invalid("Cannot delete the only active variant")),
        };
        let ghost c2 = conn.calls();
        sql::execute_one(
            conn,
            SET_PRIMARY_VARIANT_SQL,
            &sql::params3(sql::text_param(replacement.as_str()), sql::text_param(now.as_str()), sql::text_param(prompt_id.as_str())),
        )?;
        let ghost c3 = conn.calls();
        sql::execute_one(
            conn,
            SOFT_DELETE_VARIANT_SQL,
            &sql::params2(sql::text_param(now.as_str()), sql::text_param(id)),
        )?;
        let ghost c4 = conn.calls();
        let r = update_fts_index_tx(conn, prompt_id.as_str());
        proof {
            assert(conn.calls()[n] == c1[n]);
            assert(conn.calls()[n + 1] == c2[n + 1]);
            assert(conn.calls()[n + 2] == c3[n + 2]);
            assert(conn.calls()[n + 3] == c4[n + 3]);
            assert(c4 =~= conn.calls().take(n + 4));
        }
        r
    } else {
        sql::execute_one(
            conn,
            SOFT_DELETE_VARIANT_SQL,
            &sql::params2(sql::text_param(now.as_str()), sql::text_param(id)),
        )?;
        let ghost c2 = conn.calls();
        sql::execute_one(
            conn,
            TOUCH_PROMPT_SQL,
            &sql::params2(sql::text_param(now.as_str()), sql::text_param(prompt_id.as_str())),
        )?;
        let ghost c3 = conn.calls();
        let r = update_fts_index_tx(conn, prompt_id.as_str());
        proof {
            assert(conn.calls()[n] == c1[n]);
            assert(conn.calls()[n + 1] == c2[n + 1]);
            assert(conn.calls()[n + 2] == c3[n + 2]);
            assert(c3 =~= conn.calls().take(n + 3));
        }
        r
    }
}

// ---------------------------------------------------------------------
// Search index
// ---------------------------------------------------------------------

/// Names joined by single spaces.
pub open spec fn join_spaced(s: Seq<Seq<char>>) -> Seq<char>
    decreases s.len(),
{
    if s.len() == 0 {
        Seq::empty()
    } else if s.len() == 1 {
        s[0]
    } else {
        join_spaced(s.drop_last()) + seq![' '] + s.last()
    }
}

/// The tag names of a prompt as the search index stores them.
pub fn joined_tag_names(tags: &Vec<Tag>) -> (r: String)
    ensures
        r@ == join_spaced(tags@.map_values(|t: Tag| t.name@)),
{
    let ghost names = tags@.map_values(|t: Tag| t.name@);
    let mut r = String::new();
    for i in 0..tags.len()
        invariant
            names == tags@.map_values(|t: Tag| t.name@),
            r@ == join_spaced(names.take(i as int)),
    {
        proof {
            assert(names.take(i + 1).drop_last() =~= names.take(i as int));
            assert(names.take(i + 1).last() == tags@[i as int].name@);
        }
        if i > 0 {
            push_char(&mut r, ' ');
        }
        push_str(&mut r, tags[i].name.as_str());
        proof {
            if i == 0 {
                assert(names.take(1) =~= seq![names[0]]);
            } else {
                assert(join_spaced(names.take(i + 1)) == join_spaced(names.take(i as int)) + seq![' '] + names[i as int]);
                assert(r@ =~= join_spaced(names.take(i + 1)));
            }
        }
    }
    proof { assert(names.take(tags.len() as int) =~= names); }
    r
}

/// What the search index holds for a prompt: its title, its description (or
/// nothing), its primary content, and its tag names joined by spaces.
pub open spec fn search_document_of(title: Seq<char>, description: Option<Seq<char>>, content: Seq<char>, tags: Seq<Tag>) -> (Seq<char>, Seq<char>, Seq<char>, Seq<char>) {
    (title, match description { Some(d) => d, None => Seq::empty() }, content, join_spaced(tags.map_values(|t: Tag| t.name@)))
}

/// The four columns of a prompt's search entry.
pub fn search_document(title: String, description: Option<String>, content: String, tags: &Vec<Tag>) -> (r: (String, String, String, String))
    ensures
        (r.0@, r.1@, r.2@, r.3@) == search_document_of(title@, opt_view(description), content@, tags@),
{
    let description_text = match description {
        Some(d) => d,
        None => String::new(),
    };
    (title, description_text, content, joined_tag_names(tags))
}

/// Reads the search-index row a prompt is mapped to.
pub const FTS_ROWID_SQL: &'static str = "SELECT rowid FROM fts_mapping WHERE prompt_id = ?1";

/// Reads what an active prompt's search entry holds: title, description and
/// primary content.
pub const FTS_SOURCE_SQL: &'static str = "SELECT p.title, p.description, COALESCE(v.content, '')
         FROM prompts p
         LEFT JOIN variants v
           ON v.id = p.primary_variant_id
          AND v.prompt_id = p.id
          AND v.deleted_at IS NULL
         WHERE p.id = ?1 AND p.deleted_at IS NULL";

/// Drops one search entry.
pub const DELETE_FTS_ROW_SQL: &'static str = "DELETE FROM prompts_fts WHERE rowid = ?1";

/// Drops a prompt's mapping to its search entry.
pub const DELETE_FTS_MAPPING_SQL: &'static str = "DELETE FROM fts_mapping WHERE prompt_id = ?1";

/// Maps a prompt to a new search-index row.
pub const INSERT_FTS_MAPPING_SQL: &'static str = "INSERT INTO fts_mapping (prompt_id) VALUES (?1)";

/// Writes a search entry.
pub const INSERT_FTS_ROW_SQL: &'static str = "INSERT INTO prompts_fts(rowid, title, description, content, tags)
         VALUES (?1, ?2, ?3, ?4, ?5)";

/// The text a column holds; empty for NULL.
pub open spec fn text_or_empty(v: SqlValue) -> Seq<char> {
    match v {
        SqlValue::Text(t) => t@,
        _ => Seq::empty(),
    }
}

/// The names of the tags the rows of a tag query answered, in order.
pub open spec fn tag_names_answered(o: SqlOutcome) -> Seq<Seq<char>> {
    match o {
        SqlOutcome::Rows(rows) => rows.map_values(|row: Seq<SqlValue>| text_or_empty(row[1])),
        _ => Seq::empty(),
    }
}

/// The statements from `before` to `after` refresh the search entry of
/// `prompt_id`: they read its mapping and its current text; when the prompt
/// is gone or soft-deleted, its entry and mapping (if any) are dropped;
/// otherwise its tags are read, the old entry (if any) is dropped, and one
/// entry is written with the prompt's current title, description, primary
/// content and tag names, under the same index row. Nothing stale is kept.
pub open spec fn indexed(before: Seq<SqlCall>, after: Seq<SqlCall>, prompt_id: Seq<char>) -> bool {
    let n = before.len() as int;
    &&& sql::extends(before, after)
    &&& sql::text_call(after, n, FTS_ROWID_SQL@, seq![prompt_id])
    &&& sql::text_call(after, n + 1, FTS_SOURCE_SQL@, seq![prompt_id])
    &&& match sql::first_row(after[n + 1].outcome) {
        None => match sql::first_row(after[n].outcome) {
            Some(m) => {
                &&& after.len() == n + 4
                &&& after[n + 2].sql == DELETE_FTS_ROW_SQL@ && after[n + 2].params == seq![m[0]]
                &&& after[n + 2].outcome is Changed
                &&& sql::text_call(after, n + 3, DELETE_FTS_MAPPING_SQL@, seq![prompt_id])
                &&& after[n + 3].outcome is Changed
            },
            None => after.len() == n + 2,
        },
        Some(src) => {
            let insert = after[n + 4];
            &&& after.len() == n + 5
            &&& sql::text_call(after, n + 2, tag_service::PROMPT_TAGS_SQL@, seq![prompt_id])
            &&& match sql::first_row(after[n].outcome) {
                Some(m) => after[n + 3].sql == DELETE_FTS_ROW_SQL@ && after[n + 3].params == seq![m[0]]
                    && insert.params[0] == m[0],
                None => sql::text_call(after, n + 3, INSERT_FTS_MAPPING_SQL@, seq![prompt_id])
                    && insert.params[0] is Integer,
            }
            &&& after[n + 3].outcome is Changed
            &&& insert.sql == INSERT_FTS_ROW_SQL@
            &&& insert.outcome is Changed
            &&& insert.params.len() == 5
            &&& sql::text_is(insert.params[1], text_or_empty(src[0]))
            &&& sql::text_is(insert.params[2], text_or_empty(src[1]))
            &&& sql::text_is(insert.params[3], text_or_empty(src[2]))
            &&& sql::text_is(insert.params[4], join_spaced(tag_names_answered(after[n + 2].outcome)))
        },
    }
}

/// A refreshed search entry never keeps stale text: when the prompt is
/// active, its old entry (if it had one) is dropped first and the one entry
/// written holds the title, description and content the prompt has now;
/// when it is gone or soft-deleted, its entry is dropped and none written.
pub proof fn lemma_refresh_replaces_entry(before: Seq<SqlCall>, after: Seq<SqlCall>, prompt_id: Seq<char>)
    requires
        indexed(before, after, prompt_id),
    ensures
        ({
            let n = before.len() as int;
            match sql::first_row(after[n + 1].outcome) {
                Some(src) => {
                    &&& after.last().sql == INSERT_FTS_ROW_SQL@
                    &&& sql::text_is(after.last().params[1], text_or_empty(src[0]))
                    &&& sql::text_is(after.last().params[2], text_or_empty(src[1]))
                    &&& sql::text_is(after.last().params[3], text_or_empty(src[2]))
                    &&& (sql::first_row(after[n].outcome) matches Some(m)
                        ==> after[n + 3].sql == DELETE_FTS_ROW_SQL@ && after[n + 3].params == seq![m[0]]
                            && after.last().params[0] == m[0])
                },
                None => forall|i: int| n + 2 <= i < after.len()
                    ==> #[trigger] after[i].sql == DELETE_FTS_ROW_SQL@ || after[i].sql == DELETE_FTS_MAPPING_SQL@,
            }
        }),
{
}

/// Between `before` and `after`, after any earlier statements, the last
/// statements refresh the search entry of `prompt_id` as `indexed` says.
pub open spec fn refreshed(before: Seq<SqlCall>, after: Seq<SqlCall>, prompt_id: Seq<char>) -> bool {
    exists|mid: Seq<SqlCall>| sql::extends(before, mid) && #[trigger] indexed(mid, after, prompt_id)
}

/// Rebuilds a prompt's search entry from its title, description, primary
/// content and tags; a prompt that is gone or soft-deleted loses its entry.
pub fn update_fts_index_tx(conn: &mut Db, prompt_id: &str) -> (r: AppResult<()>)
    ensures
        sql::extends(old(conn).calls(), final(conn).calls()),
        r is Ok ==> sql::writes_ok(old(conn).calls(), final(conn).calls()),
        sql::all_met(old(conn).calls(), final(conn).calls()) ==> r is Ok,
        sql::text_call(final(conn).calls(), old(conn).calls().len() as int, FTS_ROWID_SQL@, seq![prompt_id@]),
        r is Ok ==> indexed(old(conn).calls(), final(conn).calls(), prompt_id@),
{
    let ghost n = conn.calls().len() as int;
    let existing = sql::query_opt(
        conn,
        FTS_ROWID_SQL,
        &sql::params1(sql::text_param(prompt_id)),
        &[sql::Kind::Int])?;
    let ghost c1 = conn.calls();
    let existing_rowid = match existing {
        Some(row) => Some(sql::col_int(&row, 0)?),
        None => None,
    };

    let prompt_data = sql::query_opt(
        conn,
        FTS_SOURCE_SQL,
        &sql::params1(sql::text_param(prompt_id)),
        &[sql::Kind::Text, sql::Kind::OptText, sql::Kind::Text])?;
    let ghost c2 = conn.calls();

    let data = match prompt_data {
        Some(row) => row,
        None => {
            if let Some(rowid) = existing_rowid {
                sql::execute(conn, DELETE_FTS_ROW_SQL, &sql::params1(SqlValue::Integer(rowid)))?;
                let ghost c3 = conn.calls();
                sql::execute(conn, DELETE_FTS_MAPPING_SQL, &sql::params1(sql::text_param(prompt_id)))?;
                proof {
                    assert(conn.calls()[n] == c1[n]);
                    assert(conn.calls()[n + 1] == c2[n + 1]);
                    assert(conn.calls()[n + 2] == c3[n + 2]);
                }
            }
            return Ok(());
        }
    };
    let title = sql::col_text(&data, 0)?;
    let description = sql::col_opt_text(&data, 1)?;
    let content = sql::col_text(&data, 2)?;
    let ghost src = data@;

    let tags = tag_service::get_tags_for_prompt(conn, prompt_id)?;
    let ghost c3 = conn.calls();
    proof {
        let names = tags@.map_values(|t: Tag| t.name@);
        assert(names =~= tag_names_answered(c3[n + 2].outcome)) by {
            assert forall|k: int| 0 <= k < names.len() implies names[k] == tag_names_answered(c3[n + 2].outcome)[k] by {
                assert(tag_service::tag_row(c3[n + 2].outcome->Rows_0[k], tags@[k]));
            }
        }
    }
    let (title, description_text, content, tag_text) = search_document(title, description, content, &tags);

    let rowid = match existing_rowid {
        Some(rowid) => {
            sql::execute(conn, DELETE_FTS_ROW_SQL, &sql::params1(SqlValue::Integer(rowid)))?;
            rowid
        }
        None => {
            sql::execute(conn, INSERT_FTS_MAPPING_SQL, &sql::params1(sql::text_param(prompt_id)))?;
            sql::last_insert_rowid(conn)
        }
    };
    let ghost c4 = conn.calls();

    sql::execute(
        conn,
        INSERT_FTS_ROW_SQL,
        &sql::params5(
            SqlValue::Integer(rowid),
            sql::text_param(title.as_str()),
            sql::text_param(description_text.as_str()),
            sql::text_param(content.as_str()),
            sql::text_param(tag_text.as_str()),
        ),
    )?;
    proof {
        assert(conn.calls()[n] == c1[n]);
        assert(conn.calls()[n + 1] == c2[n + 1]);
        assert(conn.calls()[n + 2] == c3[n + 2]);
        assert(conn.calls()[n + 3] == c4[n + 3]);
    }
    Ok(())
}

}
