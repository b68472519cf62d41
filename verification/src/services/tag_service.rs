use vstd::prelude::*;

use crate::db::sql::{Db, SqlCall, SqlOutcome};

use crate::db::sql::{self, SqlValue};
use crate::error::{AppError, AppResult};
use crate::ids::{new_id, now_rfc3339};
use crate::models::tag::Tag;
use crate::services::{prompt_service, transaction};

verus! {

broadcast use crate::db::sql::group_calls;

/// `t` is the tag a `tags` row (id, name, color, created_at) describes.
pub open spec fn tag_row(row: Seq<SqlValue>, t: Tag) -> bool {
    &&& row.len() == 4
    &&& row[0] == SqlValue::Text(t.id)
    &&& row[1] == SqlValue::Text(t.name)
    &&& match t.color { Some(c) => row[2] == SqlValue::Text(c), None => row[2] is Null }
    &&& match t.created_at { Some(c) => row[3] == SqlValue::Text(c), None => row[3] is Null }
}

/// The columns of a `tags` row have the kinds a tag needs: text id and
/// name, nullable text color and creation time.
pub open spec fn tag_row_typed(row: Seq<SqlValue>) -> bool {
    &&& row[0] is Text
    &&& row[1] is Text
    &&& (row[2] is Text || row[2] is Null)
    &&& (row[3] is Text || row[3] is Null)
}

/// Rows of the kinds a tag query asks for can be read as tags.
proof fn lemma_tag_rows_typed(rows: Seq<Vec<SqlValue>>)
    requires
        sql::rows_fit(sql::rows_view(rows), seq![sql::Kind::Text, sql::Kind::Text, sql::Kind::OptText, sql::Kind::OptText]),
    ensures
        forall|i: int| 0 <= i < rows.len() ==> tag_row_typed(#[trigger] rows[i]@),
{
    assert forall|i: int| 0 <= i < rows.len() implies tag_row_typed(#[trigger] rows[i]@) by {
        assert(sql::rows_view(rows)[i] == rows[i]@);
        assert(sql::fits(sql::rows_view(rows)[i], seq![sql::Kind::Text, sql::Kind::Text, sql::Kind::OptText, sql::Kind::OptText]));
    }
}

/// Reads a tag from a `tags` row.
pub fn tag_from_row(row: &Vec<SqlValue>) -> (r: AppResult<Tag>)
    requires
        row.len() == 4,
    ensures
        r is Ok <==> tag_row_typed(row@),
        r matches Ok(t) ==> tag_row(row@, t),
        r matches Err(e) ==> e is Internal,
{
    Ok(Tag {
        id: sql::col_text(row, 0)?,
        name: sql::col_text(row, 1)?,
        color: sql::col_opt_text(row, 2)?,
        created_at: sql::col_opt_text(row, 3)?,
    })
}

/// Reads every row as a tag.
pub fn tags_from_rows(rows: &Vec<Vec<SqlValue>>) -> (r: AppResult<Vec<Tag>>)
    requires
        forall|i: int| 0 <= i < rows.len() ==> #[trigger] rows[i].len() == 4,
    ensures
        r is Ok <==> forall|i: int| 0 <= i < rows.len() ==> tag_row_typed(#[trigger] rows[i]@),
        r matches Err(e) ==> e is Internal,
        r matches Ok(tags) ==> tags.len() == rows.len()
            && forall|i: int| 0 <= i < rows.len() ==> tag_row(#[trigger] rows[i]@, tags[i]),
{
    let mut tags: Vec<Tag> = Vec::new();
    for i in 0..rows.len()
        invariant
            forall|k: int| 0 <= k < rows.len() ==> #[trigger] rows[k].len() == 4,
            tags.len() == i,
            forall|k: int| 0 <= k < i ==> tag_row(#[trigger] rows[k]@, tags[k]),
            forall|k: int| 0 <= k < i ==> tag_row_typed(#[trigger] rows[k]@),
    {
        let t = tag_from_row(&rows[i])?;
        tags.push(t);
    }
    Ok(tags)
}

/// Creates a tag with the given name, no color, and a fresh id.
/// Inserts a tag.
pub const INSERT_TAG_SQL: &'static str = "INSERT INTO tags (id, name, created_at) VALUES (?1, ?2, ?3)";

/// Finds a tag by name.
pub const FIND_TAG_SQL: &'static str = "SELECT id, name, color, created_at FROM tags WHERE name = ?1";

fn create_tag_named(conn: &mut Db, name: &str) -> (r: AppResult<Tag>)
    ensures
        sql::extends(old(conn).calls(), final(conn).calls()),
        r is Ok ==> sql::writes_ok(old(conn).calls(), final(conn).calls()),
        sql::all_met(old(conn).calls(), final(conn).calls()) ==> r is Ok,
        r matches Ok(t) ==> t.name@ == name@ && t.color is None && t.created_at is Some && t.id@.len() == 36,
        final(conn).calls().len() == old(conn).calls().len() + 1,
        final(conn).calls().last().sql == INSERT_TAG_SQL@,
        final(conn).calls().last().params.len() == 3,
        sql::text_is(final(conn).calls().last().params[1], name@),
        r is Ok <==> final(conn).calls().last().outcome is Changed,
        r matches Ok(t) ==> sql::text_is(final(conn).calls().last().params[0], t.id@),
{
    let id = new_id();
    let now = now_rfc3339();
    sql::execute(
        conn,
        INSERT_TAG_SQL,
        &sql::params3(sql::text_param(id.as_str()), sql::text_param(name), sql::text_param(now.as_str())),
    )?;
    Ok(Tag { id, name: crate::text::owned(name), color: None, created_at: Some(now) })
}

/// Finds a tag by name, or creates it when there is none: the tag the
/// lookup answered, or a new tag with that name.
pub fn get_or_create_tag(conn: &mut Db, name: &str) -> (r: AppResult<Tag>)
    ensures
        sql::extends(old(conn).calls(), final(conn).calls()),
        r is Ok ==> sql::writes_ok(old(conn).calls(), final(conn).calls()),
        sql::all_met(old(conn).calls(), final(conn).calls()) ==> r is Ok,
        sql::text_call(final(conn).calls(), old(conn).calls().len() as int, FIND_TAG_SQL@, seq![name@]),
        r matches Ok(t) ==> match sql::first_row(final(conn).calls()[old(conn).calls().len() as int].outcome) {
            Some(row) => tag_row(row, t) && final(conn).calls().len() == old(conn).calls().len() + 1,
            None => t.name@ == name@ && final(conn).calls().len() == old(conn).calls().len() + 2
                && final(conn).calls().last().sql == INSERT_TAG_SQL@
                && sql::text_is(final(conn).calls().last().params[0], t.id@)
                && final(conn).calls().last().params.len() == 3
                && sql::text_is(final(conn).calls().last().params[1], name@)
                && final(conn).calls().last().outcome is Changed,
        },
{
    let ghost n = conn.calls().len() as int;
    let found = sql::query_opt(
        conn,
        FIND_TAG_SQL,
        &sql::params1(sql::text_param(name)),
        &[sql::Kind::Text, sql::Kind::Text, sql::Kind::OptText, sql::Kind::OptText])?;
    let ghost c1 = conn.calls();
    let r = match found {
        Some(row) => tag_from_row(&row),
        None => create_tag_named(conn, name),
    };
    proof { assert(conn.calls()[n] == c1[n]); }
    r
}

/// Reads every tag, ordered by name.
pub const LIST_TAGS_SQL: &'static str = "SELECT id, name, color, created_at FROM tags ORDER BY name";

/// Reads a prompt's tags, ordered by name.
pub const PROMPT_TAGS_SQL: &'static str = "SELECT t.id, t.name, t.color, t.created_at
         FROM tags t
         JOIN prompt_tags pt ON pt.tag_id = t.id
         WHERE pt.prompt_id = ?1
         ORDER BY t.name";

/// `tags` are the tags the rows of a tag query answered, one per row, in order.
pub open spec fn tags_answered(o: SqlOutcome, tags: Seq<Tag>) -> bool {
    &&& o matches SqlOutcome::Rows(rows)
    &&& tags.len() == rows.len()
    &&& forall|i: int| 0 <= i < rows.len() ==> tag_row(rows[i], #[trigger] tags[i])
}

/// The tags read for prompt `id` at position `j`: one tag per row the
/// query answered, in order.
pub open spec fn tags_read_at(calls: Seq<SqlCall>, j: int, id: Seq<char>, tags: Seq<Tag>) -> bool {
    &&& sql::text_call(calls, j, PROMPT_TAGS_SQL@, seq![id])
    &&& tags_answered(calls[j].outcome, tags)
}

/// Some statement read `tags` for prompt `id`.
pub open spec fn tags_read(calls: Seq<SqlCall>, id: Seq<char>, tags: Seq<Tag>) -> bool {
    exists|j: int| #[trigger] tags_read_at(calls, j, id, tags)
}

/// Later statements leave what an earlier tag read answered unchanged.
pub proof fn lemma_tags_read_stable(a: Seq<SqlCall>, b: Seq<SqlCall>, id: Seq<char>, tags: Seq<Tag>)
    requires
        sql::extends(a, b),
        tags_read(a, id, tags),
    ensures
        tags_read(b, id, tags),
{
    let j = choose|j: int| #[trigger] tags_read_at(a, j, id, tags);
    assert(b[j] == a[j]);
    assert(tags_read_at(b, j, id, tags));
}

/// Every tag, ordered by name: one query, one tag per row it answered.
pub fn list_tags(conn: &mut Db) -> (r: AppResult<Vec<Tag>>)
    ensures
        sql::extends(old(conn).calls(), final(conn).calls()),
        r is Ok ==> sql::writes_ok(old(conn).calls(), final(conn).calls()),
        sql::all_met(old(conn).calls(), final(conn).calls()) ==> r is Ok,
        final(conn).calls().len() == old(conn).calls().len() + 1,
        sql::text_call(final(conn).calls(), old(conn).calls().len() as int, LIST_TAGS_SQL@, seq![]),
        r matches Ok(tags) ==> tags_answered(final(conn).calls().last().outcome, tags@),
{
    let rows = sql::query_all(conn, LIST_TAGS_SQL, &Vec::new(), &[sql::Kind::Text, sql::Kind::Text, sql::Kind::OptText, sql::Kind::OptText])?;
    proof { lemma_tag_rows_typed(rows@); }
    let r = tags_from_rows(&rows);
    proof {
        if let Ok(tags) = &r {
            assert forall|i: int| 0 <= i < rows.len() implies tag_row(sql::rows_view(rows@)[i], #[trigger] tags@[i]) by {
                assert(sql::rows_view(rows@)[i] == rows@[i]@);
            }
        }
    }
    r
}

/// The tags of a prompt, ordered by name: one query for the prompt's id,
/// one tag per row it answered.
pub fn get_tags_for_prompt(conn: &mut Db, prompt_id: &str) -> (r: AppResult<Vec<Tag>>)
    ensures
        sql::extends(old(conn).calls(), final(conn).calls()),
        r is Ok ==> sql::writes_ok(old(conn).calls(), final(conn).calls()),
        sql::all_met(old(conn).calls(), final(conn).calls()) ==> r is Ok,
        final(conn).calls().len() == old(conn).calls().len() + 1,
        sql::text_call(final(conn).calls(), old(conn).calls().len() as int, PROMPT_TAGS_SQL@, seq![prompt_id@]),
        r matches Ok(tags) ==> tags_answered(final(conn).calls().last().outcome, tags@),
        r matches Err(e) ==> e is Conflict || e is Internal,
{
    let rows = sql::query_all(
        conn,
        PROMPT_TAGS_SQL,
        &sql::params1(sql::text_param(prompt_id)),
        &[sql::Kind::Text, sql::Kind::Text, sql::Kind::OptText, sql::Kind::OptText])?;
    proof { lemma_tag_rows_typed(rows@); }
    let r = tags_from_rows(&rows);
    proof {
        if let Ok(tags) = &r {
            assert forall|i: int| 0 <= i < rows.len() implies tag_row(sql::rows_view(rows@)[i], #[trigger] tags@[i]) by {
                assert(sql::rows_view(rows@)[i] == rows@[i]@);
            }
        }
    }
    r
}

/// Links a tag to a prompt (nothing happens when they are already linked).
pub const LINK_TAG_SQL: &'static str = "INSERT OR IGNORE INTO prompt_tags (prompt_id, tag_id) VALUES (?1, ?2)";

/// `call` links the tag with id `tag_id` to the prompt with id `prompt_id`.
pub open spec fn link_call(call: SqlCall, prompt_id: Seq<char>, tag_id: Seq<char>) -> bool {
    &&& call.sql == LINK_TAG_SQL@
    &&& call.params.len() == 2
    &&& sql::text_is(call.params[0], prompt_id)
    &&& sql::text_is(call.params[1], tag_id)
    &&& call.outcome is Changed
}

/// From position `q`, the tag named `name` was looked up and linked to the
/// prompt: the tag found by that name, or a tag created with that name.
pub open spec fn tag_linked(calls: Seq<SqlCall>, q: int, prompt_id: Seq<char>, name: Seq<char>) -> bool {
    &&& sql::text_call(calls, q, FIND_TAG_SQL@, seq![name])
    &&& match sql::first_row(calls[q].outcome) {
        Some(row) => q + 1 < calls.len() && link_call(calls[q + 1], prompt_id, crate::services::prompt_service::text_or_empty(row[0])),
        None => {
            &&& q + 2 < calls.len()
            &&& calls[q + 1].sql == INSERT_TAG_SQL@
            &&& calls[q + 1].params.len() == 3
            &&& sql::text_is(calls[q + 1].params[1], name)
            &&& calls[q + 1].outcome is Changed
            &&& link_call(calls[q + 2], prompt_id, crate::services::prompt_service::text_or_empty(calls[q + 1].params[0]))
        },
    }
}

/// Each of the names was looked up and linked to the prompt, in order, from
/// the positions `qs`, all at or after `n`.
pub open spec fn tags_linked(calls: Seq<SqlCall>, n: int, prompt_id: Seq<char>, names: Seq<Seq<char>>, qs: Seq<int>) -> bool {
    &&& qs.len() == names.len()
    &&& forall|i: int| 0 <= i < names.len() ==> n <= #[trigger] qs[i] && tag_linked(calls, qs[i], prompt_id, names[i])
    &&& forall|i: int, j: int| 0 <= i < j < names.len() ==> #[trigger] qs[i] < #[trigger] qs[j]
}

/// Later statements leave earlier lookups and links unchanged.
pub proof fn lemma_tags_linked_stable(a: Seq<SqlCall>, b: Seq<SqlCall>, n: int, prompt_id: Seq<char>, names: Seq<Seq<char>>, qs: Seq<int>)
    requires
        sql::extends(a, b),
        tags_linked(a, n, prompt_id, names, qs),
    ensures
        tags_linked(b, n, prompt_id, names, qs),
{
    assert forall|i: int| 0 <= i < names.len() implies n <= #[trigger] qs[i] && tag_linked(b, qs[i], prompt_id, names[i]) by {
        let q = qs[i];
        assert(tag_linked(a, q, prompt_id, names[i]));
        assert(b[q] == a[q]);
        assert(b[q + 1] == a[q + 1]);
        if sql::first_row(a[q].outcome) is None {
            assert(b[q + 2] == a[q + 2]);
        }
    }
}

/// Attaches each named tag (creating missing ones) to a prompt, inside the
/// caller's transaction. Returns one tag per name, in the order given.
pub fn add_tags_to_prompt_tx(conn: &mut Db, prompt_id: &str, tag_names: &[String]) -> (r: AppResult<Vec<Tag>>)
    ensures
        sql::extends(old(conn).calls(), final(conn).calls()),
        r is Ok ==> sql::writes_ok(old(conn).calls(), final(conn).calls()),
        sql::all_met(old(conn).calls(), final(conn).calls()) ==> r is Ok,
        r matches Ok(tags) ==> tags.len() == tag_names.len(),
        tag_names.len() == 0 ==> r is Ok,
        r is Ok ==> exists|qs: Seq<int>| #[trigger] tags_linked(final(conn).calls(), old(conn).calls().len() as int, prompt_id@,
            crate::text::strings_view(tag_names@), qs),
{
    let ghost names = crate::text::strings_view(tag_names@);
    let ghost mut qs: Seq<int> = Seq::empty();
    let mut tags: Vec<Tag> = Vec::new();
    for i in 0..tag_names.len()
        invariant
            sql::extends(old(conn).calls(), conn.calls()),
            sql::writes_ok(old(conn).calls(), conn.calls()),
            tags.len() == i,
            names == crate::text::strings_view(tag_names@),
            tags_linked(conn.calls(), old(conn).calls().len() as int, prompt_id@, names.take(i as int), qs),
            forall|k: int| 0 <= k < qs.len() ==> #[trigger] qs[k] < conn.calls().len(),
    {
        let ghost before = conn.calls();
        let tag = get_or_create_tag(conn, tag_names[i].as_str())?;
        let ghost mid = conn.calls();
        sql::execute(
            conn,
            LINK_TAG_SQL,
            &sql::params2(sql::text_param(prompt_id), sql::text_param(tag.id.as_str())),
        )?;
        proof {
            let q = before.len() as int;
            lemma_tags_linked_stable(before, conn.calls(), old(conn).calls().len() as int, prompt_id@, names.take(i as int), qs);
            assert(conn.calls()[q] == mid[q]);
            if sql::first_row(mid[q].outcome) is None {
                assert(conn.calls()[q + 1] == mid[q + 1]);
            }
            assert(names.take(i as int).push(names[i as int]) =~= names.take(i + 1));
            assert(names[i as int] == tag_names@[i as int]@);
            if sql::first_row(mid[q].outcome) is None {
                assert(mid.last() == mid[q + 1]);
            }
            assert(conn.calls().last() == conn.calls()[conn.calls().len() - 1]);
            assert(tag_linked(conn.calls(), q, prompt_id@, names[i as int]));
            let old_qs = qs;
            qs = qs.push(q);
            assert forall|k: int| 0 <= k < qs.len() implies #[trigger] qs[k] < conn.calls().len() by {
                if k < i {
                    assert(qs[k] == old_qs[k]);
                }
            }
            assert forall|a: int, b: int| 0 <= a < b < i + 1 implies #[trigger] qs[a] < #[trigger] qs[b] by {
                assert(qs[a] == old_qs[a]);
                if b < i {
                    assert(qs[b] == old_qs[b]);
                }
            }
            assert forall|k: int| 0 <= k < i + 1 implies old(conn).calls().len() <= #[trigger] qs[k]
                && tag_linked(conn.calls(), qs[k], prompt_id@, names.take(i + 1)[k]) by {
                if k < i {
                    assert(qs[k] == old_qs[k]);
                    assert(names.take(i + 1)[k] == names.take(i as int)[k]);
                }
            }
        }
        tags.push(tag);
    }
    proof {
        assert(names.take(tag_names.len() as int) =~= names);
    }
    Ok(tags)
}

/// Attaches tags to an active prompt and refreshes its search entry, all in
/// one transaction.
pub fn add_tags_to_prompt(conn: &mut Db, prompt_id: &str, tag_names: &[String]) -> (r: AppResult<Vec<Tag>>)
    ensures
        transaction::in_transaction(old(conn).calls(), final(conn).calls(), r is Ok),
        final(conn).calls().len() > old(conn).calls().len() + 1 ==> sql::text_call(final(conn).calls(), old(conn).calls().len() + 1int, prompt_service::ACTIVE_PROMPT_SQL@, seq![prompt_id@]),
        r is Ok ==> prompt_service::refreshed(old(conn).calls(), final(conn).calls().drop_last(), prompt_id@),
        sql::extends(old(conn).calls(), final(conn).calls()),
        r is Ok ==> sql::writes_ok(old(conn).calls(), final(conn).calls()),
        sql::all_met(old(conn).calls(), final(conn).calls()) ==> r is Ok,
        r matches Ok(tags) ==> tags.len() == tag_names.len(),
{
    let ghost s0 = conn.calls();
    if let Err(e) = transaction::begin(conn) {
        proof { transaction::lemma_transaction_shape(s0, conn.calls(), conn.calls(), conn.calls(), false, false); }
        return Err(e);
    }
    let ghost s1 = conn.calls();
    let result = add_tags_to_prompt_in(conn, prompt_id, tag_names);
    let ghost s2 = conn.calls();
    let r = transaction::finish(conn, result);
    proof {
        transaction::lemma_transaction_shape(s0, s1, s2, conn.calls(), true, r is Ok);
        assert(conn.calls()[s1.len() as int] == s2[s1.len() as int]);
        if r is Ok {
            assert(conn.calls().drop_last() =~= s2);
        }
    }
    r
}

fn add_tags_to_prompt_in(conn: &mut Db, prompt_id: &str, tag_names: &[String]) -> (r: AppResult<Vec<Tag>>)
    ensures
        sql::extends(old(conn).calls(), final(conn).calls()),
        r is Ok ==> sql::writes_ok(old(conn).calls(), final(conn).calls()),
        sql::all_met(old(conn).calls(), final(conn).calls()) ==> r is Ok,
        r matches Ok(tags) ==> tags.len() == tag_names.len(),
        sql::text_call(final(conn).calls(), old(conn).calls().len() as int, prompt_service::ACTIVE_PROMPT_SQL@, seq![prompt_id@]),
        ({
            let o = final(conn).calls()[old(conn).calls().len() as int].outcome;
            o is Rows && sql::first_row(o) is None ==> r == Err::<Vec<Tag>, AppError>(AppError::NotFound)
        }),
        r is Ok ==> prompt_service::refreshed(old(conn).calls(), final(conn).calls(), prompt_id@),
{
    let ghost n = conn.calls().len() as int;
    prompt_service::ensure_prompt_exists(conn, prompt_id)?;
    let ghost c1 = conn.calls();
    let tags = add_tags_to_prompt_tx(conn, prompt_id, tag_names)?;
    let ghost c2 = conn.calls();
    prompt_service::update_fts_index_tx(conn, prompt_id)?;
    proof {
        assert(conn.calls()[n] == c1[n]);
        assert(prompt_service::indexed(c2, conn.calls(), prompt_id@));
        assert(sql::extends(old(conn).calls(), c2));
    }
    Ok(tags)
}

/// Detaches a tag from a prompt and refreshes the prompt's search entry.
/// Detaching a tag the prompt does not have changes nothing.
pub fn remove_tag_from_prompt(conn: &mut Db, prompt_id: &str, tag_id: &str) -> (r: AppResult<()>)
    ensures
        transaction::in_transaction(old(conn).calls(), final(conn).calls(), r is Ok),
        sql::all_met(old(conn).calls(), final(conn).calls()) ==> r is Ok,
        final(conn).calls().len() > old(conn).calls().len() + 1 ==> sql::text_call(final(conn).calls(), old(conn).calls().len() + 1int, DETACH_TAG_SQL@, seq![prompt_id@, tag_id@]),
        r is Ok ==> prompt_service::refreshed(old(conn).calls(), final(conn).calls().drop_last(), prompt_id@),
        sql::extends(old(conn).calls(), final(conn).calls()),
{
    let ghost s0 = conn.calls();
    if let Err(e) = transaction::begin(conn) {
        proof { transaction::lemma_transaction_shape(s0, conn.calls(), conn.calls(), conn.calls(), false, false); }
        return Err(e);
    }
    let ghost s1 = conn.calls();
    let result = remove_tag_in(conn, prompt_id, tag_id);
    let ghost s2 = conn.calls();
    let r = transaction::finish(conn, result);
    proof {
        transaction::lemma_transaction_shape(s0, s1, s2, conn.calls(), true, r is Ok);
        assert(conn.calls()[s1.len() as int] == s2[s1.len() as int]);
        if r is Ok {
            assert(conn.calls().drop_last() =~= s2);
        }
    }
    r
}

/// Detaches a tag from a prompt.
pub const DETACH_TAG_SQL: &'static str = "DELETE FROM prompt_tags WHERE prompt_id = ?1 AND tag_id = ?2";

fn remove_tag_in(conn: &mut Db, prompt_id: &str, tag_id: &str) -> (r: AppResult<()>)
    ensures
        sql::extends(old(conn).calls(), final(conn).calls()),
        r is Ok ==> sql::writes_ok(old(conn).calls(), final(conn).calls()),
        sql::all_met(old(conn).calls(), final(conn).calls()) ==> r is Ok,
        sql::text_call(final(conn).calls(), old(conn).calls().len() as int, DETACH_TAG_SQL@, seq![prompt_id@, tag_id@]),
        r is Ok ==> final(conn).calls()[old(conn).calls().len() as int].outcome is Changed
            && prompt_service::refreshed(old(conn).calls(), final(conn).calls(), prompt_id@),
{
    let ghost n = conn.calls().len() as int;
    sql::execute(
        conn,
        DETACH_TAG_SQL,
        &sql::params2(sql::text_param(prompt_id), sql::text_param(tag_id)),
    )?;
    let ghost c1 = conn.calls();
    let r = prompt_service::update_fts_index_tx(conn, prompt_id);
    proof {
        assert(conn.calls()[n] == c1[n]);
        if r is Ok {
            assert(prompt_service::indexed(c1, conn.calls(), prompt_id@));
        }
    }
    r
}

}
