use vstd::prelude::*;

use crate::db::sql::{Db, SqlCall, SqlOutcome};

use crate::db::sql::{self, SqlValue};
use crate::error::{AppError, AppResult};
use crate::ids::{new_id, now_rfc3339};
use crate::models::playbook::{
    Playbook, PlaybookSession, PlaybookStep, PlaybookStepWithPrompt, PlaybookWithSteps,
};
use crate::models::prompt::PromptWithVariants;
use crate::services::prompt_service::{self, opt_text_col};
use crate::services::transaction;
use crate::text::{chars_of, join_strings, join_with, trim, opt_view, split_trimmed, split_trimmed_strings, strings_view};

verus! {

broadcast use crate::db::sql::group_calls;

// ---------------------------------------------------------------------
// Reading rows
// ---------------------------------------------------------------------

/// `p` is the playbook a `playbooks` row (id, title, description,
/// created_at, updated_at) describes.
pub open spec fn playbook_row(row: Seq<SqlValue>, p: Playbook) -> bool {
    &&& row.len() == 5
    &&& row[0] == SqlValue::Text(p.id)
    &&& row[1] == SqlValue::Text(p.title)
    &&& opt_text_col(row[2], p.description)
    &&& opt_text_col(row[3], p.created_at)
    &&& opt_text_col(row[4], p.updated_at)
}

/// The choice prompt ids a stored comma-separated list holds.
pub open spec fn stored_choice_ids(v: SqlValue) -> Seq<Seq<char>> {
    match v {
        SqlValue::Text(t) => split_trimmed(t@, ','),
        _ => Seq::empty(),
    }
}

/// `s` is the step a `playbook_steps` row (id, playbook_id, prompt_id,
/// position, step_type, instructions, choice_prompt_ids) describes.
pub open spec fn step_row(row: Seq<SqlValue>, s: PlaybookStep) -> bool {
    &&& row.len() == 7
    &&& row[0] == SqlValue::Text(s.id)
    &&& row[1] == SqlValue::Text(s.playbook_id)
    &&& opt_text_col(row[2], s.prompt_id)
    &&& row[3] == SqlValue::Integer(s.position)
    &&& row[4] == SqlValue::Text(s.step_type)
    &&& opt_text_col(row[5], s.instructions)
    &&& (row[6] is Null || row[6] is Text)
    &&& strings_view(s.choice_prompt_ids@) == stored_choice_ids(row[6])
}

/// Whether a value is text or null.
pub open spec fn text_or_null(v: SqlValue) -> bool {
    v is Text || v is Null
}

/// The columns of a `playbooks` row have the kinds a playbook needs.
pub open spec fn playbook_row_typed(row: Seq<SqlValue>) -> bool {
    row[0] is Text && row[1] is Text && text_or_null(row[2]) && text_or_null(row[3]) && text_or_null(row[4])
}

/// The columns of a `playbook_steps` row have the kinds a step needs.
pub open spec fn step_row_typed(row: Seq<SqlValue>) -> bool {
    &&& row[0] is Text
    &&& row[1] is Text
    &&& text_or_null(row[2])
    &&& row[3] is Integer
    &&& row[4] is Text
    &&& text_or_null(row[5])
    &&& text_or_null(row[6])
}

/// The columns of a `playbook_sessions` row have the kinds a session needs.
pub open spec fn session_row_typed(row: Seq<SqlValue>) -> bool {
    row[0] is Integer && text_or_null(row[1]) && row[2] is Integer && text_or_null(row[3])
}

pub fn playbook_from_row(row: &Vec<SqlValue>) -> (r: AppResult<Playbook>)
    requires
        row.len() == 5,
    ensures
        r is Ok <==> playbook_row_typed(row@),
        r matches Ok(p) ==> playbook_row(row@, p),
{
    Ok(Playbook {
        id: sql::col_text(row, 0)?,
        title: sql::col_text(row, 1)?,
        description: sql::col_opt_text(row, 2)?,
        created_at: sql::col_opt_text(row, 3)?,
        updated_at: sql::col_opt_text(row, 4)?,
    })
}

/// The ids a stored comma-separated list holds: its non-empty trimmed pieces.
pub fn parse_choice_ids(stored: &Option<String>) -> (r: Vec<String>)
    ensures
        strings_view(r@) == (match stored { Some(t) => split_trimmed(t@, ','), None => Seq::empty() }),
{
    match stored {
        Some(t) => {
            let cs = chars_of(t.as_str());
            split_trimmed_strings(cs.as_slice(), ',')
        }
        None => Vec::new(),
    }
}

pub fn step_from_row(row: &Vec<SqlValue>) -> (r: AppResult<PlaybookStep>)
    requires
        row.len() == 7,
    ensures
        r is Ok <==> step_row_typed(row@),
        r matches Ok(s) ==> step_row(row@, s),
{
    let stored = sql::col_opt_text(row, 6)?;
    Ok(PlaybookStep {
        id: sql::col_text(row, 0)?,
        playbook_id: sql::col_text(row, 1)?,
        prompt_id: sql::col_opt_text(row, 2)?,
        position: sql::col_int(row, 3)?,
        step_type: sql::col_text(row, 4)?,
        instructions: sql::col_opt_text(row, 5)?,
        choice_prompt_ids: parse_choice_ids(&stored),
    })
}

pub fn session_from_row(row: &Vec<SqlValue>) -> (r: AppResult<PlaybookSession>)
    requires
        row.len() == 4,
    ensures
        r is Ok <==> session_row_typed(row@),
        r matches Ok(s) ==> row@[0] == SqlValue::Integer(s.id)
            && opt_text_col(row@[1], s.active_playbook_id)
            && row@[2] == SqlValue::Integer(s.current_step)
            && opt_text_col(row@[3], s.started_at),
{
    Ok(PlaybookSession {
        id: sql::col_int(row, 0)?,
        active_playbook_id: sql::col_opt_text(row, 1)?,
        current_step: sql::col_int(row, 2)?,
        started_at: sql::col_opt_text(row, 3)?,
    })
}

// ---------------------------------------------------------------------
// Playbooks
// ---------------------------------------------------------------------

/// Creates a playbook, in one transaction.
pub fn create_playbook(conn: &mut Db, title: &str, description: Option<&str>) -> (r: AppResult<Playbook>)
    ensures
        transaction::in_transaction(old(conn).calls(), final(conn).calls(), r is Ok),
        final(conn).calls().len() > old(conn).calls().len() + 1 ==> final(conn).calls()[old(conn).calls().len() + 1int].sql == INSERT_PLAYBOOK_SQL@,
        r matches Ok(pb) ==> final(conn).calls().len() == old(conn).calls().len() + 3 && sql::text_is(final(conn).calls()[old(conn).calls().len() + 1int].params[1], title@),
        sql::extends(old(conn).calls(), final(conn).calls()),
        r is Ok ==> sql::writes_ok(old(conn).calls(), final(conn).calls()),
        sql::all_met(old(conn).calls(), final(conn).calls()) ==> r is Ok,
        r matches Ok(p) ==> created_playbook(p, title@, description),
{
    let ghost s0 = conn.calls();
    if let Err(e) = transaction::begin(conn) {
        proof { transaction::lemma_transaction_shape(s0, conn.calls(), conn.calls(), conn.calls(), false, false); }
        return Err(e);
    }
    let ghost s1 = conn.calls();
    let result = create_playbook_tx(conn, title, description);
    let ghost s2 = conn.calls();
    let r = transaction::finish(conn, result);
    proof {
        transaction::lemma_transaction_shape(s0, s1, s2, conn.calls(), true, r is Ok);
        assert(conn.calls()[s1.len() as int] == s2[s1.len() as int]);
        if r is Ok {
            assert(conn.calls().drop_last() =~= s2);
        }
    }
    r
}

/// `p` is a new playbook with this title and description.
pub open spec fn created_playbook(p: Playbook, title: Seq<char>, description: Option<&str>) -> bool {
    &&& p.title@ == title
    &&& match description {
        Some(d) => p.description matches Some(pd) && pd@ == d@,
        None => p.description is None,
    }
    &&& p.created_at is Some
    &&& p.created_at == p.updated_at
    &&& p.id@.len() == 36
}

/// Inserts a playbook.
pub const INSERT_PLAYBOOK_SQL: &'static str = "INSERT INTO playbooks (id, title, description, created_at, updated_at)
         VALUES (?1, ?2, ?3, ?4, ?4)";

pub fn create_playbook_tx(conn: &mut Db, title: &str, description: Option<&str>) -> (r: AppResult<Playbook>)
    ensures
        sql::extends(old(conn).calls(), final(conn).calls()),
        r is Ok ==> sql::writes_ok(old(conn).calls(), final(conn).calls()),
        sql::all_met(old(conn).calls(), final(conn).calls()) ==> r is Ok,
        r matches Ok(p) ==> created_playbook(p, title@, description),
        final(conn).calls().len() == old(conn).calls().len() + 1,
        final(conn).calls().last().sql == INSERT_PLAYBOOK_SQL@,
        final(conn).calls().last().params.len() == 4,
        sql::text_is(final(conn).calls().last().params[1], title@),
        sql::opt_text_is(final(conn).calls().last().params[2], prompt_service::opt_str_view(description)),
        r is Ok <==> final(conn).calls().last().outcome is Changed,
        r matches Ok(p) ==> sql::text_is(final(conn).calls().last().params[0], p.id@),
{
    let id = new_id();
    let now = now_rfc3339();
    sql::execute(
        conn,
        INSERT_PLAYBOOK_SQL,
        &sql::params4(sql::text_param(id.as_str()), sql::text_param(title), sql::opt_text_param(description), sql::text_param(now.as_str())),
    )?;
    let description = match description {
        Some(d) => Some(d.to_string()),
        None => None,
    };
    Ok(Playbook {
        id,
        title: title.to_string(),
        description,
        created_at: Some(now.clone()),
        updated_at: Some(now),
    })
}

/// Reading the prompts `ids`, one lookup each from the positions `starts`,
/// in order, found `found`: the prompts whose lookups answered a row, in
/// the order of their ids (a lookup that answered no row adds nothing).
pub open spec fn choices_read(calls: Seq<SqlCall>, starts: Seq<int>, ids: Seq<Seq<char>>, found: Seq<PromptWithVariants>) -> bool
    decreases ids.len(),
{
    if ids.len() == 0 {
        starts.len() == 0 && found.len() == 0
    } else if starts.len() != ids.len() {
        false
    } else if prompt_service::prompt_missing_at(calls, starts.last(), ids.last()) {
        choices_read(calls, starts.drop_last(), ids.drop_last(), found)
    } else {
        &&& found.len() > 0
        &&& prompt_service::prompt_read_at(calls, starts.last(), ids.last(), found.last())
        &&& choices_read(calls, starts.drop_last(), ids.drop_last(), found.drop_last())
    }
}

/// `h` is `step` with the prompts its lookups answered, the first from
/// position `n`: its own prompt, read by its `prompt_id` (none when it has
/// no prompt id or the prompt no longer exists), and the choice prompts read
/// by its choice ids, in order.
pub open spec fn step_hydrated(calls: Seq<SqlCall>, n: int, step: PlaybookStep, h: PlaybookStepWithPrompt) -> bool {
    &&& h.step == step
    &&& match step.prompt_id {
        Some(pid) => match h.prompt {
            Some(p) => prompt_service::prompt_read_at(calls, n, pid@, p),
            None => prompt_service::prompt_missing_at(calls, n, pid@),
        },
        None => h.prompt is None,
    }
    &&& exists|starts: Seq<int>| choices_read(calls, starts, strings_view(step.choice_prompt_ids@), h.choice_prompts@)
}

/// Later statements leave what earlier prompt lookups answered unchanged.
proof fn lemma_choices_read_stable(a: Seq<SqlCall>, b: Seq<SqlCall>, starts: Seq<int>, ids: Seq<Seq<char>>, found: Seq<PromptWithVariants>)
    requires
        sql::extends(a, b),
        choices_read(a, starts, ids, found),
    ensures
        choices_read(b, starts, ids, found),
    decreases ids.len(),
{
    if ids.len() > 0 {
        let i = starts.last();
        if prompt_service::prompt_missing_at(a, i, ids.last()) {
            prompt_service::lemma_prompt_missing_stable(a, b, i, ids.last());
            lemma_choices_read_stable(a, b, starts.drop_last(), ids.drop_last(), found);
        } else {
            prompt_service::lemma_prompt_read_stable(a, b, i, ids.last(), found.last());
            assert(b[i] == a[i]);
            lemma_choices_read_stable(a, b, starts.drop_last(), ids.drop_last(), found.drop_last());
        }
    }
}

/// Later statements leave what a step's lookups answered unchanged.
proof fn lemma_step_hydrated_stable(a: Seq<SqlCall>, b: Seq<SqlCall>, n: int, step: PlaybookStep, h: PlaybookStepWithPrompt)
    requires
        sql::extends(a, b),
        step_hydrated(a, n, step, h),
    ensures
        step_hydrated(b, n, step, h),
{
    if let Some(pid) = step.prompt_id {
        match h.prompt {
            Some(p) => prompt_service::lemma_prompt_read_stable(a, b, n, pid@, p),
            None => prompt_service::lemma_prompt_missing_stable(a, b, n, pid@),
        }
    }
    let starts = choose|starts: Seq<int>| choices_read(a, starts, strings_view(step.choice_prompt_ids@), h.choice_prompts@);
    lemma_choices_read_stable(a, b, starts, strings_view(step.choice_prompt_ids@), h.choice_prompts@);
}

/// An active prompt, or `None` when it does not exist (or was deleted): the
/// reads of `prompt_service::get_prompt_by_id`.
fn optional_prompt(conn: &mut Db, prompt_id: &str) -> (r: AppResult<Option<PromptWithVariants>>)
    ensures
        sql::extends(old(conn).calls(), final(conn).calls()),
        r is Ok ==> sql::writes_ok(old(conn).calls(), final(conn).calls()),
        sql::all_met(old(conn).calls(), final(conn).calls()) ==> r is Ok,
        r matches Err(e) ==> !(e is NotFound),
        r matches Ok(Some(p)) ==> prompt_service::prompt_read_at(final(conn).calls(), old(conn).calls().len() as int, prompt_id@, p),
        r matches Ok(None) ==> prompt_service::prompt_missing_at(final(conn).calls(), old(conn).calls().len() as int, prompt_id@),
{
    match prompt_service::get_prompt_by_id(conn, prompt_id) {
        Ok(prompt) => Ok(Some(prompt)),
        Err(AppError::NotFound) => Ok(None),
        Err(error) => Err(error),
    }
}

/// A step with its prompt and its choice prompts (those that still exist).
fn hydrate_step(conn: &mut Db, step: PlaybookStep) -> (r: AppResult<PlaybookStepWithPrompt>)
    ensures
        sql::extends(old(conn).calls(), final(conn).calls()),
        r is Ok ==> sql::writes_ok(old(conn).calls(), final(conn).calls()),
        sql::all_met(old(conn).calls(), final(conn).calls()) ==> r is Ok,
        r matches Ok(h) ==> step_hydrated(final(conn).calls(), old(conn).calls().len() as int, step, h),
{
    let ghost n = conn.calls().len() as int;
    let ghost the_step = step;
    let prompt = match &step.prompt_id {
        Some(prompt_id) => optional_prompt(conn, prompt_id.as_str())?,
        None => None,
    };
    let ghost c1 = conn.calls();
    let ghost ids = strings_view(step.choice_prompt_ids@);
    let ghost mut starts: Seq<int> = Seq::empty();
    let mut choice_prompts: Vec<PromptWithVariants> = Vec::new();
    proof { assert(ids.take(0) =~= Seq::<Seq<char>>::empty()); }
    for i in 0..step.choice_prompt_ids.len()
        invariant
            sql::extends(old(conn).calls(), conn.calls()),
            sql::extends(c1, conn.calls()),
            sql::writes_ok(old(conn).calls(), conn.calls()),
            n == old(conn).calls().len(),
            step == the_step,
            ids == strings_view(step.choice_prompt_ids@),
            ids.len() == step.choice_prompt_ids.len(),
            match step.prompt_id {
                Some(pid) => match prompt {
                    Some(p) => prompt_service::prompt_read_at(c1, n, pid@, p),
                    None => prompt_service::prompt_missing_at(c1, n, pid@),
                },
                None => prompt is None,
            },
            choices_read(conn.calls(), starts, ids.take(i as int), choice_prompts@),
    {
        let ghost before = conn.calls();
        let ghost prev = choice_prompts@;
        let found = optional_prompt(conn, step.choice_prompt_ids[i].as_str())?;
        let ghost gf = found;
        proof {
            lemma_choices_read_stable(before, conn.calls(), starts, ids.take(i as int), prev);
        }
        if let Some(p) = found {
            choice_prompts.push(p);
        }
        proof {
            let s_new = starts.push(before.len() as int);
            let idn = ids.take(i + 1);
            assert(s_new.drop_last() =~= starts);
            assert(idn.drop_last() =~= ids.take(i as int));
            assert(idn.last() == step.choice_prompt_ids@[i as int]@);
            if gf is Some {
                assert(choice_prompts@.drop_last() =~= prev);
                assert(!prompt_service::prompt_missing_at(conn.calls(), s_new.last(), idn.last()));
            }
            assert(choices_read(conn.calls(), s_new, idn, choice_prompts@));
            starts = s_new;
        }
    }
    proof {
        assert(ids.take(ids.len() as int) =~= ids);
        assert(choices_read(conn.calls(), starts, ids, choice_prompts@));
        let gp = the_step.prompt_id;
        let gq = prompt;
        if gp is Some {
            if gq is Some {
                prompt_service::lemma_prompt_read_stable(c1, conn.calls(), n, gp->0@, gq->0);
            } else {
                prompt_service::lemma_prompt_missing_stable(c1, conn.calls(), n, gp->0@);
            }
        }
    }
    let h = PlaybookStepWithPrompt { step, prompt, choice_prompts };
    proof {
        assert(h.step == the_step);
        assert(choices_read(conn.calls(), starts, strings_view(the_step.choice_prompt_ids@), h.choice_prompts@));
        assert(step_hydrated(conn.calls(), n, the_step, h));
    }
    Ok(h)
}

/// Reads one playbook.
pub const PLAYBOOK_SQL: &'static str = "SELECT id, title, description, created_at, updated_at
         FROM playbooks WHERE id = ?1";

/// Reads a playbook's steps, first position first.
pub const PLAYBOOK_STEPS_SQL: &'static str = "SELECT id, playbook_id, prompt_id, position, step_type, instructions,
                choice_prompt_ids
         FROM playbook_steps
         WHERE playbook_id = ?1
         ORDER BY position";

/// Every playbook, most recently updated first.
pub const LIST_PLAYBOOKS_SQL: &'static str = "SELECT id, title, description, created_at, updated_at
         FROM playbooks
         ORDER BY updated_at DESC";

/// A playbook with its steps in position order, each with its prompt data.
pub fn get_playbook(conn: &mut Db, id: &str) -> (r: AppResult<PlaybookWithSteps>)
    ensures
        sql::extends(old(conn).calls(), final(conn).calls()),
        r is Ok ==> sql::writes_ok(old(conn).calls(), final(conn).calls()),
        sql::all_met(old(conn).calls(), final(conn).calls()) ==> r is Ok,
        r matches Ok(p) ==> forall|i: int| 0 <= i < p.steps.len()
            ==> exists|m: int| step_hydrated(final(conn).calls(), m, (#[trigger] p.steps[i]).step, p.steps[i]),
        sql::text_call(final(conn).calls(), old(conn).calls().len() as int, PLAYBOOK_SQL@, seq![id@]),
        ({
            let o = final(conn).calls()[old(conn).calls().len() as int].outcome;
            o is Rows && sql::first_row(o) is None
                ==> r == Err::<PlaybookWithSteps, AppError>(AppError::NotFound) && final(conn).calls().len() == old(conn).calls().len() + 1
        }),
        r matches Ok(p) ==> {
            let n = old(conn).calls().len() as int;
            let calls = final(conn).calls();
            &&& sql::first_row(calls[n].outcome) matches Some(row) && playbook_row(row, p.playbook)
            &&& sql::text_call(calls, n + 1, PLAYBOOK_STEPS_SQL@, seq![id@])
            &&& calls[n + 1].outcome matches sql::SqlOutcome::Rows(rows)
                && p.steps.len() == rows.len()
                && forall|i: int| 0 <= i < rows.len() ==> step_row(rows[i], (#[trigger] p.steps[i]).step)
        },
{
    let ghost n = conn.calls().len() as int;
    let row = sql::query_one(
        conn,
        PLAYBOOK_SQL,
        &sql::params1(sql::text_param(id)),
        &[sql::Kind::Text, sql::Kind::Text, sql::Kind::OptText, sql::Kind::OptText, sql::Kind::OptText])?;
    let ghost c1 = conn.calls();
    let playbook = playbook_from_row(&row)?;

    let rows = sql::query_all(
        conn,
        PLAYBOOK_STEPS_SQL,
        &sql::params1(sql::text_param(id)),
        &[sql::Kind::Text, sql::Kind::Text, sql::Kind::OptText, sql::Kind::Int, sql::Kind::Text, sql::Kind::OptText, sql::Kind::OptText])?;
    let ghost c2 = conn.calls();
    let ghost step_rows = sql::rows_view(rows@);
    let mut steps: Vec<PlaybookStepWithPrompt> = Vec::new();
    for i in 0..rows.len()
        invariant
            sql::extends(old(conn).calls(), conn.calls()),
            forall|k: int| 0 <= k < rows.len() ==> #[trigger] rows[k].len() == 7,
            forall|k: int| 0 <= k < steps.len()
                ==> exists|m: int| step_hydrated(conn.calls(), m, (#[trigger] steps[k]).step, steps[k]),
            sql::writes_ok(old(conn).calls(), conn.calls()),
            sql::rows_fit(step_rows, seq![sql::Kind::Text, sql::Kind::Text, sql::Kind::OptText, sql::Kind::Int, sql::Kind::Text, sql::Kind::OptText, sql::Kind::OptText]),
            playbook_row(row@, playbook),
            sql::extends(c2, conn.calls()),
            c2.len() == n + 2,
            n == old(conn).calls().len(),
            sql::first_row(c2[n].outcome) == Some(row@),
            sql::text_call(c2, n, PLAYBOOK_SQL@, seq![id@]),
            sql::text_call(c2, n + 1, PLAYBOOK_STEPS_SQL@, seq![id@]),
            c2[n + 1].outcome == sql::SqlOutcome::Rows(step_rows),
            step_rows == sql::rows_view(rows@),
            steps.len() == i,
            forall|k: int| 0 <= k < steps.len() ==> step_row(step_rows[k], (#[trigger] steps[k]).step),
    {
        proof { assert(step_rows[i as int] == rows@[i as int]@); }
        let step = step_from_row(&rows[i])?;
        let ghost step_row_view = rows[i as int]@;
        let ghost before = conn.calls();
        let ghost prev = steps@;
        let hydrated = hydrate_step(conn, step)?;
        proof {
            assert(step_row(step_row_view, hydrated.step));
            assert(step_rows[i as int] == step_row_view);
        }
        steps.push(hydrated);
        proof {
            assert forall|k: int| 0 <= k < steps.len()
                implies exists|m: int| step_hydrated(conn.calls(), m, (#[trigger] steps@[k]).step, steps@[k]) by {
                if k < i {
                    assert(steps@[k] == prev[k]);
                    let m = choose|m: int| step_hydrated(before, m, prev[k].step, prev[k]);
                    lemma_step_hydrated_stable(before, conn.calls(), m, prev[k].step, prev[k]);
                } else {
                    assert(step_hydrated(conn.calls(), before.len() as int, steps@[k].step, steps@[k]));
                }
            }
        }
    }
    Ok(PlaybookWithSteps { playbook, steps })
}

/// Every playbook, most recently updated first.
pub fn list_playbooks(conn: &mut Db) -> (r: AppResult<Vec<Playbook>>)
    ensures
        sql::extends(old(conn).calls(), final(conn).calls()),
        r is Ok ==> sql::writes_ok(old(conn).calls(), final(conn).calls()),
        sql::all_met(old(conn).calls(), final(conn).calls()) ==> r is Ok,
        final(conn).calls().len() == old(conn).calls().len() + 1,
        sql::text_call(final(conn).calls(), old(conn).calls().len() as int, LIST_PLAYBOOKS_SQL@, seq![]),
        r matches Ok(v) ==> final(conn).calls().last().outcome matches SqlOutcome::Rows(rows)
            && v.len() == rows.len() && forall|i: int| 0 <= i < rows.len() ==> playbook_row(rows[i], #[trigger] v[i]),
{
    let rows = sql::query_all(conn, LIST_PLAYBOOKS_SQL, &Vec::new(), &[sql::Kind::Text, sql::Kind::Text, sql::Kind::OptText, sql::Kind::OptText, sql::Kind::OptText])?;
    let ghost answered = sql::rows_view(rows@);
    let mut playbooks: Vec<Playbook> = Vec::new();
    for i in 0..rows.len()
        invariant
            sql::extends(old(conn).calls(), conn.calls()),
            forall|k: int| 0 <= k < rows.len() ==> #[trigger] rows[k].len() == 5,
            answered == sql::rows_view(rows@),
            conn.calls().len() == old(conn).calls().len() + 1,
            sql::text_call(conn.calls(), old(conn).calls().len() as int, LIST_PLAYBOOKS_SQL@, seq![]),
            conn.calls().last().outcome == SqlOutcome::Rows(answered),
            playbooks.len() == i,
            forall|k: int| 0 <= k < i ==> playbook_row(answered[k], #[trigger] playbooks@[k]),
            sql::rows_fit(answered, seq![sql::Kind::Text, sql::Kind::Text, sql::Kind::OptText, sql::Kind::OptText, sql::Kind::OptText]),
    {
        proof { assert(answered[i as int] == rows@[i as int]@); }
        playbooks.push(playbook_from_row(&rows[i])?);
    }
    Ok(playbooks)
}

/// Sets the given fields of a playbook (or only refreshes its timestamp), in one transaction.
pub fn update_playbook(conn: &mut Db, id: &str, title: Option<&str>, description: Option<&str>) -> (r: AppResult<()>)
    ensures
        transaction::in_transaction(old(conn).calls(), final(conn).calls(), r is Ok),
        sql::all_met(old(conn).calls(), final(conn).calls()) ==> r is Ok,
        final(conn).calls().len() > old(conn).calls().len() + 1 ==> sql::text_call(final(conn).calls(), old(conn).calls().len() + 1int, PLAYBOOK_EXISTS_SQL@, seq![id@]),
        r is Ok ==> playbook_updated(final(conn).calls().drop_last(), old(conn).calls().len() + 1int, id@, prompt_service::opt_str_view(title), prompt_service::opt_str_view(description)),
        sql::extends(old(conn).calls(), final(conn).calls()),
{
    let ghost s0 = conn.calls();
    if let Err(e) = transaction::begin(conn) {
        proof { transaction::lemma_transaction_shape(s0, conn.calls(), conn.calls(), conn.calls(), false, false); }
        return Err(e);
    }
    let ghost s1 = conn.calls();
    let result = update_playbook_tx(conn, id, title, description);
    let ghost s2 = conn.calls();
    let r = transaction::finish(conn, result);
    proof {
        transaction::lemma_transaction_shape(s0, s1, s2, conn.calls(), true, r is Ok);
        assert(conn.calls()[s1.len() as int] == s2[s1.len() as int]);
        if r is Ok {
            assert(conn.calls().drop_last() =~= s2);
        }
    }
    r
}

/// Sets a playbook's title.
pub const SET_PLAYBOOK_TITLE_SQL: &'static str = "UPDATE playbooks SET title = ?1, updated_at = ?2 WHERE id = ?3";

/// Sets a playbook's description.
pub const SET_PLAYBOOK_DESCRIPTION_SQL: &'static str = "UPDATE playbooks SET description = ?1, updated_at = ?2 WHERE id = ?3";

/// `call` writes `value` and a timestamp into a column of playbook `id`,
/// on exactly one row.
pub open spec fn sets_field(call: SqlCall, sql: Seq<char>, value: Seq<char>, id: Seq<char>) -> bool {
    &&& call.sql == sql
    &&& call.params.len() == 3
    &&& sql::text_is(call.params[0], value)
    &&& call.params[1] is Text
    &&& sql::text_is(call.params[2], id)
    &&& call.outcome == SqlOutcome::Changed(1)
}

/// What updating playbook `id` wrote from position `n`, after finding it:
/// the title when given, then the description when given, or only the
/// timestamp when neither is.
pub open spec fn playbook_updated(calls: Seq<SqlCall>, n: int, id: Seq<char>, title: Option<Seq<char>>, description: Option<Seq<char>>) -> bool {
    let k = n + 1 + (if title is Some { 1int } else { 0int });
    &&& sql::text_call(calls, n, PLAYBOOK_EXISTS_SQL@, seq![id])
    &&& sql::met(calls[n])
    &&& (title matches Some(t) ==> sets_field(calls[n + 1], SET_PLAYBOOK_TITLE_SQL@, t, id))
    &&& (description matches Some(d) ==> sets_field(calls[k], SET_PLAYBOOK_DESCRIPTION_SQL@, d, id))
    &&& (title is None && description is None ==> prompt_service::stamped_write(calls[n + 1], TOUCH_PLAYBOOK_SQL@, id))
    &&& calls.len() == n + 1 + (if title is Some { 1int } else { 0int }) + (if description is Some { 1int } else { 0int })
        + (if title is None && description is None { 1int } else { 0int })
}

pub fn update_playbook_tx(conn: &mut Db, id: &str, title: Option<&str>, description: Option<&str>) -> (r: AppResult<()>)
    ensures
        sql::extends(old(conn).calls(), final(conn).calls()),
        r is Ok ==> sql::writes_ok(old(conn).calls(), final(conn).calls()),
        sql::all_met(old(conn).calls(), final(conn).calls()) ==> r is Ok,
        sql::text_call(final(conn).calls(), old(conn).calls().len() as int, PLAYBOOK_EXISTS_SQL@, seq![id@]),
        ({
            let o = final(conn).calls()[old(conn).calls().len() as int].outcome;
            o is Rows && sql::first_row(o) is None ==> r == Err::<(), AppError>(AppError::NotFound)
        }),
        r is Ok ==> playbook_updated(final(conn).calls(), old(conn).calls().len() as int, id@,
            prompt_service::opt_str_view(title), prompt_service::opt_str_view(description)),
{
    let ghost n = conn.calls().len() as int;
    ensure_playbook_exists(conn, id)?;
    let ghost c1 = conn.calls();
    let now = now_rfc3339();
    if let Some(title) = title {
        sql::execute_one(
            conn,
            SET_PLAYBOOK_TITLE_SQL,
            &sql::params3(sql::text_param(title), sql::text_param(now.as_str()), sql::text_param(id)),
        )?;
    }
    let ghost c2 = conn.calls();
    if let Some(description) = description {
        sql::execute_one(
            conn,
            SET_PLAYBOOK_DESCRIPTION_SQL,
            &sql::params3(sql::text_param(description), sql::text_param(now.as_str()), sql::text_param(id)),
        )?;
    }
    let ghost c3 = conn.calls();
    if title.is_none() && description.is_none() {
        sql::execute_one(
            conn,
            TOUCH_PLAYBOOK_SQL,
            &sql::params2(sql::text_param(now.as_str()), sql::text_param(id)),
        )?;
    }
    proof {
        assert(conn.calls()[n] == c1[n]);
        if title is Some { assert(conn.calls()[n + 1] == c2[n + 1]); }
        if description is Some { assert(conn.calls()[c2.len() as int] == c3[c2.len() as int]); }
    }
    Ok(())
}

/// Deletes a playbook (its steps go with it), in one transaction.
pub fn delete_playbook(conn: &mut Db, id: &str) -> (r: AppResult<()>)
    ensures
        transaction::in_transaction(old(conn).calls(), final(conn).calls(), r is Ok),
        sql::all_met(old(conn).calls(), final(conn).calls()) ==> r is Ok,
        final(conn).calls().len() > old(conn).calls().len() + 1 ==> sql::text_call(final(conn).calls(), old(conn).calls().len() + 1int, DELETE_PLAYBOOK_SQL@, seq![id@]),
        r is Ok ==> final(conn).calls().len() == old(conn).calls().len() + 3 && final(conn).calls()[old(conn).calls().len() + 1int].outcome == SqlOutcome::Changed(1),
        sql::extends(old(conn).calls(), final(conn).calls()),
{
    let ghost s0 = conn.calls();
    if let Err(e) = transaction::begin(conn) {
        proof { transaction::lemma_transaction_shape(s0, conn.calls(), conn.calls(), conn.calls(), false, false); }
        return Err(e);
    }
    let ghost s1 = conn.calls();
    let result = delete_playbook_tx(conn, id);
    let ghost s2 = conn.calls();
    let r = transaction::finish(conn, result);
    proof {
        transaction::lemma_transaction_shape(s0, s1, s2, conn.calls(), true, r is Ok);
        assert(conn.calls()[s1.len() as int] == s2[s1.len() as int]);
        if r is Ok {
            assert(conn.calls().drop_last() =~= s2);
        }
    }
    r
}

/// Deletes one playbook.
pub const DELETE_PLAYBOOK_SQL: &'static str = "DELETE FROM playbooks WHERE id = ?1";

fn delete_playbook_tx(conn: &mut Db, id: &str) -> (r: AppResult<()>)
    ensures
        sql::extends(old(conn).calls(), final(conn).calls()),
        r is Ok ==> sql::writes_ok(old(conn).calls(), final(conn).calls()),
        sql::all_met(old(conn).calls(), final(conn).calls()) ==> r is Ok,
        final(conn).calls().len() == old(conn).calls().len() + 1,
        sql::text_call(final(conn).calls(), old(conn).calls().len() as int, DELETE_PLAYBOOK_SQL@, seq![id@]),
        r is Ok <==> final(conn).calls().last().outcome == SqlOutcome::Changed(1),
        final(conn).calls().last().outcome == SqlOutcome::Changed(0) ==> r == Err::<(), AppError>(AppError::NotFound),
{
    let r = sql::execute_one(conn, DELETE_PLAYBOOK_SQL, &sql::params1(sql::text_param(id)));
    r
}

// ---------------------------------------------------------------------
// Steps
// ---------------------------------------------------------------------

/// `step` is what adding or rewriting a step with these values returns.
pub open spec fn step_as_given(
    step: PlaybookStep,
    playbook_id: Seq<char>,
    prompt_id: Option<&str>,
    step_type: Seq<char>,
    instructions: Option<&str>,
    choice_prompt_ids: Option<Vec<String>>,
) -> bool {
    &&& step.playbook_id@ == playbook_id
    &&& match prompt_id {
        Some(p) => step.prompt_id matches Some(sp) && sp@ == p@,
        None => step.prompt_id is None,
    }
    &&& step.step_type@ == step_type
    &&& match instructions {
        Some(t) => step.instructions matches Some(si) && si@ == t@,
        None => step.instructions is None,
    }
    &&& match choice_prompt_ids {
        Some(ids) => step.choice_prompt_ids@ == ids@,
        None => step.choice_prompt_ids@.len() == 0,
    }
}

fn opt_string(s: Option<&str>) -> (r: Option<String>)
    ensures
        match s {
            Some(t) => r matches Some(u) && u@ == t@,
            None => r is None,
        },
{
    match s {
        Some(t) => Some(t.to_string()),
        None => None,
    }
}

/// The stored form of a choice list: its ids joined by commas.
/// The value a step's choice list is stored as: the ids joined by commas,
/// or NULL when no list is given.
pub open spec fn choices_stored(v: SqlValue, choice_prompt_ids: Option<Vec<String>>) -> bool {
    match choice_prompt_ids {
        Some(ids) => v matches SqlValue::Text(t) && t@ == join_with(strings_view(ids@), ','),
        None => v is Null,
    }
}

/// What a step stores as its choice list reads back as the list it was
/// given (and the updated step returns), when every id is non-empty, holds
/// no comma and no surrounding whitespace; no list stored reads as none.
pub proof fn lemma_stored_choices_read_back(v: SqlValue, choice_prompt_ids: Option<Vec<String>>)
    requires
        choices_stored(v, choice_prompt_ids),
        choice_prompt_ids matches Some(ids) ==> {
            &&& forall|i: int| 0 <= i < ids.len() ==> (#[trigger] ids@[i])@.len() > 0 && trim(ids@[i]@) == ids@[i]@
            &&& forall|i: int, j: int| 0 <= i < ids.len() && 0 <= j < ids@[i]@.len() ==> #[trigger] ids@[i]@[j] != ','
        },
    ensures
        stored_choice_ids(v) == match choice_prompt_ids {
            Some(ids) => strings_view(ids@),
            None => Seq::empty(),
        },
{
    if let Some(ids) = choice_prompt_ids {
        let sv = strings_view(ids@);
        assert forall|i: int| 0 <= i < sv.len() implies (#[trigger] sv[i]).len() > 0 && trim(sv[i]) == sv[i] by {
            assert(sv[i] == ids@[i]@);
        }
        assert forall|i: int, j: int| 0 <= i < sv.len() && 0 <= j < sv[i].len() implies #[trigger] sv[i][j] != ',' by {
            assert(sv[i] == ids@[i]@);
        }
        crate::text::lemma_join_then_split_trimmed(sv, ',');
    }
}

fn stored_choice_list(choice_prompt_ids: &Option<Vec<String>>) -> (r: SqlValue)
    ensures
        choices_stored(r, *choice_prompt_ids),
        match choice_prompt_ids {
            Some(ids) => r matches SqlValue::Text(t) && t@ == join_with(strings_view(ids@), ','),
            None => r is Null,
        },
{
    match choice_prompt_ids {
        Some(ids) => SqlValue::Text(join_strings(ids, ',')),
        None => SqlValue::Null,
    }
}

/// Appends a step after the playbook's last one, in one transaction.
pub fn add_step(
    conn: &mut Db,
    playbook_id: &str,
    prompt_id: Option<&str>,
    step_type: &str,
    instructions: Option<&str>,
    choice_prompt_ids: Option<Vec<String>>,
) -> (r: AppResult<PlaybookStep>)
    ensures
        transaction::in_transaction(old(conn).calls(), final(conn).calls(), r is Ok),
        final(conn).calls().len() > old(conn).calls().len() + 1 ==> sql::text_call(final(conn).calls(), old(conn).calls().len() + 1int, PLAYBOOK_EXISTS_SQL@, seq![playbook_id@]),
        r matches Ok(step) ==> step_added(final(conn).calls().drop_last(), old(conn).calls().len() + 1int, playbook_id@, step),
        r is Ok ==> choices_stored(final(conn).calls()[old(conn).calls().len() + 3int].params[6], choice_prompt_ids),
        sql::extends(old(conn).calls(), final(conn).calls()),
        r is Ok ==> sql::writes_ok(old(conn).calls(), final(conn).calls()),
        sql::all_met(old(conn).calls(), final(conn).calls()) ==> r is Ok,
        r matches Ok(step) ==> step_as_given(step, playbook_id@, prompt_id, step_type@, instructions, choice_prompt_ids)
            && step.position >= 0,
{
    let ghost s0 = conn.calls();
    if let Err(e) = transaction::begin(conn) {
        proof { transaction::lemma_transaction_shape(s0, conn.calls(), conn.calls(), conn.calls(), false, false); }
        return Err(e);
    }
    let ghost s1 = conn.calls();
    let result = add_step_tx(conn, playbook_id, prompt_id, step_type, instructions, choice_prompt_ids);
    let ghost s2 = conn.calls();
    let r = transaction::finish(conn, result);
    proof {
        transaction::lemma_transaction_shape(s0, s1, s2, conn.calls(), true, r is Ok);
        assert(conn.calls()[s1.len() as int] == s2[s1.len() as int]);
        if r is Ok {
            assert(conn.calls().drop_last() =~= s2);
        }
    }
    r
}

/// Reads the position after a playbook's last step.
pub const NEXT_STEP_POSITION_SQL: &'static str = "SELECT COALESCE(MAX(position), -1) + 1
         FROM playbook_steps WHERE playbook_id = ?1";

/// Inserts a step.
pub const INSERT_STEP_SQL: &'static str = "INSERT INTO playbook_steps
            (id, playbook_id, prompt_id, position, step_type, instructions, choice_prompt_ids)
         VALUES (?1, ?2, ?3, ?4, ?5, ?6, ?7)";

/// What adding `step` to playbook `playbook_id` did from position `n`: the
/// playbook was found, the next position read, the step inserted at that
/// position with its values, and the playbook's timestamp refreshed.
pub open spec fn step_added(calls: Seq<SqlCall>, n: int, playbook_id: Seq<char>, step: PlaybookStep) -> bool {
    let w = calls[n + 2];
    &&& calls.len() == n + 4
    &&& sql::met(calls[n])
    &&& sql::text_call(calls, n + 1, NEXT_STEP_POSITION_SQL@, seq![playbook_id])
    &&& sql::first_row(calls[n + 1].outcome) matches Some(row) && row[0] == SqlValue::Integer(step.position)
    &&& w.sql == INSERT_STEP_SQL@
    &&& w.params.len() == 7
    &&& sql::text_is(w.params[0], step.id@)
    &&& sql::text_is(w.params[1], playbook_id)
    &&& sql::opt_text_is(w.params[2], opt_view(step.prompt_id))
    &&& w.params[3] == SqlValue::Integer(step.position)
    &&& sql::text_is(w.params[4], step.step_type@)
    &&& sql::opt_text_is(w.params[5], opt_view(step.instructions))
    &&& w.outcome is Changed
    &&& stamped_last(calls, TOUCH_PLAYBOOK_SQL@, playbook_id)
}

pub fn add_step_tx(
    conn: &mut Db,
    playbook_id: &str,
    prompt_id: Option<&str>,
    step_type: &str,
    instructions: Option<&str>,
    choice_prompt_ids: Option<Vec<String>>,
) -> (r: AppResult<PlaybookStep>)
    ensures
        sql::extends(old(conn).calls(), final(conn).calls()),
        r is Ok ==> sql::writes_ok(old(conn).calls(), final(conn).calls()),
        sql::all_met(old(conn).calls(), final(conn).calls()) ==> r is Ok,
        r matches Ok(step) ==> step_as_given(step, playbook_id@, prompt_id, step_type@, instructions, choice_prompt_ids)
            && step.position >= 0,
        sql::text_call(final(conn).calls(), old(conn).calls().len() as int, PLAYBOOK_EXISTS_SQL@, seq![playbook_id@]),
        ({
            let o = final(conn).calls()[old(conn).calls().len() as int].outcome;
            o is Rows && sql::first_row(o) is None ==> r == Err::<PlaybookStep, AppError>(AppError::NotFound)
        }),
        r matches Ok(step) ==> step_added(final(conn).calls(), old(conn).calls().len() as int, playbook_id@, step),
        r is Ok ==> choices_stored(final(conn).calls()[old(conn).calls().len() + 2int].params[6], choice_prompt_ids),
{
    let ghost n = conn.calls().len() as int;
    ensure_playbook_exists(conn, playbook_id)?;
    let ghost c1 = conn.calls();
    let row = sql::query_one(
        conn,
        NEXT_STEP_POSITION_SQL,
        &sql::params1(sql::text_param(playbook_id)),
        &[sql::Kind::IntIn(0, 9223372036854775807)])?;
    let position = sql::col_int(&row, 0)?;
    if position < 0 {
        return Err(AppError::internal("Invalid step position"));
    }
    let id = new_id();
    let stored = stored_choice_list(&choice_prompt_ids);
    let mut params = sql::params5(
        sql::text_param(id.as_str()),
        sql::text_param(playbook_id),
        sql::opt_text_param(prompt_id),
        SqlValue::Integer(position),
        sql::text_param(step_type),
    );
    params.push(sql::opt_text_param(instructions));
    params.push(stored);
    let ghost c2 = conn.calls();
    sql::execute(
        conn,
        INSERT_STEP_SQL,
        &params,
    )?;
    let ghost c3 = conn.calls();
    touch_playbook(conn, playbook_id)?;
    proof {
        assert(conn.calls()[n] == c1[n]);
        assert(conn.calls()[n + 1] == c2[n + 1]);
        assert(conn.calls()[n + 2] == c3[n + 2]);
    }
    let choices = match choice_prompt_ids {
        Some(ids) => ids,
        None => Vec::new(),
    };
    Ok(PlaybookStep {
        id,
        playbook_id: playbook_id.to_string(),
        prompt_id: opt_string(prompt_id),
        position,
        step_type: step_type.to_string(),
        instructions: opt_string(instructions),
        choice_prompt_ids: choices,
    })
}

/// Rewrites a step of a playbook, keeping its position, in one transaction.
pub fn update_step(
    conn: &mut Db,
    playbook_id: &str,
    step_id: &str,
    prompt_id: Option<&str>,
    step_type: &str,
    instructions: Option<&str>,
    choice_prompt_ids: Option<Vec<String>>,
) -> (r: AppResult<PlaybookStep>)
    ensures
        transaction::in_transaction(old(conn).calls(), final(conn).calls(), r is Ok),
        final(conn).calls().len() > old(conn).calls().len() + 1 ==> sql::text_call(final(conn).calls(), old(conn).calls().len() + 1int, STEP_POSITION_SQL@, seq![step_id@, playbook_id@]),
        sql::extends(old(conn).calls(), final(conn).calls()),
        r is Ok ==> sql::writes_ok(old(conn).calls(), final(conn).calls()),
        sql::all_met(old(conn).calls(), final(conn).calls()) ==> r is Ok,
        r matches Ok(step) ==> step_as_given(step, playbook_id@, prompt_id, step_type@, instructions, choice_prompt_ids)
            && step.id@ == step_id@,
        r is Ok ==> {
            let w = final(conn).calls()[old(conn).calls().len() + 2int];
            &&& final(conn).calls().len() > old(conn).calls().len() + 2
            &&& w.sql == UPDATE_STEP_SQL@
            &&& w.outcome == SqlOutcome::Changed(1)
            &&& choices_stored(w.params[3], choice_prompt_ids)
        },
{
    let ghost s0 = conn.calls();
    if let Err(e) = transaction::begin(conn) {
        proof { transaction::lemma_transaction_shape(s0, conn.calls(), conn.calls(), conn.calls(), false, false); }
        return Err(e);
    }
    let ghost s1 = conn.calls();
    let result = update_step_tx(conn, playbook_id, step_id, prompt_id, step_type, instructions, choice_prompt_ids);
    let ghost s2 = conn.calls();
    let r = transaction::finish(conn, result);
    proof {
        transaction::lemma_transaction_shape(s0, s1, s2, conn.calls(), true, r is Ok);
        assert(conn.calls()[s1.len() as int] == s2[s1.len() as int]);
        if r is Ok {
            assert(conn.calls().drop_last() =~= s2);
            assert(conn.calls()[s1.len() + 1int] == s2[s1.len() + 1int]);
        }
    }
    r
}

/// Reads a step's position, when it belongs to the playbook.
pub const STEP_POSITION_SQL: &'static str = "SELECT position FROM playbook_steps
         WHERE id = ?1 AND playbook_id = ?2";

/// Rewrites a step's prompt, type, instructions and choices.
pub const UPDATE_STEP_SQL: &'static str = "UPDATE playbook_steps
         SET prompt_id = ?1, step_type = ?2, instructions = ?3,
             choice_prompt_ids = ?4
         WHERE id = ?5 AND playbook_id = ?6";

fn update_step_tx(
    conn: &mut Db,
    playbook_id: &str,
    step_id: &str,
    prompt_id: Option<&str>,
    step_type: &str,
    instructions: Option<&str>,
    choice_prompt_ids: Option<Vec<String>>,
) -> (r: AppResult<PlaybookStep>)
    ensures
        sql::extends(old(conn).calls(), final(conn).calls()),
        r is Ok ==> sql::writes_ok(old(conn).calls(), final(conn).calls()),
        sql::all_met(old(conn).calls(), final(conn).calls()) ==> r is Ok,
        r matches Ok(step) ==> step_as_given(step, playbook_id@, prompt_id, step_type@, instructions, choice_prompt_ids)
            && step.id@ == step_id@,
        sql::text_call(final(conn).calls(), old(conn).calls().len() as int, STEP_POSITION_SQL@, seq![step_id@, playbook_id@]),
        ({
            let o = final(conn).calls()[old(conn).calls().len() as int].outcome;
            o is Rows && sql::first_row(o) is None ==> r == Err::<PlaybookStep, AppError>(AppError::NotFound)
        }),
        r matches Ok(step) ==> {
            let n = old(conn).calls().len() as int;
            let calls = final(conn).calls();
            let w = calls[n + 1];
            &&& calls.len() == n + 3
            &&& sql::first_row(calls[n].outcome) matches Some(row) && row[0] == SqlValue::Integer(step.position)
            &&& w.sql == UPDATE_STEP_SQL@
            &&& w.params.len() == 6
            &&& sql::opt_text_is(w.params[0], opt_view(step.prompt_id))
            &&& sql::text_is(w.params[1], step.step_type@)
            &&& sql::opt_text_is(w.params[2], opt_view(step.instructions))
            &&& choices_stored(w.params[3], choice_prompt_ids)
            &&& sql::text_is(w.params[4], step_id@)
            &&& sql::text_is(w.params[5], playbook_id@)
            &&& w.outcome == SqlOutcome::Changed(1)
            &&& stamped_last(calls, TOUCH_PLAYBOOK_SQL@, playbook_id@)
        },
{
    let ghost n = conn.calls().len() as int;
    let row = sql::query_one(
        conn,
        STEP_POSITION_SQL,
        &sql::params2(sql::text_param(step_id), sql::text_param(playbook_id)),
        &[sql::Kind::Int])?;
    let position = sql::col_int(&row, 0)?;
    let stored = stored_choice_list(&choice_prompt_ids);
    let mut params = sql::params4(
        sql::opt_text_param(prompt_id),
        sql::text_param(step_type),
        sql::opt_text_param(instructions),
        stored,
    );
    params.push(sql::text_param(step_id));
    params.push(sql::text_param(playbook_id));
    let ghost c1 = conn.calls();
    sql::execute_one(
        conn,
        UPDATE_STEP_SQL,
        &params,
    )?;
    let ghost c2 = conn.calls();
    touch_playbook(conn, playbook_id)?;
    proof {
        assert(conn.calls()[n] == c1[n]);
        assert(conn.calls()[n + 1] == c2[n + 1]);
    }
    let choices = match choice_prompt_ids {
        Some(ids) => ids,
        None => Vec::new(),
    };
    Ok(PlaybookStep {
        id: step_id.to_string(),
        playbook_id: playbook_id.to_string(),
        prompt_id: opt_string(prompt_id),
        position,
        step_type: step_type.to_string(),
        instructions: opt_string(instructions),
        choice_prompt_ids: choices,
    })
}

/// Removes a step and closes the gap it leaves, in one transaction: the
/// remaining steps are renumbered 0, 1, ... in their order before the commit.
pub fn remove_step(conn: &mut Db, step_id: &str) -> (r: AppResult<()>)
    ensures
        transaction::in_transaction(old(conn).calls(), final(conn).calls(), r is Ok),
        sql::all_met(old(conn).calls(), final(conn).calls()) ==> r is Ok,
        final(conn).calls().len() > old(conn).calls().len() + 1 ==> sql::text_call(final(conn).calls(),
            old(conn).calls().len() + 1int, STEP_PLAYBOOK_SQL@, seq![step_id@]),
        r is Ok ==> step_removal(final(conn).calls().drop_last(), old(conn).calls().len() + 1int, step_id@, r),
        sql::extends(old(conn).calls(), final(conn).calls()),
{
    let ghost s0 = conn.calls();
    if let Err(e) = transaction::begin(conn) {
        proof { transaction::lemma_transaction_shape(s0, conn.calls(), conn.calls(), conn.calls(), false, false); }
        return Err(e);
    }
    let ghost s1 = conn.calls();
    let result = remove_step_tx(conn, step_id);
    let ghost s2 = conn.calls();
    let r = transaction::finish(conn, result);
    proof {
        transaction::lemma_transaction_shape(s0, s1, s2, conn.calls(), true, r is Ok);
        assert(conn.calls()[s1.len() as int] == s2[s1.len() as int]);
        if r is Ok {
            assert(conn.calls().drop_last() =~= s2);
        }
    }
    r
}

/// Reads the playbook a step belongs to.
pub const STEP_PLAYBOOK_SQL: &'static str = "SELECT playbook_id FROM playbook_steps WHERE id = ?1";

/// Deletes one step.
pub const DELETE_STEP_SQL: &'static str = "DELETE FROM playbook_steps WHERE id = ?1";

/// What removing step `step_id` does from position `n`: it reads the step's
/// playbook (no row is `NotFound`); when it succeeds, it deleted that one
/// step, renumbered the remaining steps 0, 1, ... in their order, and
/// refreshed the playbook's timestamp.
pub open spec fn step_removal(calls: Seq<SqlCall>, n: int, step_id: Seq<char>, r: AppResult<()>) -> bool {
    &&& sql::text_call(calls, n, STEP_PLAYBOOK_SQL@, seq![step_id])
    &&& (calls[n].outcome is Rows && sql::first_row(calls[n].outcome) is None ==> r == Err::<(), AppError>(AppError::NotFound))
    &&& r is Ok ==> {
        let playbook_id = prompt_service::text_or_empty(sql::first_row(calls[n].outcome)->0[0]);
        &&& sql::met(calls[n])
        &&& sql::text_call(calls, n + 1, DELETE_STEP_SQL@, seq![step_id])
        &&& calls[n + 1].outcome == SqlOutcome::Changed(1)
        &&& compacted(calls, n + 2, playbook_id)
        &&& stamped_last(calls, TOUCH_PLAYBOOK_SQL@, playbook_id)
    }
}

/// The last statement is the write `sql` of a timestamp for the given id,
/// on exactly one row.
pub open spec fn stamped_last(calls: Seq<SqlCall>, sql: Seq<char>, id: Seq<char>) -> bool {
    &&& calls.len() > 0
    &&& prompt_service::stamped_write(calls.last(), sql, id)
}

pub fn remove_step_tx(conn: &mut Db, step_id: &str) -> (r: AppResult<()>)
    ensures
        sql::extends(old(conn).calls(), final(conn).calls()),
        r is Ok ==> sql::writes_ok(old(conn).calls(), final(conn).calls()),
        sql::all_met(old(conn).calls(), final(conn).calls()) ==> r is Ok,
        step_removal(final(conn).calls(), old(conn).calls().len() as int, step_id@, r),
{
    let ghost n = conn.calls().len() as int;
    let row = sql::query_one(
        conn,
        STEP_PLAYBOOK_SQL,
        &sql::params1(sql::text_param(step_id)),
        &[sql::Kind::Text])?;
    let ghost c1 = conn.calls();
    let playbook_id = sql::col_text(&row, 0)?;
    sql::execute_one(conn, DELETE_STEP_SQL, &sql::params1(sql::text_param(step_id)))?;
    let ghost c2 = conn.calls();
    compact_step_positions(conn, playbook_id.as_str())?;
    let ghost c3 = conn.calls();
    let r = touch_playbook(conn, playbook_id.as_str());
    proof {
        assert(conn.calls()[n] == c1[n]);
        assert(conn.calls()[n + 1] == c2[n + 1]);
        lemma_compacted_extends(c3, conn.calls(), n + 2, playbook_id@);
    }
    r
}

/// Whether a requested order names every existing step exactly once: the
/// same ids as exist, with none repeated.
pub open spec fn is_complete_order(existing: Seq<Seq<char>>, requested: Seq<Seq<char>>) -> bool {
    &&& requested.no_duplicates()
    &&& forall|x: Seq<char>| requested.contains(x) <==> existing.contains(x)
}

/// When the existing steps are distinct, a complete order is a rearrangement
/// of them: the same ids, each once, and as many as there are steps.
pub proof fn lemma_complete_order_is_permutation(existing: Seq<Seq<char>>, requested: Seq<Seq<char>>)
    requires
        existing.no_duplicates(),
        is_complete_order(existing, requested),
    ensures
        requested.to_multiset() =~= existing.to_multiset(),
        requested.len() == existing.len(),
{
    existing.lemma_multiset_has_no_duplicates();
    requested.lemma_multiset_has_no_duplicates();
    assert forall|x: Seq<char>| requested.to_multiset().count(x) == existing.to_multiset().count(x) by {
        vstd::seq_lib::to_multiset_contains(requested, x);
        vstd::seq_lib::to_multiset_contains(existing, x);
        if requested.contains(x) {
            assert(requested.to_multiset().contains(x));
            assert(existing.to_multiset().contains(x));
        }
    }
    vstd::seq_lib::to_multiset_len(requested);
    vstd::seq_lib::to_multiset_len(existing);
}

/// Whether `x` occurs among `v`.
fn contains_string(v: &Vec<String>, x: &String) -> (b: bool)
    ensures
        b == strings_view(v@).contains(x@),
{
    for i in 0..v.len()
        invariant
            forall|j: int| 0 <= j < i ==> v@[j]@ != x@,
    {
        if v[i] == *x {
            proof { assert(strings_view(v@)[i as int] == x@); }
            return true;
        }
    }
    proof {
        if strings_view(v@).contains(x@) {
            let j = choose|j: int| 0 <= j < strings_view(v@).len() && strings_view(v@)[j] == x@;
            assert(v@[j]@ == x@);
        }
    }
    false
}

/// Checks that a requested order names every existing step exactly once.
pub fn check_complete_order(existing: &Vec<String>, requested: &Vec<String>) -> (b: bool)
    ensures
        b == is_complete_order(strings_view(existing@), strings_view(requested@)),
{
    let ghost ev = strings_view(existing@);
    let ghost rv = strings_view(requested@);
    // no repeated ids
    for i in 0..requested.len()
        invariant
            rv == strings_view(requested@),
            forall|a: int, b: int| 0 <= a < b < i ==> rv[a] != rv[b],
    {
        for j in 0..i
            invariant
                i < requested.len(),
                rv == strings_view(requested@),
                forall|a: int, b: int| 0 <= a < b < i ==> rv[a] != rv[b],
                forall|a: int| 0 <= a < j ==> rv[a] != rv[i as int],
        {
            if requested[j] == requested[i] {
                proof { assert(!rv.no_duplicates()) by { assert(rv[j as int] == rv[i as int]); } }
                return false;
            }
        }
    }
    proof {
        assert forall|a: int, b: int| 0 <= a < rv.len() && 0 <= b < rv.len() && a != b implies rv[a] != rv[b] by {
            if a > b { assert(rv[b] != rv[a]); }
        }
    }
    // every requested id exists
    for i in 0..requested.len()
        invariant
            rv == strings_view(requested@),
            ev == strings_view(existing@),
            rv.no_duplicates(),
            forall|a: int| 0 <= a < i ==> ev.contains(#[trigger] rv[a]),
    {
        if !contains_string(existing, &requested[i]) {
            proof { assert(rv[i as int] == requested@[i as int]@); }
            return false;
        }
    }
    // every existing id is requested
    for i in 0..existing.len()
        invariant
            rv == strings_view(requested@),
            ev == strings_view(existing@),
            rv.no_duplicates(),
            forall|a: int| 0 <= a < rv.len() ==> ev.contains(#[trigger] rv[a]),
            forall|a: int| 0 <= a < i ==> rv.contains(#[trigger] ev[a]),
    {
        if !contains_string(requested, &existing[i]) {
            proof { assert(ev[i as int] == existing@[i as int]@); }
            return false;
        }
    }
    proof {
        assert forall|x: Seq<char>| rv.contains(x) <==> ev.contains(x) by {
            if rv.contains(x) {
                let a = choose|a: int| 0 <= a < rv.len() && rv[a] == x;
                assert(ev.contains(rv[a]));
            }
            if ev.contains(x) {
                let a = choose|a: int| 0 <= a < ev.len() && ev[a] == x;
                assert(rv.contains(ev[a]));
            }
        }
    }
    true
}

/// Gives the steps of a playbook the positions 0, 1, ... in the order
/// given, which must name every step exactly once; in one transaction.
pub fn reorder_steps(conn: &mut Db, playbook_id: &str, ordered_step_ids: &Vec<String>) -> (r: AppResult<()>)
    ensures
        transaction::in_transaction(old(conn).calls(), final(conn).calls(), r is Ok),
        final(conn).calls().len() > old(conn).calls().len() + 1 ==> sql::text_call(final(conn).calls(),
            old(conn).calls().len() + 1int, STEP_IDS_SQL@, seq![playbook_id@]),
        ({
            let n = old(conn).calls().len() + 1int;
            let calls = final(conn).calls();
            calls.len() > n && ids_readable(calls[n].outcome)
                && !is_complete_order(ids_answered(calls[n].outcome), strings_view(ordered_step_ids@))
                ==> (r matches Err(AppError::Invalid(m)) && m@ == "Step order must contain every playbook step exactly once"@)
        }),
        r is Ok ==> reordering(final(conn).calls().drop_last(), old(conn).calls().len() + 1int, playbook_id@, strings_view(ordered_step_ids@), r),
        sql::extends(old(conn).calls(), final(conn).calls()),
        r is Ok ==> sql::writes_ok(old(conn).calls(), final(conn).calls()),
        sql::all_met(old(conn).calls(), final(conn).calls())
            && is_complete_order(ids_answered(final(conn).calls()[old(conn).calls().len() + 1int].outcome), strings_view(ordered_step_ids@))
            ==> r is Ok,
        r is Ok ==> exists|existing: Seq<Seq<char>>| is_complete_order(existing, strings_view(ordered_step_ids@)),
        !strings_view(ordered_step_ids@).no_duplicates() ==> r is Err,
{
    let ghost s0 = conn.calls();
    if let Err(e) = transaction::begin(conn) {
        proof { transaction::lemma_transaction_shape(s0, conn.calls(), conn.calls(), conn.calls(), false, false); }
        return Err(e);
    }
    let ghost s1 = conn.calls();
    let result = reorder_steps_tx(conn, playbook_id, ordered_step_ids);
    let ghost s2 = conn.calls();
    let r = transaction::finish(conn, result);
    proof {
        transaction::lemma_transaction_shape(s0, s1, s2, conn.calls(), true, r is Ok);
        assert(conn.calls()[s1.len() as int] == s2[s1.len() as int]);
        if r is Ok {
            assert(conn.calls().drop_last() =~= s2);
        }
    }
    r
}

/// The ids a query for step ids answered, in order.
pub open spec fn ids_answered(o: SqlOutcome) -> Seq<Seq<char>> {
    match o {
        SqlOutcome::Rows(rows) => rows.map_values(|row: Seq<SqlValue>| prompt_service::text_or_empty(row[0])),
        _ => Seq::empty(),
    }
}

/// Every answered row holds one text id.
pub open spec fn ids_readable(o: SqlOutcome) -> bool {
    &&& o matches SqlOutcome::Rows(rows)
    &&& forall|i: int| 0 <= i < rows.len() ==> (#[trigger] rows[i]).len() == 1 && rows[i][0] is Text
}

/// The ids of a playbook's steps, as the query answered them.
fn step_ids(conn: &mut Db, sql_text: &str, playbook_id: &str) -> (r: AppResult<Vec<String>>)
    ensures
        sql::extends(old(conn).calls(), final(conn).calls()),
        r is Ok ==> sql::writes_ok(old(conn).calls(), final(conn).calls()),
        sql::all_met(old(conn).calls(), final(conn).calls()) ==> r is Ok,
        final(conn).calls().len() == old(conn).calls().len() + 1,
        sql::text_call(final(conn).calls(), old(conn).calls().len() as int, sql_text@, seq![playbook_id@]),
        r is Ok <==> ids_readable(final(conn).calls().last().outcome),
        r matches Ok(ids) ==> strings_view(ids@) == ids_answered(final(conn).calls().last().outcome),
{
    let rows = sql::query_all(conn, sql_text, &sql::params1(sql::text_param(playbook_id)), &[sql::Kind::Text])?;
    let ghost answered = sql::rows_view(rows@);
    let mut ids: Vec<String> = Vec::new();
    for i in 0..rows.len()
        invariant
            sql::extends(old(conn).calls(), conn.calls()),
            conn.calls().len() == old(conn).calls().len() + 1,
            sql::text_call(conn.calls(), old(conn).calls().len() as int, sql_text@, seq![playbook_id@]),
            conn.calls().last().outcome == SqlOutcome::Rows(answered),
            forall|k: int| 0 <= k < rows.len() ==> #[trigger] rows[k].len() == 1,
            answered == sql::rows_view(rows@),
            ids.len() == i,
            sql::rows_fit(answered, seq![sql::Kind::Text]),
            forall|k: int| 0 <= k < i ==> (#[trigger] answered[k])[0] is Text,
            forall|k: int| 0 <= k < i ==> ids@[k]@ == prompt_service::text_or_empty(#[trigger] answered[k][0]),
    {
        proof { assert(answered[i as int] == rows@[i as int]@); }
        let id = sql::col_text(&rows[i], 0);
        if id.is_err() {
            proof { assert(!ids_readable(SqlOutcome::Rows(answered))) by { assert(!(answered[i as int][0] is Text)); } }
        }
        ids.push(id?);
    }
    proof {
        assert(strings_view(ids@) =~= ids_answered(SqlOutcome::Rows(answered)));
    }
    Ok(ids)
}

/// Reads the ids of a playbook's steps.
pub const STEP_IDS_SQL: &'static str = "SELECT id FROM playbook_steps WHERE playbook_id = ?1";

/// Reads the ids of a playbook's steps in position order.
pub const ORDERED_STEP_IDS_SQL: &'static str = "SELECT id FROM playbook_steps
         WHERE playbook_id = ?1 ORDER BY position, id";

/// Moves every step of a playbook out of the way of the new positions.
pub const PARK_STEPS_SQL: &'static str = "UPDATE playbook_steps SET position = -position - 1 WHERE playbook_id = ?1";

/// Gives one step of a playbook a position.
pub const PLACE_STEP_SQL: &'static str = "UPDATE playbook_steps SET position = ?1
             WHERE id = ?2 AND playbook_id = ?3";

/// Gives one step a position.
pub const RENUMBER_STEP_SQL: &'static str = "UPDATE playbook_steps SET position = ?1 WHERE id = ?2";

/// From position `start`, one statement per id gives `ids[i]` the position
/// `i`, on exactly one row: `sql` with the position and the id (and, when
/// given, the playbook id).
pub open spec fn numbered(calls: Seq<SqlCall>, start: int, ids: Seq<Seq<char>>, sql: Seq<char>, playbook_id: Option<Seq<char>>) -> bool {
    &&& calls.len() >= start + ids.len()
    &&& forall|i: int| 0 <= i < ids.len() ==> {
        let c = #[trigger] calls[start + i];
        &&& c.sql == sql
        &&& c.params.len() >= 2
        &&& c.params[0] == SqlValue::Integer(i as i64)
        &&& sql::text_is(c.params[1], ids[i])
        &&& match playbook_id {
            Some(p) => c.params.len() == 3 && sql::text_is(c.params[2], p),
            None => c.params.len() == 2,
        }
        &&& c.outcome == SqlOutcome::Changed(1)
    }
}

/// From position `n`: the playbook's step ids were read in position order,
/// its steps parked, and each of them given the position of its place in
/// that order: the steps are renumbered 0, 1, ... keeping their order.
pub open spec fn compacted(calls: Seq<SqlCall>, n: int, playbook_id: Seq<char>) -> bool {
    &&& sql::text_call(calls, n, ORDERED_STEP_IDS_SQL@, seq![playbook_id])
    &&& ids_readable(calls[n].outcome)
    &&& sql::text_call(calls, n + 1, PARK_STEPS_SQL@, seq![playbook_id])
    &&& calls[n + 1].outcome is Changed
    &&& numbered(calls, n + 2, ids_answered(calls[n].outcome), RENUMBER_STEP_SQL@, None)
}

/// What `compacted` says of a record still holds of any longer record.
proof fn lemma_compacted_extends(a: Seq<SqlCall>, b: Seq<SqlCall>, n: int, playbook_id: Seq<char>)
    requires
        compacted(a, n, playbook_id),
        sql::extends(a, b),
        n >= 0,
    ensures
        compacted(b, n, playbook_id),
{
    let ids = ids_answered(a[n].outcome);
    assert(b[n] == a[n]);
    assert(b[n + 1] == a[n + 1]);
    assert forall|i: int| 0 <= i < ids.len() implies #[trigger] b[n + 2 + i] == a[n + 2 + i] by {}
}

/// What reordering does from position `n`: it reads the playbook's step
/// ids; when they could be read and the request is not exactly those ids,
/// each once, it is refused and nothing is written. When it succeeds, the
/// request was such an order, the steps were parked, step `ordered[i]` got
/// position `i`, and the playbook's timestamp was refreshed.
pub open spec fn reordering(calls: Seq<SqlCall>, n: int, playbook_id: Seq<char>, ordered: Seq<Seq<char>>, r: AppResult<()>) -> bool {
    &&& sql::text_call(calls, n, STEP_IDS_SQL@, seq![playbook_id])
    &&& (ids_readable(calls[n].outcome) && !is_complete_order(ids_answered(calls[n].outcome), ordered)
        ==> (r matches Err(AppError::Invalid(m)) && m@ == "Step order must contain every playbook step exactly once"@)
            && calls.len() == n + 1)
    &&& r is Ok ==> {
        &&& ids_readable(calls[n].outcome)
        &&& is_complete_order(ids_answered(calls[n].outcome), ordered)
        &&& sql::text_call(calls, n + 1, PARK_STEPS_SQL@, seq![playbook_id])
        &&& calls[n + 1].outcome is Changed
        &&& numbered(calls, n + 2, ordered, PLACE_STEP_SQL@, Some(playbook_id))
        &&& calls.len() == n + 3 + ordered.len()
        &&& stamped_last(calls, TOUCH_PLAYBOOK_SQL@, playbook_id)
    }
}

fn reorder_steps_tx(conn: &mut Db, playbook_id: &str, ordered_step_ids: &Vec<String>) -> (r: AppResult<()>)
    ensures
        sql::extends(old(conn).calls(), final(conn).calls()),
        r is Ok ==> sql::writes_ok(old(conn).calls(), final(conn).calls()),
        sql::all_met(old(conn).calls(), final(conn).calls())
            && is_complete_order(ids_answered(final(conn).calls()[old(conn).calls().len() as int].outcome), strings_view(ordered_step_ids@))
            ==> r is Ok,
        reordering(final(conn).calls(), old(conn).calls().len() as int, playbook_id@, strings_view(ordered_step_ids@), r),
        r is Ok ==> exists|existing: Seq<Seq<char>>| is_complete_order(existing, strings_view(ordered_step_ids@)),
{
    let ghost n = conn.calls().len() as int;
    let existing = step_ids(conn, STEP_IDS_SQL, playbook_id)?;
    let ghost c1 = conn.calls();
    if !check_complete_order(&existing, ordered_step_ids) {
        return Err(AppError::invalid("Step order must contain every playbook step exactly once"));
    }
    sql::execute(
        conn,
        PARK_STEPS_SQL,
        &sql::params1(sql::text_param(playbook_id)),
    )?;
    let ghost c2 = conn.calls();
    for i in 0..ordered_step_ids.len()
        invariant
            sql::extends(old(conn).calls(), conn.calls()),
            sql::extends(c2, conn.calls()),
            c2.len() == n + 2,
            n == old(conn).calls().len(),
            sql::text_call(c2, n, STEP_IDS_SQL@, seq![playbook_id@]),
            ids_readable(c2[n].outcome),
            is_complete_order(ids_answered(c2[n].outcome), strings_view(ordered_step_ids@)),
            conn.calls().len() == n + 2 + i,
            numbered(conn.calls(), n + 2, strings_view(ordered_step_ids@).take(i as int), PLACE_STEP_SQL@, Some(playbook_id@)),
            sql::writes_ok(old(conn).calls(), conn.calls()),
    {
        let ghost before = conn.calls();
        let position: i64 = i as i64;
        sql::execute_one(
            conn,
            PLACE_STEP_SQL,
            &sql::params3(SqlValue::Integer(position), sql::text_param(ordered_step_ids[i].as_str()), sql::text_param(playbook_id)),
        )?;
        proof {
            let ids = strings_view(ordered_step_ids@).take(i + 1);
            assert forall|k: int| 0 <= k < ids.len() implies {
                let c = #[trigger] conn.calls()[n + 2 + k];
                &&& c.sql == PLACE_STEP_SQL@
                &&& c.params.len() >= 2
                &&& c.params[0] == SqlValue::Integer(k as i64)
                &&& sql::text_is(c.params[1], ids[k])
                &&& c.params.len() == 3 && sql::text_is(c.params[2], playbook_id@)
                &&& c.outcome == SqlOutcome::Changed(1)
            } by {
                if k < i {
                    assert(conn.calls()[n + 2 + k] == before[n + 2 + k]);
                    assert(strings_view(ordered_step_ids@).take(i as int)[k] == ids[k]);
                } else {
                    assert(ids[k] == ordered_step_ids@[k]@);
                }
            }
        }
    }
    let ghost c3 = conn.calls();
    let r = touch_playbook(conn, playbook_id);
    proof {
        assert(strings_view(ordered_step_ids@).take(ordered_step_ids.len() as int) =~= strings_view(ordered_step_ids@));
        assert(conn.calls()[n] == c1[n]);
        assert(conn.calls()[n + 1] == c2[n + 1]);
        let ids = strings_view(ordered_step_ids@);
        assert forall|k: int| 0 <= k < ids.len() implies #[trigger] conn.calls()[n + 2 + k] == c3[n + 2 + k] by {}
    }
    r
}

/// Renumbers a playbook's steps 0, 1, ... keeping their order.
fn compact_step_positions(conn: &mut Db, playbook_id: &str) -> (r: AppResult<()>)
    ensures
        sql::extends(old(conn).calls(), final(conn).calls()),
        r is Ok ==> sql::writes_ok(old(conn).calls(), final(conn).calls()),
        sql::all_met(old(conn).calls(), final(conn).calls()) ==> r is Ok,
        r is Ok ==> compacted(final(conn).calls(), old(conn).calls().len() as int, playbook_id@),
{
    let ghost n = conn.calls().len() as int;
    let ids = step_ids(
        conn,
        ORDERED_STEP_IDS_SQL,
        playbook_id,
    )?;
    let ghost c1 = conn.calls();
    sql::execute(
        conn,
        PARK_STEPS_SQL,
        &sql::params1(sql::text_param(playbook_id)),
    )?;
    let ghost c2 = conn.calls();
    for i in 0..ids.len()
        invariant
            sql::extends(old(conn).calls(), conn.calls()),
            sql::extends(c2, conn.calls()),
            c2.len() == n + 2,
            conn.calls().len() == n + 2 + i,
            numbered(conn.calls(), n + 2, strings_view(ids@).take(i as int), RENUMBER_STEP_SQL@, None),
            sql::writes_ok(old(conn).calls(), conn.calls()),
    {
        let ghost before = conn.calls();
        let position: i64 = i as i64;
        sql::execute_one(
            conn,
            RENUMBER_STEP_SQL,
            &sql::params2(SqlValue::Integer(position), sql::text_param(ids[i].as_str())),
        )?;
        proof {
            let v = strings_view(ids@).take(i + 1);
            assert forall|k: int| 0 <= k < v.len() implies {
                let c = #[trigger] conn.calls()[n + 2 + k];
                &&& c.sql == RENUMBER_STEP_SQL@
                &&& c.params.len() >= 2
                &&& c.params[0] == SqlValue::Integer(k as i64)
                &&& sql::text_is(c.params[1], v[k])
                &&& c.params.len() == 2
                &&& c.outcome == SqlOutcome::Changed(1)
            } by {
                if k < i {
                    assert(conn.calls()[n + 2 + k] == before[n + 2 + k]);
                    assert(strings_view(ids@).take(i as int)[k] == v[k]);
                } else {
                    assert(v[k] == ids@[k]@);
                }
            }
        }
    }
    proof {
        assert(strings_view(ids@).take(ids.len() as int) =~= strings_view(ids@));
        assert(conn.calls()[n] == c1[n]);
        assert(conn.calls()[n + 1] == c2[n + 1]);
    }
    Ok(())
}

// ---------------------------------------------------------------------
// Sessions
// ---------------------------------------------------------------------

/// Reads the playbook session.
pub const SESSION_SQL: &'static str = "SELECT id, active_playbook_id, current_step, started_at
         FROM playbook_sessions WHERE id = 1";

/// The statement at position `i` read the session, and its row describes `s`.
pub open spec fn session_read(calls: Seq<SqlCall>, i: int, s: PlaybookSession) -> bool {
    &&& sql::text_call(calls, i, SESSION_SQL@, seq![])
    &&& sql::first_row(calls[i].outcome) matches Some(row)
        && row.len() == 4
        && row[0] == SqlValue::Integer(s.id)
        && opt_text_col(row[1], s.active_playbook_id)
        && row[2] == SqlValue::Integer(s.current_step)
        && opt_text_col(row[3], s.started_at)
}

/// The playbook session (a single row): one read, answered as the row says.
pub fn get_session(conn: &mut Db) -> (r: AppResult<PlaybookSession>)
    ensures
        sql::extends(old(conn).calls(), final(conn).calls()),
        r is Ok ==> sql::writes_ok(old(conn).calls(), final(conn).calls()),
        sql::all_met(old(conn).calls(), final(conn).calls()) ==> r is Ok,
        final(conn).calls().len() == old(conn).calls().len() + 1,
        sql::text_call(final(conn).calls(), old(conn).calls().len() as int, SESSION_SQL@, seq![]),
        r matches Ok(s) ==> session_read(final(conn).calls(), old(conn).calls().len() as int, s),
        final(conn).calls().last().outcome is Rows && sql::first_row(final(conn).calls().last().outcome) is None
            ==> r == Err::<PlaybookSession, AppError>(AppError::NotFound),
{
    let row = sql::query_one(
        conn,
        SESSION_SQL,
        &Vec::new(),
        &[sql::Kind::Int, sql::Kind::OptText, sql::Kind::Int, sql::Kind::OptText])?;
    session_from_row(&row)
}

/// Starts a playbook at its first step, in one transaction.
pub fn start_session(conn: &mut Db, playbook_id: &str) -> (r: AppResult<PlaybookSession>)
    ensures
        transaction::in_transaction(old(conn).calls(), final(conn).calls(), r is Ok),
        sql::all_met(old(conn).calls(), final(conn).calls()) ==> r is Ok,
        final(conn).calls().len() > old(conn).calls().len() + 1 ==> sql::text_call(final(conn).calls(), old(conn).calls().len() + 1int, PLAYBOOK_EXISTS_SQL@, seq![playbook_id@]),
        r matches Ok(s) ==> final(conn).calls().len() == old(conn).calls().len() + 5 && final(conn).calls()[old(conn).calls().len() + 2int].sql == START_SESSION_SQL@ && session_read(final(conn).calls(), old(conn).calls().len() + 3int, s),
        sql::extends(old(conn).calls(), final(conn).calls()),
{
    let ghost s0 = conn.calls();
    if let Err(e) = transaction::begin(conn) {
        proof { transaction::lemma_transaction_shape(s0, conn.calls(), conn.calls(), conn.calls(), false, false); }
        return Err(e);
    }
    let ghost s1 = conn.calls();
    let result = start_session_tx(conn, playbook_id);
    let ghost s2 = conn.calls();
    let r = transaction::finish(conn, result);
    proof {
        transaction::lemma_transaction_shape(s0, s1, s2, conn.calls(), true, r is Ok);
        assert(conn.calls()[s1.len() as int] == s2[s1.len() as int]);
        if r is Ok {
            assert(conn.calls().drop_last() =~= s2);
        }
    }
    r
}

/// Makes a playbook the active one, at its first step.
pub const START_SESSION_SQL: &'static str = "UPDATE playbook_sessions
         SET active_playbook_id = ?1, current_step = 0, started_at = ?2
         WHERE id = 1";

pub fn start_session_tx(conn: &mut Db, playbook_id: &str) -> (r: AppResult<PlaybookSession>)
    ensures
        sql::extends(old(conn).calls(), final(conn).calls()),
        r is Ok ==> sql::writes_ok(old(conn).calls(), final(conn).calls()),
        sql::all_met(old(conn).calls(), final(conn).calls()) ==> r is Ok,
        sql::text_call(final(conn).calls(), old(conn).calls().len() as int, PLAYBOOK_EXISTS_SQL@, seq![playbook_id@]),
        ({
            let o = final(conn).calls()[old(conn).calls().len() as int].outcome;
            o is Rows && sql::first_row(o) is None ==> r == Err::<PlaybookSession, AppError>(AppError::NotFound)
        }),
        r matches Ok(s) ==> {
            let n = old(conn).calls().len() as int;
            let calls = final(conn).calls();
            &&& calls.len() == n + 3
            &&& calls[n + 1].sql == START_SESSION_SQL@
            &&& calls[n + 1].params.len() == 2
            &&& sql::text_is(calls[n + 1].params[0], playbook_id@)
            &&& calls[n + 1].params[1] is Text
            &&& calls[n + 1].outcome == SqlOutcome::Changed(1)
            &&& session_read(calls, n + 2, s)
        },
{
    let ghost n = conn.calls().len() as int;
    ensure_playbook_exists(conn, playbook_id)?;
    let ghost c1 = conn.calls();
    let now = now_rfc3339();
    sql::execute_one(
        conn,
        START_SESSION_SQL,
        &sql::params2(sql::text_param(playbook_id), sql::text_param(now.as_str())),
    )?;
    let ghost c2 = conn.calls();
    let r = get_session(conn);
    proof {
        assert(conn.calls()[n] == c1[n]);
        assert(conn.calls()[n + 1] == c2[n + 1]);
    }
    r
}

/// Moves the active playbook to its next step, in one transaction; with no
/// active playbook there is nothing to advance.
pub fn advance_step(conn: &mut Db) -> (r: AppResult<PlaybookSession>)
    ensures
        transaction::in_transaction(old(conn).calls(), final(conn).calls(), r is Ok),
        sql::all_met(old(conn).calls(), final(conn).calls()) ==> r is Ok,
        final(conn).calls().len() > old(conn).calls().len() + 1 ==> sql::text_call(final(conn).calls(), old(conn).calls().len() + 1int, ADVANCE_SESSION_SQL@, seq![]),
        r matches Ok(s) ==> final(conn).calls().len() == old(conn).calls().len() + 4 && final(conn).calls()[old(conn).calls().len() + 1int].outcome == SqlOutcome::Changed(1) && session_read(final(conn).calls(), old(conn).calls().len() + 2int, s),
        sql::extends(old(conn).calls(), final(conn).calls()),
{
    let ghost s0 = conn.calls();
    if let Err(e) = transaction::begin(conn) {
        proof { transaction::lemma_transaction_shape(s0, conn.calls(), conn.calls(), conn.calls(), false, false); }
        return Err(e);
    }
    let ghost s1 = conn.calls();
    let result = advance_step_tx(conn);
    let ghost s2 = conn.calls();
    let r = transaction::finish(conn, result);
    proof {
        transaction::lemma_transaction_shape(s0, s1, s2, conn.calls(), true, r is Ok);
        assert(conn.calls()[s1.len() as int] == s2[s1.len() as int]);
        if r is Ok {
            assert(conn.calls().drop_last() =~= s2);
        }
    }
    r
}

/// Moves the active playbook, if any, to its next step.
pub const ADVANCE_SESSION_SQL: &'static str = "UPDATE playbook_sessions
         SET current_step = current_step + 1
         WHERE id = 1 AND active_playbook_id IS NOT NULL";

pub fn advance_step_tx(conn: &mut Db) -> (r: AppResult<PlaybookSession>)
    ensures
        sql::extends(old(conn).calls(), final(conn).calls()),
        r is Ok ==> sql::writes_ok(old(conn).calls(), final(conn).calls()),
        sql::all_met(old(conn).calls(), final(conn).calls()) ==> r is Ok,
        sql::text_call(final(conn).calls(), old(conn).calls().len() as int, ADVANCE_SESSION_SQL@, seq![]),
        final(conn).calls()[old(conn).calls().len() as int].outcome == SqlOutcome::Changed(0)
            ==> r == Err::<PlaybookSession, AppError>(AppError::NotFound),
        r matches Ok(s) ==> final(conn).calls().len() == old(conn).calls().len() + 2
            && final(conn).calls()[old(conn).calls().len() as int].outcome == SqlOutcome::Changed(1)
            && session_read(final(conn).calls(), old(conn).calls().len() + 1int, s),
{
    let ghost n = conn.calls().len() as int;
    sql::execute_one(
        conn,
        ADVANCE_SESSION_SQL,
        &Vec::new(),
    )?;
    let ghost c1 = conn.calls();
    let r = get_session(conn);
    proof { assert(conn.calls()[n] == c1[n]); }
    r
}

/// Ends the session, in one transaction.
pub fn end_session(conn: &mut Db) -> (r: AppResult<()>)
    ensures
        transaction::in_transaction(old(conn).calls(), final(conn).calls(), r is Ok),
        sql::all_met(old(conn).calls(), final(conn).calls()) ==> r is Ok,
        final(conn).calls().len() > old(conn).calls().len() + 1 ==> sql::text_call(final(conn).calls(), old(conn).calls().len() + 1int, END_SESSION_SQL@, seq![]),
        r is Ok ==> final(conn).calls().len() == old(conn).calls().len() + 3 && final(conn).calls()[old(conn).calls().len() + 1int].outcome == SqlOutcome::Changed(1),
        sql::extends(old(conn).calls(), final(conn).calls()),
{
    let ghost s0 = conn.calls();
    if let Err(e) = transaction::begin(conn) {
        proof { transaction::lemma_transaction_shape(s0, conn.calls(), conn.calls(), conn.calls(), false, false); }
        return Err(e);
    }
    let ghost s1 = conn.calls();
    let result = end_session_tx(conn);
    let ghost s2 = conn.calls();
    let r = transaction::finish(conn, result);
    proof {
        transaction::lemma_transaction_shape(s0, s1, s2, conn.calls(), true, r is Ok);
        assert(conn.calls()[s1.len() as int] == s2[s1.len() as int]);
        if r is Ok {
            assert(conn.calls().drop_last() =~= s2);
        }
    }
    r
}

/// Clears the active playbook.
pub const END_SESSION_SQL: &'static str = "UPDATE playbook_sessions
         SET active_playbook_id = NULL, current_step = 0, started_at = NULL
         WHERE id = 1";

pub fn end_session_tx(conn: &mut Db) -> (r: AppResult<()>)
    ensures
        sql::extends(old(conn).calls(), final(conn).calls()),
        r is Ok ==> sql::writes_ok(old(conn).calls(), final(conn).calls()),
        sql::all_met(old(conn).calls(), final(conn).calls()) ==> r is Ok,
        final(conn).calls().len() == old(conn).calls().len() + 1,
        sql::text_call(final(conn).calls(), old(conn).calls().len() as int, END_SESSION_SQL@, seq![]),
        r is Ok <==> final(conn).calls().last().outcome == SqlOutcome::Changed(1),
{
    let r = sql::execute_one(
        conn,
        END_SESSION_SQL,
        &Vec::new(),
    );
    r
}

/// Finds a playbook by id.
pub const PLAYBOOK_EXISTS_SQL: &'static str = "SELECT 1 FROM playbooks WHERE id = ?1";

fn ensure_playbook_exists(conn: &mut Db, playbook_id: &str) -> (r: AppResult<()>)
    ensures
        sql::extends(old(conn).calls(), final(conn).calls()),
        r is Ok ==> sql::writes_ok(old(conn).calls(), final(conn).calls()),
        sql::all_met(old(conn).calls(), final(conn).calls()) ==> r is Ok,
        final(conn).calls().len() == old(conn).calls().len() + 1,
        sql::text_call(final(conn).calls(), old(conn).calls().len() as int, PLAYBOOK_EXISTS_SQL@, seq![playbook_id@]),
        r is Ok <==> sql::met(final(conn).calls().last()),
        r is Ok ==> sql::first_row(final(conn).calls().last().outcome) is Some,
        final(conn).calls().last().outcome is Rows && sql::first_row(final(conn).calls().last().outcome) is None
            ==> r == Err::<(), AppError>(AppError::NotFound),
{
    sql::query_one(conn, PLAYBOOK_EXISTS_SQL, &sql::params1(sql::text_param(playbook_id)), &[sql::Kind::Int])?;
    Ok(())
}

/// Refreshes a playbook's timestamp.
pub const TOUCH_PLAYBOOK_SQL: &'static str = "UPDATE playbooks SET updated_at = ?1 WHERE id = ?2";

fn touch_playbook(conn: &mut Db, playbook_id: &str) -> (r: AppResult<()>)
    ensures
        sql::extends(old(conn).calls(), final(conn).calls()),
        r is Ok ==> sql::writes_ok(old(conn).calls(), final(conn).calls()),
        sql::all_met(old(conn).calls(), final(conn).calls()) ==> r is Ok,
        final(conn).calls().len() == old(conn).calls().len() + 1,
        r is Ok ==> prompt_service::stamped_write(final(conn).calls().last(), TOUCH_PLAYBOOK_SQL@, playbook_id@),
{
    let now = now_rfc3339();
    let r = sql::execute_one(
        conn,
        TOUCH_PLAYBOOK_SQL,
        &sql::params2(sql::text_param(now.as_str()), sql::text_param(playbook_id)),
    );
    r
}

}
