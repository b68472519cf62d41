//! Write transactions: every mutation runs inside `BEGIN IMMEDIATE`; it ends
//! with `COMMIT` only when none of its writes failed, and with `ROLLBACK`
//! otherwise.

use vstd::prelude::*;

use crate::db::sql::{extends, Db, SqlCall, SqlOutcome};

use crate::db::sql;
use crate::error::AppResult;

verus! {

broadcast use crate::db::sql::group_calls;

/// The statement that opens a write transaction.
pub const BEGIN_SQL: &'static str = "BEGIN IMMEDIATE";

/// The statement that makes a transaction's writes durable.
pub const COMMIT_SQL: &'static str = "COMMIT";

/// The statement that discards a transaction's writes.
pub const ROLLBACK_SQL: &'static str = "ROLLBACK";

/// `call` is the parameterless statement `sql`, with the given outcome.
pub open spec fn batch_call(call: SqlCall, sql: Seq<char>, ok: bool) -> bool {
    &&& call.sql == sql
    &&& call.params.len() == 0
    &&& if ok { call.outcome is Done } else { call.outcome is Failed }
}

/// The statements from `before` to `after` form one write transaction that
/// ended as `ok` says: it opens with `BEGIN IMMEDIATE`; when it succeeded,
/// that opening and a closing `COMMIT` both succeeded and no write in
/// between was refused; when it failed, either
/// the opening itself failed and nothing else was run, or the last statement
/// handed over was `ROLLBACK`.
pub open spec fn in_transaction(before: Seq<SqlCall>, after: Seq<SqlCall>, ok: bool) -> bool {
    let n = before.len() as int;
    &&& extends(before, after)
    &&& after.len() > n
    &&& after[n].sql == BEGIN_SQL@
    &&& after[n].params.len() == 0
    &&& ok ==> {
        &&& after.len() >= n + 2
        &&& after[n].outcome is Done
        &&& batch_call(after.last(), COMMIT_SQL@, true)
        &&& sql::writes_ok(before, after)
    }
    &&& !ok ==> {
        ||| (after.len() == n + 1 && after[n].outcome is Failed)
        ||| (after.len() >= n + 2 && after[n].outcome is Done && after.last().sql == ROLLBACK_SQL@
            && after.last().params.len() == 0)
    }
}

/// Starts an immediate (write-locking) transaction.
pub fn begin(conn: &mut Db) -> (r: AppResult<()>)
    ensures
        extends(old(conn).calls(), final(conn).calls()),
        final(conn).calls() == old(conn).calls().push(sql::call_of(BEGIN_SQL@, Seq::empty(), sql::Expect::Batch,
            if r is Ok { SqlOutcome::Done } else { SqlOutcome::Failed })),
{
    sql::execute_batch(conn, BEGIN_SQL)
}

/// Commits when the work succeeded, rolls back when it failed. A failed
/// piece of work is reported as it failed; a successful one is returned
/// unless the commit itself fails.
pub fn finish<T>(conn: &mut Db, result: AppResult<T>) -> (r: AppResult<T>)
    ensures
        result is Err ==> r == result,
        r is Ok ==> r == result,
        extends(old(conn).calls(), final(conn).calls()),
        r is Ok ==> final(conn).calls().len() == old(conn).calls().len() + 1
            && batch_call(final(conn).calls().last(), COMMIT_SQL@, true),
        r is Ok ==> sql::writes_ok(old(conn).calls(), final(conn).calls()),
        result is Ok && sql::all_met(old(conn).calls(), final(conn).calls()) ==> r is Ok,
        r is Err ==> final(conn).calls().len() > old(conn).calls().len()
            && final(conn).calls().last().sql == ROLLBACK_SQL@
            && final(conn).calls().last().params.len() == 0,
{
    match result {
        Ok(value) => {
            match sql::execute_batch(conn, COMMIT_SQL) {
                Ok(()) => Ok(value),
                Err(error) => {
                    let _ = sql::execute_batch(conn, ROLLBACK_SQL);
                    Err(error)
                }
            }
        }
        Err(error) => {
            let _ = sql::execute_batch(conn, ROLLBACK_SQL);
            Err(error)
        }
    }
}

/// Runs the opening of a transaction and, when it succeeded, closes it after
/// the work: the shape every write of the library has.
pub proof fn lemma_transaction_shape(s0: Seq<SqlCall>, s1: Seq<SqlCall>, s2: Seq<SqlCall>, s3: Seq<SqlCall>, begun: bool, ok: bool)
    requires
        s1 == s0.push(sql::call_of(BEGIN_SQL@, Seq::empty(), sql::Expect::Batch, if begun { SqlOutcome::Done } else { SqlOutcome::Failed })),
        !begun ==> s3 == s1 && !ok,
        begun ==> extends(s1, s2) && extends(s2, s3),
        begun && ok ==> s3.len() == s2.len() + 1 && batch_call(s3.last(), COMMIT_SQL@, true),
        begun && ok ==> sql::writes_ok(s1, s2) && sql::writes_ok(s2, s3),
        begun && !ok ==> s3.len() > s2.len() && s3.last().sql == ROLLBACK_SQL@ && s3.last().params.len() == 0,
    ensures
        in_transaction(s0, s3, ok),
        !begun ==> !sql::all_met(s0, s3),
        begun && sql::all_met(s0, s3) ==> sql::all_met(s1, s2) && sql::all_met(s2, s3),
{
    if !begun {
        assert(!sql::met(s3[s0.len() as int]));
    }
    if begun && sql::all_met(s0, s3) {
        assert(sql::all_met(s1, s3));
        assert(sql::all_met(s1, s2));
    }
    if begun && ok {
        assert(sql::writes_ok(s0, s1));
        assert(sql::writes_ok(s0, s2));
    }
}

/// A write that failed after its transaction opened was rolled back: the
/// last statement handed to SQLite is `ROLLBACK`, so none of its writes is
/// kept. (When the opening itself failed, nothing else was handed over.)
pub proof fn lemma_failed_write_is_rolled_back(before: Seq<SqlCall>, after: Seq<SqlCall>)
    requires
        in_transaction(before, after, false),
    ensures
        after.len() == before.len() + 1 ==> after[before.len() as int].outcome is Failed,
        after.len() > before.len() + 1 ==> after.last().sql == ROLLBACK_SQL@ && after.last().params.len() == 0,
{
}

/// A write that succeeded was committed last, after every one of its
/// statements, its transaction was opened first, and none of the writes
/// in between was refused by SQLite.
pub proof fn lemma_successful_write_is_committed(before: Seq<SqlCall>, after: Seq<SqlCall>)
    requires
        in_transaction(before, after, true),
    ensures
        after[before.len() as int].sql == BEGIN_SQL@,
        after[before.len() as int].outcome is Done,
        after.last().sql == COMMIT_SQL@,
        after.last().outcome is Done,
        after.len() >= before.len() + 2,
        forall|i: int| before.len() < i < after.len() - 1 ==> !sql::write_failed(#[trigger] after[i]),
{
}

/// A write that SQLite refused anywhere in a transaction makes the whole
/// call fail: a transaction that succeeded holds no refused write.
pub proof fn lemma_refused_write_fails_the_call(before: Seq<SqlCall>, after: Seq<SqlCall>, ok: bool, i: int)
    requires
        in_transaction(before, after, ok),
        before.len() <= i < after.len(),
        sql::write_failed(after[i]),
    ensures
        !ok,
{
}

}
