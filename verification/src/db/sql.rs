//! The library's narrow door to SQLite: every statement goes through the
//! handful of trusted calls below, with parameters and row values carried as
//! plain `SqlValue`s that verified code can read.

use vstd::prelude::*;

use crate::error::{AppError, AppResult};

verus! {

#[verifier::external_type_specification]
#[verifier::external_body]
pub struct ExConnection(rusqlite::Connection);

#[verifier::external_type_specification]
#[verifier::external_body]
pub struct ExSqliteError(rusqlite::Error);

#[verifier::external_type_specification]
#[verifier::external_body]
pub struct ExSqliteValue(rusqlite::types::Value);

/// A value bound to a statement parameter or read from a result column.
/// `Other` stands for column values of a storage class the schema never uses
/// (real numbers and blobs).
#[derive(Debug, Clone, PartialEq, Eq)]
pub enum SqlValue {
    Null,
    Integer(i64),
    Text(String),
    Other,
}

/// How a failed SQLite call is told apart by the library.
#[derive(Debug, Clone, PartialEq, Eq)]
pub enum SqlError {
    NoRows,
    ConstraintViolation,
    Other(String),
}

/// Builds the `rusqlite::types::Value` bound for a parameter: `Null`,
/// `Integer` or `Text` with the same contents (`Other` is bound as `Null`).
#[verifier::external_body]
fn sqlite_value(p: &SqlValue) -> rusqlite::types::Value {
    match p {
        SqlValue::Null | SqlValue::Other => rusqlite::types::Value::Null,
        SqlValue::Integer(i) => rusqlite::types::Value::Integer(*i),
        SqlValue::Text(t) => rusqlite::types::Value::Text(t.clone()),
    }
}

/// Reads a column value of `rusqlite::types::Value`: `Null`, `Integer` and
/// `Text` keep their contents; reals and blobs become `Other`.
#[verifier::external_body]
fn sql_value(v: rusqlite::types::Value) -> SqlValue {
    match v {
        rusqlite::types::Value::Null => SqlValue::Null,
        rusqlite::types::Value::Integer(i) => SqlValue::Integer(i),
        rusqlite::types::Value::Text(t) => SqlValue::Text(t),
        rusqlite::types::Value::Real(_) => SqlValue::Other,
        rusqlite::types::Value::Blob(_) => SqlValue::Other,
    }
}

/// Tells apart the `rusqlite::Error` variants the library reacts to:
/// `QueryReturnedNoRows`, and `SqliteFailure` with the constraint-violation
/// code; any other error keeps only its `Display` text.
#[verifier::external_body]
fn sql_error(e: rusqlite::Error) -> SqlError {
    match e {
        rusqlite::Error::QueryReturnedNoRows => SqlError::NoRows,
        rusqlite::Error::SqliteFailure(ref f, _)
            if f.code == rusqlite::ErrorCode::ConstraintViolation => SqlError::ConstraintViolation,
        other => SqlError::Other(other.to_string()),
    }
}

/// `rusqlite::Connection::execute`: runs one statement with positional
/// parameters and returns the number of rows it changed. What that number is
/// depends on the database's contents, so nothing is stated of it.
#[verifier::external_body]
fn sql_execute(conn: &rusqlite::Connection, sql: &str, params: Vec<rusqlite::types::Value>) -> (r: Result<usize, rusqlite::Error>) {
    conn.execute(sql, rusqlite::params_from_iter(params))
}

/// `rusqlite::Connection::execute_batch`: runs statements without parameters.
#[verifier::external_body]
fn sql_execute_batch(conn: &rusqlite::Connection, sql: &str) -> (r: Result<(), rusqlite::Error>) {
    conn.execute_batch(sql)
}

/// `rusqlite::Connection::last_insert_rowid`.
#[verifier::external_body]
fn sql_last_insert_rowid(conn: &rusqlite::Connection) -> (r: i64) {
    conn.last_insert_rowid()
}

/// `rusqlite::Connection::prepare` and `Statement::query`, then `Rows::next`
/// and `Row::get` for the first `ncols` columns of every row, in the order
/// SQLite returns the rows. Which rows come back depends on the database, so
/// the contract states only that each row read has `ncols` values.
#[verifier::external_body]
fn sql_query(conn: &rusqlite::Connection, sql: &str, params: Vec<rusqlite::types::Value>, ncols: usize) -> (r: Result<Vec<Vec<rusqlite::types::Value>>, rusqlite::Error>)
    ensures
        r matches Ok(rows) ==> forall|i: int| 0 <= i < rows.len() ==> #[trigger] rows[i].len() == ncols,
{
    let mut stmt = conn.prepare(sql)?;
    let mut rows = stmt.query(rusqlite::params_from_iter(params))?;
    let mut out = Vec::new();
    while let Some(row) = rows.next()? {
        let mut values = Vec::new();
        for i in 0..ncols {
            values.push(row.get(i)?);
        }
        out.push(values);
    }
    Ok(out)
}

// ---------------------------------------------------------------------
// Verified helpers over the trusted calls.
// ---------------------------------------------------------------------

/// The values bound for a parameter list, in order.
fn sqlite_values(params: &Vec<SqlValue>) -> (r: Vec<rusqlite::types::Value>)
    ensures
        r.len() == params.len(),
{
    let mut r: Vec<rusqlite::types::Value> = Vec::new();
    for i in 0..params.len()
        invariant
            r.len() == i,
    {
        r.push(sqlite_value(&params[i]));
    }
    r
}

/// The library's error for a failed SQLite call.
fn app_error(e: rusqlite::Error) -> (a: AppError)
    ensures
        a is NotFound || a is Conflict || a is Internal,
{
    AppError::from_sql(sql_error(e))
}

/// What became of a statement handed to SQLite: the rows a query returned,
/// the number of rows a statement changed, a batch that ran, or a failure.
pub enum SqlOutcome {
    Rows(Seq<Seq<SqlValue>>),
    Changed(nat),
    Done,
    Failed,
}

/// The kind of value a column must hold for the library to read it.
#[derive(Debug, Clone, Copy, PartialEq, Eq)]
pub enum Kind {
    Text,
    OptText,
    Int,
    IntIn(i64, i64),
}

/// `v` is a value of kind `k`.
pub open spec fn kind_ok(v: SqlValue, k: Kind) -> bool {
    match k {
        Kind::Text => v is Text,
        Kind::OptText => v is Text || v is Null,
        Kind::Int => v is Integer,
        Kind::IntIn(lo, hi) => v matches SqlValue::Integer(n) && lo <= n && n <= hi,
    }
}

/// `row` has one value of each listed kind, in order.
pub open spec fn fits(row: Seq<SqlValue>, kinds: Seq<Kind>) -> bool {
    &&& row.len() == kinds.len()
    &&& forall|j: int| 0 <= j < kinds.len() ==> kind_ok(#[trigger] row[j], kinds[j])
}

/// Every row has one value of each listed kind.
pub open spec fn rows_fit(rows: Seq<Seq<SqlValue>>, kinds: Seq<Kind>) -> bool {
    forall|i: int| 0 <= i < rows.len() ==> fits(#[trigger] rows[i], kinds)
}

/// What the library needs a statement to answer in order to go on: rows of
/// the listed kinds (`Row`: and at least one), some count of changed rows,
/// exactly one changed row, or a batch that ran.
pub enum Expect {
    Rows(Seq<Kind>),
    Row(Seq<Kind>),
    Write,
    One,
    Batch,
}

/// One statement handed to SQLite: its text, the parameters bound to it,
/// what the library needed from it, and what came back.
pub struct SqlCall {
    pub sql: Seq<char>,
    pub params: Seq<SqlValue>,
    pub expect: Expect,
    pub outcome: SqlOutcome,
}

/// The statement answered what the library needed from it.
pub open spec fn met(call: SqlCall) -> bool {
    match call.expect {
        Expect::Rows(k) => call.outcome matches SqlOutcome::Rows(rows) && rows_fit(rows, k),
        Expect::Row(k) => call.outcome matches SqlOutcome::Rows(rows) && rows_fit(rows, k) && rows.len() > 0,
        Expect::Write => call.outcome is Changed,
        Expect::One => call.outcome == SqlOutcome::Changed(1),
        Expect::Batch => call.outcome is Done,
    }
}

/// Every statement after `a`, up to the end of `b`, answered what the
/// library needed from it.
pub open spec fn all_met(a: Seq<SqlCall>, b: Seq<SqlCall>) -> bool {
    forall|i: int| a.len() <= i < b.len() ==> met(#[trigger] b[i])
}

/// A write (or a batch) that SQLite refused.
pub open spec fn write_failed(call: SqlCall) -> bool {
    &&& call.outcome is Failed
    &&& !(call.expect is Rows)
    &&& !(call.expect is Row)
}

/// No write after `a`, up to the end of `b`, was refused.
pub open spec fn writes_ok(a: Seq<SqlCall>, b: Seq<SqlCall>) -> bool {
    forall|i: int| a.len() <= i < b.len() ==> !write_failed(#[trigger] b[i])
}

/// A database connection, with the record of every statement the library
/// has handed to it, in order.
pub struct Db {
    conn: rusqlite::Connection,
    log: Ghost<Seq<SqlCall>>,
}

impl Db {
    /// The statements handed to SQLite through this connection so far.
    pub closed spec fn calls(&self) -> Seq<SqlCall> {
        self.log@
    }

    /// Wraps an open connection; nothing has been handed to it yet.
    pub fn new(conn: rusqlite::Connection) -> (d: Db)
        ensures
            d.calls() == Seq::<SqlCall>::empty(),
    {
        Db { conn, log: Ghost(Seq::empty()) }
    }

    /// The underlying connection.
    pub fn connection(&self) -> &rusqlite::Connection {
        &self.conn
    }
}

/// `b` is `a` followed by further statements.
pub open spec fn extends(a: Seq<SqlCall>, b: Seq<SqlCall>) -> bool {
    &&& a.len() <= b.len()
    &&& forall|i: int| 0 <= i < a.len() ==> #[trigger] b[i] == a[i]
}

/// Growing a record by further statements is transitive.
pub broadcast proof fn lemma_extends_trans(a: Seq<SqlCall>, b: Seq<SqlCall>, c: Seq<SqlCall>)
    requires
        #[trigger] extends(a, b),
        #[trigger] extends(b, c),
    ensures
        extends(a, c),
{
}

/// No refused write in two consecutive stretches means none in both.
pub broadcast proof fn lemma_writes_ok_trans(a: Seq<SqlCall>, b: Seq<SqlCall>, c: Seq<SqlCall>)
    requires
        #[trigger] writes_ok(a, b),
        #[trigger] writes_ok(b, c),
        extends(a, b),
        extends(b, c),
    ensures
        writes_ok(a, c),
{
    assert forall|i: int| a.len() <= i < c.len() implies !write_failed(#[trigger] c[i]) by {
        if i < b.len() {
            assert(c[i] == b[i]);
        }
    }
}

/// In a stretch where every statement answered what was needed, so did
/// every statement of any later part of it.
pub broadcast proof fn lemma_all_met_within(a: Seq<SqlCall>, b: Seq<SqlCall>, c: Seq<SqlCall>)
    requires
        extends(a, b),
        extends(b, c),
    ensures
        #![trigger all_met(a, c), all_met(b, c)]
        all_met(a, c) ==> all_met(b, c),
{
}

/// In a stretch where every statement answered what was needed, so did
/// every statement of any earlier part of it.
pub broadcast proof fn lemma_all_met_prefix(a: Seq<SqlCall>, b: Seq<SqlCall>, c: Seq<SqlCall>)
    requires
        extends(a, b),
        extends(b, c),
    ensures
        #![trigger all_met(a, c), all_met(a, b)]
        all_met(a, c) ==> all_met(a, b),
{
    if all_met(a, c) {
        assert forall|i: int| a.len() <= i < b.len() implies met(#[trigger] b[i]) by {
            assert(b[i] == c[i]);
        }
    }
}

/// In a stretch where every statement answered what was needed, so did its
/// last statement.
pub broadcast proof fn lemma_all_met_last(a: Seq<SqlCall>, b: Seq<SqlCall>)
    requires
        extends(a, b),
        a.len() < b.len(),
    ensures
        #[trigger] all_met(a, b) ==> met(b.last()),
{
}

/// The facts about statement records that every service leans on.
pub broadcast group group_calls {
    lemma_extends_trans,
    lemma_writes_ok_trans,
    lemma_all_met_within,
    lemma_all_met_prefix,
    lemma_all_met_last,
}

/// The rows of a query, as plain sequences.
pub open spec fn rows_view(rows: Seq<Vec<SqlValue>>) -> Seq<Seq<SqlValue>> {
    rows.map_values(|r: Vec<SqlValue>| r@)
}

/// The record of a statement with the given text, parameters and need.
pub open spec fn call_of(sql: Seq<char>, params: Seq<SqlValue>, expect: Expect, outcome: SqlOutcome) -> SqlCall {
    SqlCall { sql, params, expect, outcome }
}

/// Runs a statement, mapping a failure to the library's error.
pub fn execute(conn: &mut Db, sql: &str, params: &Vec<SqlValue>) -> (r: AppResult<usize>)
    ensures
        extends(old(conn).calls(), final(conn).calls()),
        final(conn).calls() == old(conn).calls().push(call_of(sql@, params@, Expect::Write, match r {
            Ok(n) => SqlOutcome::Changed(n as nat),
            Err(_) => SqlOutcome::Failed,
        })),
        r is Ok <==> met(final(conn).calls().last()),
        r is Ok ==> writes_ok(old(conn).calls(), final(conn).calls()),
        all_met(old(conn).calls(), final(conn).calls()) ==> r is Ok,
        r matches Err(e) ==> e is NotFound || e is Conflict || e is Internal,
{
    let r = match sql_execute(&conn.conn, sql, sqlite_values(params)) {
        Ok(n) => Ok(n),
        Err(e) => Err(app_error(e)),
    };
    let ghost before = conn.log@;
    proof {
        conn.log@ = conn.log@.push(call_of(sql@, params@, Expect::Write, match r {
            Ok(n) => SqlOutcome::Changed(n as nat),
            Err(_) => SqlOutcome::Failed,
        }));
        lemma_all_met_last(before, conn.log@);
    }
    r
}

/// Runs a statement that must change exactly one row: none means the
/// target does not exist (`NotFound`); more is an internal error.
pub fn execute_one(conn: &mut Db, sql: &str, params: &Vec<SqlValue>) -> (r: AppResult<()>)
    ensures
        extends(old(conn).calls(), final(conn).calls()),
        final(conn).calls().len() == old(conn).calls().len() + 1,
        final(conn).calls().drop_last() == old(conn).calls(),
        final(conn).calls().last().sql == sql@,
        final(conn).calls().last().params == params@,
        final(conn).calls().last().expect == Expect::One,
        final(conn).calls().last().outcome is Changed || final(conn).calls().last().outcome is Failed,
        r is Ok <==> met(final(conn).calls().last()),
        r is Ok ==> writes_ok(old(conn).calls(), final(conn).calls()),
        all_met(old(conn).calls(), final(conn).calls()) ==> r is Ok,
        final(conn).calls().last().outcome == SqlOutcome::Changed(0) ==> r == Err::<(), AppError>(AppError::NotFound),
        r matches Err(e) ==> e is NotFound || e is Conflict || e is Internal,
{
    let r = match sql_execute(&conn.conn, sql, sqlite_values(params)) {
        Ok(n) => Ok(n),
        Err(e) => Err(app_error(e)),
    };
    let ghost before = conn.log@;
    proof {
        conn.log@ = conn.log@.push(call_of(sql@, params@, Expect::One, match r {
            Ok(n) => SqlOutcome::Changed(n as nat),
            Err(_) => SqlOutcome::Failed,
        }));
        lemma_all_met_last(before, conn.log@);
    }
    let affected = r?;
    if affected == 1 {
        Ok(())
    } else if affected == 0 {
        Err(AppError::NotFound)
    } else {
        Err(AppError::internal("A targeted write changed more than one row"))
    }
}

/// Runs parameterless statements, mapping a failure to the library's error.
pub fn execute_batch(conn: &mut Db, sql: &str) -> (r: AppResult<()>)
    ensures
        extends(old(conn).calls(), final(conn).calls()),
        final(conn).calls() == old(conn).calls().push(call_of(sql@, Seq::empty(), Expect::Batch,
            if r is Ok { SqlOutcome::Done } else { SqlOutcome::Failed })),
        r is Ok <==> met(final(conn).calls().last()),
        r is Ok ==> writes_ok(old(conn).calls(), final(conn).calls()),
        all_met(old(conn).calls(), final(conn).calls()) ==> r is Ok,
{
    let r = match sql_execute_batch(&conn.conn, sql) {
        Ok(()) => Ok(()),
        Err(e) => Err(app_error(e)),
    };
    let ghost before = conn.log@;
    proof {
        conn.log@ = conn.log@.push(call_of(sql@, Seq::empty(), Expect::Batch, if r is Ok { SqlOutcome::Done } else { SqlOutcome::Failed }));
        lemma_all_met_last(before, conn.log@);
    }
    r
}

/// The rowid of the last row inserted on this connection.
pub fn last_insert_rowid(conn: &Db) -> i64 {
    sql_last_insert_rowid(&conn.conn)
}

/// Whether a value is of a kind.
fn kind_matches(v: &SqlValue, k: Kind) -> (b: bool)
    ensures
        b == kind_ok(*v, k),
{
    match k {
        Kind::Text => matches!(v, SqlValue::Text(_)),
        Kind::OptText => matches!(v, SqlValue::Text(_) | SqlValue::Null),
        Kind::Int => matches!(v, SqlValue::Integer(_)),
        Kind::IntIn(lo, hi) => match v {
            SqlValue::Integer(n) => lo <= *n && *n <= hi,
            _ => false,
        },
    }
}

/// Whether every row has one value of each listed kind.
fn check_rows(rows: &Vec<Vec<SqlValue>>, kinds: &[Kind]) -> (b: bool)
    requires
        forall|i: int| 0 <= i < rows.len() ==> #[trigger] rows[i].len() == kinds.len(),
    ensures
        b == rows_fit(rows_view(rows@), kinds@),
{
    for i in 0..rows.len()
        invariant
            forall|k: int| 0 <= k < rows.len() ==> #[trigger] rows[k].len() == kinds.len(),
            forall|k: int| 0 <= k < i ==> fits(#[trigger] rows_view(rows@)[k], kinds@),
    {
        for j in 0..kinds.len()
            invariant
                i < rows.len(),
                rows[i as int].len() == kinds.len(),
                forall|m: int| 0 <= m < j ==> kind_ok(#[trigger] rows[i as int]@[m], kinds@[m]),
        {
            if !kind_matches(&rows[i][j], kinds[j]) {
                proof { assert(!fits(rows_view(rows@)[i as int], kinds@)); }
                return false;
            }
        }
        proof { assert(fits(rows_view(rows@)[i as int], kinds@)); }
    }
    true
}

/// Runs a query whose rows must hold the listed kinds (and, when `need_row`,
/// that must answer at least one row), recording that need. A query that
/// answers rows of other kinds is an internal error; too few rows are not an
/// error here, only an unmet need.
pub fn fetch(conn: &mut Db, sql: &str, params: &Vec<SqlValue>, kinds: &[Kind], need_row: bool) -> (r: AppResult<Vec<Vec<SqlValue>>>)
    ensures
        extends(old(conn).calls(), final(conn).calls()),
        writes_ok(old(conn).calls(), final(conn).calls()),
        final(conn).calls().len() == old(conn).calls().len() + 1,
        final(conn).calls().drop_last() == old(conn).calls(),
        final(conn).calls().last().sql == sql@,
        final(conn).calls().last().params == params@,
        final(conn).calls().last().expect == (if need_row { Expect::Row(kinds@) } else { Expect::Rows(kinds@) }),
        r is Err <==> !(final(conn).calls().last().outcome matches SqlOutcome::Rows(rows) && rows_fit(rows, kinds@)),
        all_met(old(conn).calls(), final(conn).calls()) ==> r is Ok,
        r matches Ok(rows) ==> final(conn).calls().last().outcome == SqlOutcome::Rows(rows_view(rows@))
            && rows_fit(rows_view(rows@), kinds@),
        r matches Ok(rows) ==> forall|i: int| 0 <= i < rows.len() ==> #[trigger] rows[i].len() == kinds.len(),
        r matches Err(e) ==> e is Conflict || e is Internal,
        r matches Err(e) ==> final(conn).calls().last().outcome is Failed || e is Internal,
        final(conn).calls().last().outcome is Rows || final(conn).calls().last().outcome is Failed,
{
    let q = query_rows(&conn.conn, sql, params, kinds.len());
    let ghost outcome = match &q {
        Ok(rows) => SqlOutcome::Rows(rows_view(rows@)),
        Err(_) => SqlOutcome::Failed,
    };
    let ghost before = conn.log@;
    proof {
        conn.log@ = conn.log@.push(call_of(sql@, params@,
            if need_row { Expect::Row(kinds@) } else { Expect::Rows(kinds@) }, outcome));
        lemma_all_met_last(before, conn.log@);
    }
    let rows = q?;
    if !check_rows(&rows, kinds) {
        return Err(AppError::internal("Invalid column type"));
    }
    Ok(rows)
}

/// Every row of a query, each of the listed kinds.
pub fn query_all(conn: &mut Db, sql: &str, params: &Vec<SqlValue>, kinds: &[Kind]) -> (r: AppResult<Vec<Vec<SqlValue>>>)
    ensures
        extends(old(conn).calls(), final(conn).calls()),
        writes_ok(old(conn).calls(), final(conn).calls()),
        final(conn).calls().len() == old(conn).calls().len() + 1,
        final(conn).calls().drop_last() == old(conn).calls(),
        final(conn).calls().last().sql == sql@,
        final(conn).calls().last().params == params@,
        final(conn).calls().last().expect == Expect::Rows(kinds@),
        r is Ok <==> met(final(conn).calls().last()),
        all_met(old(conn).calls(), final(conn).calls()) ==> r is Ok,
        r matches Ok(rows) ==> final(conn).calls().last().outcome == SqlOutcome::Rows(rows_view(rows@))
            && rows_fit(rows_view(rows@), kinds@),
        r matches Ok(rows) ==> forall|i: int| 0 <= i < rows.len() ==> #[trigger] rows[i].len() == kinds.len(),
        r matches Err(e) ==> e is Conflict || e is Internal,
{
    fetch(conn, sql, params, kinds, false)
}

/// The library's error for a query SQLite could not run: a missing row is
/// told apart from the rows a query answers, never from a failure.
fn query_error(e: rusqlite::Error) -> (a: AppError)
    ensures
        a is Conflict || a is Internal,
{
    match app_error(e) {
        AppError::NotFound => AppError::internal("Query returned no rows"),
        other => other,
    }
}

fn query_rows(conn: &rusqlite::Connection, sql: &str, params: &Vec<SqlValue>, ncols: usize) -> (r: AppResult<Vec<Vec<SqlValue>>>)
    ensures
        r matches Ok(rows) ==> forall|i: int| 0 <= i < rows.len() ==> #[trigger] rows[i].len() == ncols,
        r matches Err(e) ==> e is Conflict || e is Internal,
{
    let raw = match sql_query(conn, sql, sqlite_values(params), ncols) {
        Ok(rows) => rows,
        Err(e) => return Err(query_error(e)),
    };
    let mut raw = raw;
    let mut rows: Vec<Vec<SqlValue>> = Vec::new();
    while raw.len() > 0
        invariant
            forall|i: int| 0 <= i < raw.len() ==> #[trigger] raw[i].len() == ncols,
            forall|i: int| 0 <= i < rows.len() ==> #[trigger] rows[i].len() == ncols,
        decreases raw.len(),
    {
        let mut values = raw.remove(0);
        let m = values.len();
        let mut row: Vec<SqlValue> = Vec::new();
        while values.len() > 0
            invariant
                row.len() + values.len() == m,
            decreases values.len(),
        {
            let v = values.remove(0);
            row.push(sql_value(v));
        }
        rows.push(row);
    }
    Ok(rows)
}

/// What a query that reads at most one row gave: `None` for no row, the first
/// row otherwise.
pub open spec fn first_row(o: SqlOutcome) -> Option<Seq<SqlValue>> {
    match o {
        SqlOutcome::Rows(rows) => if rows.len() == 0 { None } else { Some(rows[0]) },
        _ => None,
    }
}

/// `v` is a text value with contents `s`.
pub open spec fn text_is(v: SqlValue, s: Seq<char>) -> bool {
    v matches SqlValue::Text(t) && t@ == s
}

/// `v` is the nullable text `s`: text with its contents, or NULL for none.
pub open spec fn opt_text_is(v: SqlValue, s: Option<Seq<char>>) -> bool {
    match s {
        Some(t) => text_is(v, t),
        None => v is Null,
    }
}

/// The record at position `i` is the statement `sql` with parameters that
/// satisfy nothing more than being those listed by `params` as text.
pub open spec fn text_call(calls: Seq<SqlCall>, i: int, sql: Seq<char>, params: Seq<Seq<char>>) -> bool {
    &&& 0 <= i < calls.len()
    &&& calls[i].sql == sql
    &&& calls[i].params.len() == params.len()
    &&& forall|k: int| 0 <= k < params.len() ==> text_is(#[trigger] calls[i].params[k], params[k])
}

/// The first row of a query (of the listed kinds), or `None` when it returns no row.
pub fn query_opt(conn: &mut Db, sql: &str, params: &Vec<SqlValue>, kinds: &[Kind]) -> (r: AppResult<Option<Vec<SqlValue>>>)
    ensures
        extends(old(conn).calls(), final(conn).calls()),
        writes_ok(old(conn).calls(), final(conn).calls()),
        final(conn).calls().len() == old(conn).calls().len() + 1,
        final(conn).calls().drop_last() == old(conn).calls(),
        final(conn).calls().last().sql == sql@,
        final(conn).calls().last().params == params@,
        final(conn).calls().last().expect == Expect::Rows(kinds@),
        r is Ok <==> met(final(conn).calls().last()),
        all_met(old(conn).calls(), final(conn).calls()) ==> r is Ok,
        r is Err <==> !(final(conn).calls().last().outcome matches SqlOutcome::Rows(rows) && rows_fit(rows, kinds@)),
        r is Ok ==> final(conn).calls().last().outcome is Rows,
        r matches Ok(o) ==> match o {
            Some(row) => first_row(final(conn).calls().last().outcome) == Some(row@) && row.len() == kinds.len()
                && fits(row@, kinds@),
            None => first_row(final(conn).calls().last().outcome) is None,
        },
        r matches Err(e) ==> e is Conflict || e is Internal,
{
    let mut rows = fetch(conn, sql, params, kinds, false)?;
    if rows.len() == 0 {
        Ok(None)
    } else {
        proof { assert(rows_view(rows@)[0] == rows@[0]@); }
        Ok(Some(rows.remove(0)))
    }
}

/// The first row of a query (of the listed kinds); a query that returns no
/// row is `NotFound`.
pub fn query_one(conn: &mut Db, sql: &str, params: &Vec<SqlValue>, kinds: &[Kind]) -> (r: AppResult<Vec<SqlValue>>)
    ensures
        extends(old(conn).calls(), final(conn).calls()),
        writes_ok(old(conn).calls(), final(conn).calls()),
        final(conn).calls().len() == old(conn).calls().len() + 1,
        final(conn).calls().drop_last() == old(conn).calls(),
        final(conn).calls().last().sql == sql@,
        final(conn).calls().last().params == params@,
        final(conn).calls().last().expect == Expect::Row(kinds@),
        r is Ok <==> met(final(conn).calls().last()),
        all_met(old(conn).calls(), final(conn).calls()) ==> r is Ok,
        r matches Ok(row) ==> first_row(final(conn).calls().last().outcome) == Some(row@) && row.len() == kinds.len()
            && fits(row@, kinds@),
        r matches Err(e) ==> (e is NotFound && final(conn).calls().last().outcome is Rows
            && first_row(final(conn).calls().last().outcome) is None)
            || final(conn).calls().last().outcome is Failed
            || (e is Internal && final(conn).calls().last().outcome is Rows),
        final(conn).calls().last().outcome is Rows && first_row(final(conn).calls().last().outcome) is None
            ==> r == Err::<Vec<SqlValue>, AppError>(AppError::NotFound),
        r == Err::<Vec<SqlValue>, AppError>(AppError::NotFound) ==> final(conn).calls().last().outcome is Rows
            && first_row(final(conn).calls().last().outcome) is None,
{
    let mut rows = fetch(conn, sql, params, kinds, true)?;
    if rows.len() == 0 {
        Err(AppError::NotFound)
    } else {
        proof { assert(rows_view(rows@)[0] == rows@[0]@); }
        Ok(rows.remove(0))
    }
}

}

verus! {

/// The text a column value holds, if it holds text.
pub open spec fn text_value(v: SqlValue) -> Option<Seq<char>> {
    match v {
        SqlValue::Text(s) => Some(s@),
        _ => None,
    }
}

/// Reads a non-null text column.
pub fn col_text(row: &Vec<SqlValue>, i: usize) -> (r: AppResult<String>)
    requires
        i < row.len(),
    ensures
        r is Ok <==> row[i as int] is Text,
        r matches Ok(s) ==> row[i as int] == SqlValue::Text(s),
        r matches Err(e) ==> e is Internal,
{
    match &row[i] {
        SqlValue::Text(s) => Ok(s.clone()),
        _ => Err(AppError::internal("Invalid column type")),
    }
}

/// Reads a nullable text column.
pub fn col_opt_text(row: &Vec<SqlValue>, i: usize) -> (r: AppResult<Option<String>>)
    requires
        i < row.len(),
    ensures
        r is Ok <==> (row[i as int] is Text || row[i as int] is Null),
        r matches Ok(Some(s)) ==> row[i as int] == SqlValue::Text(s),
        r matches Ok(None) ==> row[i as int] is Null,
        r matches Err(e) ==> e is Internal,
{
    match &row[i] {
        SqlValue::Text(s) => Ok(Some(s.clone())),
        SqlValue::Null => Ok(None),
        _ => Err(AppError::internal("Invalid column type")),
    }
}

/// Reads a non-null integer column.
pub fn col_int(row: &Vec<SqlValue>, i: usize) -> (r: AppResult<i64>)
    requires
        i < row.len(),
    ensures
        r is Ok <==> row[i as int] is Integer,
        r matches Ok(n) ==> row[i as int] == SqlValue::Integer(n),
        r matches Err(e) ==> e is Internal,
{
    match &row[i] {
        SqlValue::Integer(n) => Ok(*n),
        _ => Err(AppError::internal("Invalid column type")),
    }
}

/// Reads an integer column as a flag: any non-zero value is true.
pub fn col_bool(row: &Vec<SqlValue>, i: usize) -> (r: AppResult<bool>)
    requires
        i < row.len(),
    ensures
        r is Ok <==> row[i as int] is Integer,
        r matches Ok(b) ==> row[i as int] matches SqlValue::Integer(n) && b == (n != 0),
        r matches Err(e) ==> e is Internal,
{
    match &row[i] {
        SqlValue::Integer(n) => Ok(*n != 0),
        _ => Err(AppError::internal("Invalid column type")),
    }
}

/// A text parameter.
pub fn text_param(s: &str) -> (v: SqlValue)
    ensures
        v matches SqlValue::Text(t) && t@ == s@,
{
    SqlValue::Text(s.to_string())
}

/// A nullable text parameter.
pub fn opt_text_param(s: Option<&str>) -> (v: SqlValue)
    ensures
        match s {
            Some(s) => v matches SqlValue::Text(t) && t@ == s@,
            None => v is Null,
        },
{
    match s {
        Some(s) => SqlValue::Text(s.to_string()),
        None => SqlValue::Null,
    }
}

/// A boolean stored as an integer flag.
pub fn bool_param(b: bool) -> (v: SqlValue)
    ensures
        v == SqlValue::Integer(if b { 1 } else { 0 }),
{
    if b { SqlValue::Integer(1) } else { SqlValue::Integer(0) }
}

}

verus! {

pub fn params1(a: SqlValue) -> (v: Vec<SqlValue>)
    ensures
        v@ == seq![a],
{
    let mut v = Vec::new();
    v.push(a);
    v
}

pub fn params2(a: SqlValue, b: SqlValue) -> (v: Vec<SqlValue>)
    ensures
        v@ == seq![a, b],
{
    let mut v = Vec::new();
    v.push(a);
    v.push(b);
    v
}

pub fn params3(a: SqlValue, b: SqlValue, c: SqlValue) -> (v: Vec<SqlValue>)
    ensures
        v@ == seq![a, b, c],
{
    let mut v = Vec::new();
    v.push(a);
    v.push(b);
    v.push(c);
    v
}

pub fn params4(a: SqlValue, b: SqlValue, c: SqlValue, d: SqlValue) -> (v: Vec<SqlValue>)
    ensures
        v@ == seq![a, b, c, d],
{
    let mut v = Vec::new();
    v.push(a);
    v.push(b);
    v.push(c);
    v.push(d);
    v
}

pub fn params5(a: SqlValue, b: SqlValue, c: SqlValue, d: SqlValue, e: SqlValue) -> (v: Vec<SqlValue>)
    ensures
        v@ == seq![a, b, c, d, e],
{
    let mut v = Vec::new();
    v.push(a);
    v.push(b);
    v.push(c);
    v.push(d);
    v.push(e);
    v
}

}

verus! {

/// A nullable text parameter from an owned optional string.
pub fn opt_string_param(s: &Option<String>) -> (v: SqlValue)
    ensures
        match s {
            Some(s) => v matches SqlValue::Text(t) && t@ == s@,
            None => v is Null,
        },
{
    match s {
        Some(s) => SqlValue::Text(s.clone()),
        None => SqlValue::Null,
    }
}

}

