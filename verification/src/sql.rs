//! The calls into SQLite (through `rusqlite`) that the library makes, each
//! behind a trusted item, and the error text that the library builds from them.
use vstd::prelude::*;
use rusqlite::{Connection, OptionalExtension, Transaction};
use crate::models::TagSummary;

verus! {

/// `rusqlite::Connection`: an open SQLite database. Opaque to the library.
#[verifier::external_type_specification]
#[verifier::external_body]
pub struct ExConnection(rusqlite::Connection);

/// `rusqlite::Transaction`: an open transaction on a connection. Opaque to the library.
#[verifier::external_type_specification]
#[verifier::external_body]
pub struct ExTransaction<'conn>(rusqlite::Transaction<'conn>);

/// `rusqlite::Error`: the error of a failed SQLite call. Opaque to the library.
#[verifier::external_type_specification]
#[verifier::external_body]
pub struct ExSqlError(rusqlite::Error);

/// The columns of one row of an entity query, as SQLite returns them.
pub struct EntityRow {
    pub id: String,
    pub entity_type: String,
    pub title: String,
    pub summary: Option<String>,
    pub content: Option<String>,
    pub tags: Option<String>,
    pub created_at: String,
    pub updated_at: String,
}

/// `Connection::execute`: runs one statement with the positional parameters
/// `params` (`None` binds NULL) and returns the number of rows it changed.
/// The outcome depends on the database's contents; nothing is claimed.
#[verifier::external_body]
pub(crate) fn execute(
    conn: &Connection,
    sql: &str,
    params: &Vec<Option<String>>,
) -> Result<usize, rusqlite::Error> {
    conn.execute(sql, rusqlite::params_from_iter(params.iter()))
}

/// `Connection::execute_batch`: runs the statements of `sql` in turn.
/// The outcome depends on the database's contents; nothing is claimed.
#[verifier::external_body]
pub(crate) fn execute_batch(conn: &Connection, sql: &str) -> Result<(), rusqlite::Error> {
    conn.execute_batch(sql)
}

/// `Connection::query_row`, reading the first column of the first row as an
/// integer: the count that a `COUNT` query returns. Depends on the database's
/// contents; nothing is claimed.
#[verifier::external_body]
pub(crate) fn query_count(
    conn: &Connection,
    sql: &str,
    params: &Vec<String>,
) -> Result<i64, rusqlite::Error> {
    conn.query_row(sql, rusqlite::params_from_iter(params.iter()), |row| row.get(0))
}

/// `Connection::query_row` with `OptionalExtension::optional`, reading the first
/// column of the first row as text: `None` when the query returns no row.
/// Depends on the database's contents; nothing is claimed.
#[verifier::external_body]
pub(crate) fn query_optional_text(
    conn: &Connection,
    sql: &str,
    params: &Vec<String>,
) -> Result<Option<String>, rusqlite::Error> {
    conn.query_row(sql, rusqlite::params_from_iter(params.iter()), |row| row.get(0)).optional()
}

/// The stage at which a query over many rows failed: preparing the
/// statement, running it, or reading a row.
pub enum QueryFailure {
    Prepare(rusqlite::Error),
    Query(rusqlite::Error),
    Read(rusqlite::Error),
}

/// `Connection::prepare`, `Statement::query_map` and collecting the rows,
/// reading the first column of each row as text. Depends on the database's
/// contents; nothing is claimed.
#[verifier::external_body]
pub(crate) fn query_texts(
    conn: &Connection,
    sql: &str,
    params: &Vec<String>,
) -> Result<Vec<String>, QueryFailure> {
    let mut statement = conn.prepare(sql).map_err(QueryFailure::Prepare)?;
    let rows = statement.query_map(rusqlite::params_from_iter(params.iter()), |row| row.get(0))
        .map_err(QueryFailure::Query)?;
    rows.collect::<Result<Vec<String>, _>>().map_err(QueryFailure::Read)
}

/// `Connection::prepare` and `Statement::query_map`, reading the eight columns
/// of an entity query, the type column first: the rows read in order up to the
/// first row that could not be read, and that row's error. Depends on the
/// database's contents; nothing is claimed.
#[verifier::external_body]
pub(crate) fn query_entity_rows(
    conn: &Connection,
    sql: &str,
    params: &Vec<String>,
) -> Result<(Vec<EntityRow>, Option<rusqlite::Error>), QueryFailure> {
    let mut statement = conn.prepare(sql).map_err(QueryFailure::Prepare)?;
    let rows = statement.query_map(rusqlite::params_from_iter(params.iter()), |r| Ok(EntityRow {
        entity_type: r.get(1)?, id: r.get(0)?, title: r.get(2)?, summary: r.get(3)?,
        content: r.get(4)?, tags: r.get(5)?, created_at: r.get(6)?, updated_at: r.get(7)?,
    })).map_err(QueryFailure::Query)?;
    let mut read = Vec::new();
    for row in rows {
        match row { Ok(row) => read.push(row), Err(e) => return Ok((read, Some(e))) }
    }
    Ok((read, None))
}

/// `Connection::prepare`, `Statement::query_map` and collecting the rows,
/// reading a name and two integer counts per row. Depends on the database's
/// contents; nothing is claimed.
#[verifier::external_body]
pub(crate) fn query_tag_counts(conn: &Connection, sql: &str) -> Result<Vec<TagSummary>, QueryFailure> {
    let mut statement = conn.prepare(sql).map_err(QueryFailure::Prepare)?;
    let rows = statement.query_map([], |r| Ok(TagSummary {
        name: r.get(0)?, active_count: r.get(1)?, archived_count: r.get(2)?,
    })).map_err(QueryFailure::Query)?;
    rows.collect::<Result<Vec<TagSummary>, _>>().map_err(QueryFailure::Read)
}

/// `Connection::transaction`: begins a transaction that rolls back unless committed.
#[verifier::external_body]
pub(crate) fn begin_transaction(conn: &mut Connection) -> Result<Transaction<'_>, rusqlite::Error> {
    conn.transaction()
}

/// `Connection::unchecked_transaction`: begins a transaction through a shared
/// reference; it rolls back unless committed.
#[verifier::external_body]
pub(crate) fn begin_unchecked_transaction(conn: &Connection) -> Result<Transaction<'_>, rusqlite::Error> {
    conn.unchecked_transaction()
}

/// `Transaction`'s `Deref`: the connection that the transaction runs on.
#[verifier::external_body]
pub(crate) fn transaction_connection<'a, 'conn>(tx: &'a Transaction<'conn>) -> &'a Connection {
    tx
}

/// `Transaction::commit`: makes the transaction's changes permanent.
#[verifier::external_body]
pub(crate) fn commit(tx: Transaction<'_>) -> Result<(), rusqlite::Error> {
    tx.commit()
}

/// `rusqlite::Error`'s `Display`: the text that describes the error.
#[verifier::external_body]
pub(crate) fn error_text(error: &rusqlite::Error) -> String {
    error.to_string()
}

/// `uuid::Uuid::new_v4` and its `Display`: a fresh random identifier as text. Nothing is
/// claimed of it, as it rests on chance.
#[verifier::external_body]
pub(crate) fn new_id() -> String {
    uuid::Uuid::new_v4().to_string()
}

/// Whether `msg` reports a failed database call in the step `step`.
pub open spec fn reports(msg: Seq<char>, step: Seq<char>) -> bool {
    ("Failed to "@ + step + ": "@).is_prefix_of(msg)
}

/// Whether `msg` reports a failed database call in some step.
pub open spec fn database_failure(msg: Seq<char>) -> bool {
    "Failed to "@.is_prefix_of(msg)
}

/// A report of a failed step is a database failure.
pub proof fn lemma_reports_failure(msg: Seq<char>, step: Seq<char>)
    requires
        reports(msg, step),
    ensures
        database_failure(msg),
{
    let p = "Failed to "@ + step + ": "@;
    assert forall|i: int| 0 <= i < "Failed to "@.len() implies msg[i] == "Failed to "@[i] by {
        assert(msg[i] == p[i]);
    }
}

/// The message for a failed database call in the step `step`: "Failed to ",
/// the step, a colon, then `detail`.
pub fn step_failure(step: &str, detail: &str) -> (r: String)
    ensures
        r@ == "Failed to "@ + step@ + ": "@ + detail@,
        reports(r@, step@),
        database_failure(r@),
{
    let mut r = String::from_str("Failed to ");
    r.append(step);
    r.append(": ");
    r.append(detail);
    assert(("Failed to "@ + step@ + ": "@).is_prefix_of(r@)) by {
        assert(r@.subrange(0, ("Failed to "@ + step@ + ": "@).len() as int) =~= "Failed to "@ + step@ + ": "@);
    }
    proof {
        lemma_reports_failure(r@, step@);
    }
    r
}

/// The message for a failed database call in the step `step`, with the
/// error's own text as the detail.
pub fn failure(step: &str, error: &rusqlite::Error) -> (r: String)
    ensures
        reports(r@, step@),
        database_failure(r@),
{
    let detail = error_text(error);
    step_failure(step, detail.as_str())
}

/// `prefix` followed by `detail`.
pub fn message(prefix: &str, detail: &str) -> (r: String)
    ensures
        r@ == prefix@ + detail@,
{
    let mut r = String::from_str(prefix);
    r.append(detail);
    r
}

/// A statement to run: the step it performs (named in its failure message),
/// its SQL text and its positional parameters (`None` binds NULL).
pub struct SqlStatement {
    pub step: &'static str,
    pub sql: &'static str,
    pub params: Vec<Option<String>>,
}

/// The text of each parameter of a statement.
pub open spec fn param_texts(p: Seq<Option<String>>) -> Seq<Option<Seq<char>>> {
    p.map_values(
        |o: Option<String>|
            match o {
                Some(s) => Some(s@),
                None => None,
            },
    )
}

/// `s` performs the step `step` by running `sql` with the parameters `params`.
pub open spec fn statement_is(
    s: SqlStatement,
    step: Seq<char>,
    sql: Seq<char>,
    params: Seq<Option<Seq<char>>>,
) -> bool {
    &&& s.step@ == step
    &&& s.sql@ == sql
    &&& param_texts(s.params@) == params
}

/// Runs a statement; a failure is reported under the statement's step.
pub fn run_statement(conn: &Connection, statement: &SqlStatement) -> (r: Result<usize, String>)
    ensures
        r matches Err(m) ==> reports(m@, statement.step@) && database_failure(m@),
{
    match execute(conn, statement.sql, &statement.params) {
        Ok(rows) => Ok(rows),
        Err(e) => Err(failure(statement.step, &e)),
    }
}

/// The message for a failed query over many rows: the step named for the
/// stage that failed, then the error's own text.
pub fn query_failure(
    failure_at: &QueryFailure,
    prepare_step: &str,
    query_step: &str,
    read_step: &str,
) -> (r: String)
    ensures
        database_failure(r@),
        failure_at is Prepare ==> reports(r@, prepare_step@),
        failure_at is Query ==> reports(r@, query_step@),
        failure_at is Read ==> reports(r@, read_step@),
{
    match failure_at {
        QueryFailure::Prepare(e) => failure(prepare_step, e),
        QueryFailure::Query(e) => failure(query_step, e),
        QueryFailure::Read(e) => failure(read_step, e),
    }
}

/// Runs statements in order, stopping at the first that fails.
pub fn run_statements(conn: &Connection, statements: &Vec<SqlStatement>) -> (r: Result<(), String>)
    ensures
        r matches Err(m) ==> database_failure(m@),
{
    for statement in statements.iter() {
        run_statement(conn, statement)?;
    }
    Ok(())
}


/// What running the statement `s` hands the database: its SQL text and parameters.
pub open spec fn statement_sent(s: SqlStatement) -> (Seq<char>, Seq<Option<Seq<char>>>) {
    (s.sql@, param_texts(s.params@))
}

/// What a query hands the database: its SQL text and its text parameters.
pub open spec fn query_sent(sql: Seq<char>, params: Seq<String>) -> (Seq<char>, Seq<Option<Seq<char>>>) {
    (sql, params.map_values(|p: String| Some(p@)))
}

/// `later` continues `earlier`: it starts with every request of `earlier`, in order.
pub open spec fn log_extends(
    earlier: Seq<(Seq<char>, Seq<Option<Seq<char>>>)>,
    later: Seq<(Seq<char>, Seq<Option<Seq<char>>>)>,
) -> bool {
    &&& earlier.len() <= later.len()
    &&& forall|i: int| 0 <= i < earlier.len() ==> #[trigger] later[i] == earlier[i]
}

/// A transaction, and every statement and query handed to the database
/// through it so far, in order. The requests of a change go through it, so
/// that what a change sends can be stated before it is committed.
pub struct Batch<'conn> {
    tx: Transaction<'conn>,
    sent: Ghost<Seq<(Seq<char>, Seq<Option<Seq<char>>>)>>,
}

impl<'conn> Batch<'conn> {
    /// The statements and queries handed to the database in this transaction, in order.
    pub closed spec fn log(&self) -> Seq<(Seq<char>, Seq<Option<Seq<char>>>)> {
        self.sent@
    }

    /// Begins a transaction on `conn`; a failure is reported under `step`.
    pub fn begin(conn: &'conn mut Connection, step: &str) -> (r: Result<Batch<'conn>, String>)
        ensures
            r matches Ok(b) ==> b.log() == Seq::<(Seq<char>, Seq<Option<Seq<char>>>)>::empty(),
            r matches Err(m) ==> reports(m@, step@) && database_failure(m@),
    {
        match begin_transaction(conn) {
            Ok(tx) => Ok(Batch { tx, sent: Ghost(Seq::empty()) }),
            Err(e) => Err(failure(step, &e)),
        }
    }

    /// Begins a transaction through a shared `conn`; a failure is reported under `step`.
    pub fn begin_shared(conn: &'conn Connection, step: &str) -> (r: Result<Batch<'conn>, String>)
        ensures
            r matches Ok(b) ==> b.log() == Seq::<(Seq<char>, Seq<Option<Seq<char>>>)>::empty(),
            r matches Err(m) ==> reports(m@, step@) && database_failure(m@),
    {
        match begin_unchecked_transaction(conn) {
            Ok(tx) => Ok(Batch { tx, sent: Ghost(Seq::empty()) }),
            Err(e) => Err(failure(step, &e)),
        }
    }

    /// Runs a statement in the transaction.
    pub fn run(&mut self, statement: &SqlStatement) -> (r: Result<usize, String>)
        ensures
            final(self).log() == old(self).log().push(statement_sent(*statement)),
            r matches Err(m) ==> reports(m@, statement.step@) && database_failure(m@),
    {
        let r = run_statement(transaction_connection(&self.tx), statement);
        proof {
            self.sent@ = self.sent@.push(statement_sent(*statement));
        }
        r
    }

    /// Runs a query for at most one text in the transaction.
    pub fn find_text(&mut self, sql: &str, params: &Vec<String>) -> (r: Result<Option<String>, rusqlite::Error>)
        ensures
            final(self).log() == old(self).log().push(query_sent(sql@, params@)),
    {
        let r = query_optional_text(transaction_connection(&self.tx), sql, params);
        proof {
            self.sent@ = self.sent@.push(query_sent(sql@, params@));
        }
        r
    }

    /// Runs a query for a column of texts in the transaction.
    pub fn find_texts(&mut self, sql: &str, params: &Vec<String>) -> (r: Result<Vec<String>, QueryFailure>)
        ensures
            final(self).log() == old(self).log().push(query_sent(sql@, params@)),
    {
        let r = query_texts(transaction_connection(&self.tx), sql, params);
        proof {
            self.sent@ = self.sent@.push(query_sent(sql@, params@));
        }
        r
    }

    /// Runs statements in order in the transaction, stopping at the first that fails.
    pub fn run_all(&mut self, statements: &Vec<SqlStatement>) -> (r: Result<(), String>)
        ensures
            log_extends(old(self).log(), final(self).log()),
            r is Ok ==> final(self).log() == old(self).log() + statements@.map_values(
                |s: SqlStatement| statement_sent(s),
            ),
            r matches Err(m) ==> database_failure(m@),
    {
        let ghost start = self.log();
        let mut i: usize = 0;
        while i < statements.len()
            invariant
                i <= statements.len(),
                start == old(self).log(),
                self.log() == start + statements@.subrange(0, i as int).map_values(
                    |s: SqlStatement| statement_sent(s),
                ),
            decreases statements.len() - i,
        {
            let r = self.run(&statements[i]);
            assert(statements@.subrange(0, i + 1).map_values(|s: SqlStatement| statement_sent(s))
                =~= statements@.subrange(0, i as int).map_values(|s: SqlStatement| statement_sent(s)).push(
                statement_sent(statements@[i as int]),
            ));
            match r {
                Ok(_) => {},
                Err(m) => return Err(m),
            }
            i = i + 1;
        }
        assert(statements@.subrange(0, i as int) =~= statements@);
        Ok(())
    }

    /// Makes the transaction's changes permanent.
    pub fn commit(self) -> (r: Result<(), rusqlite::Error>) {
        commit(self.tx)
    }
}


/// The texts of the parameters that a logged query handed the database.
pub open spec fn given_texts(params: Seq<Option<Seq<char>>>) -> Seq<Seq<char>> {
    params.map_values(|o: Option<Seq<char>>| o.unwrap())
}

/// A connection, and every statement and query handed to the database
/// through it so far, in order.
pub struct Session<'a> {
    conn: &'a Connection,
    sent: Ghost<Seq<(Seq<char>, Seq<Option<Seq<char>>>)>>,
}

impl<'a> Session<'a> {
    /// The statements and queries handed to the database in this session, in order.
    pub closed spec fn log(&self) -> Seq<(Seq<char>, Seq<Option<Seq<char>>>)> {
        self.sent@
    }

    /// A session on `conn` that has sent nothing yet.
    pub fn open(conn: &'a Connection) -> (s: Session<'a>)
        ensures
            s.log() == Seq::<(Seq<char>, Seq<Option<Seq<char>>>)>::empty(),
    {
        Session { conn, sent: Ghost(Seq::empty()) }
    }

    /// Runs a statement.
    pub fn run(&mut self, statement: &SqlStatement) -> (r: Result<usize, String>)
        ensures
            final(self).log() == old(self).log().push(statement_sent(*statement)),
            r matches Err(m) ==> reports(m@, statement.step@) && database_failure(m@),
    {
        let r = run_statement(self.conn, statement);
        proof {
            self.sent@ = self.sent@.push(statement_sent(*statement));
        }
        r
    }

    /// Runs the statements of `sql` in turn, with no parameters.
    pub fn run_script(&mut self, sql: &str) -> (r: Result<(), rusqlite::Error>)
        ensures
            final(self).log() == old(self).log().push((sql@, Seq::<Option<Seq<char>>>::empty())),
    {
        let r = execute_batch(self.conn, sql);
        proof {
            self.sent@ = self.sent@.push((sql@, Seq::<Option<Seq<char>>>::empty()));
        }
        r
    }

    /// Runs a count query.
    pub fn count(&mut self, sql: &str, params: &Vec<String>) -> (r: Result<i64, rusqlite::Error>)
        ensures
            final(self).log() == old(self).log().push(query_sent(sql@, params@)),
    {
        let r = query_count(self.conn, sql, params);
        proof {
            self.sent@ = self.sent@.push(query_sent(sql@, params@));
        }
        r
    }

    /// Runs a query for at most one text.
    pub fn find_text(&mut self, sql: &str, params: &Vec<String>) -> (r: Result<Option<String>, rusqlite::Error>)
        ensures
            final(self).log() == old(self).log().push(query_sent(sql@, params@)),
    {
        let r = query_optional_text(self.conn, sql, params);
        proof {
            self.sent@ = self.sent@.push(query_sent(sql@, params@));
        }
        r
    }

    /// Runs a query for a column of texts.
    pub fn texts(&mut self, sql: &str, params: &Vec<String>) -> (r: Result<Vec<String>, QueryFailure>)
        ensures
            final(self).log() == old(self).log().push(query_sent(sql@, params@)),
    {
        let r = query_texts(self.conn, sql, params);
        proof {
            self.sent@ = self.sent@.push(query_sent(sql@, params@));
        }
        r
    }

    /// Runs a query, with no parameters, for tag names and their counts.
    pub fn tag_counts(&mut self, sql: &str) -> (r: Result<Vec<TagSummary>, QueryFailure>)
        ensures
            final(self).log() == old(self).log().push((sql@, Seq::<Option<Seq<char>>>::empty())),
    {
        let r = query_tag_counts(self.conn, sql);
        proof {
            self.sent@ = self.sent@.push((sql@, Seq::<Option<Seq<char>>>::empty()));
        }
        r
    }

    /// Runs an entity query.
    pub fn entity_rows(&mut self, sql: &str, params: &Vec<String>) -> (r: Result<
        (Vec<EntityRow>, Option<rusqlite::Error>),
        QueryFailure,
    >)
        ensures
            final(self).log() == old(self).log().push(query_sent(sql@, params@)),
    {
        let r = query_entity_rows(self.conn, sql, params);
        proof {
            self.sent@ = self.sent@.push(query_sent(sql@, params@));
        }
        r
    }
}

/// The one text parameter of a query.
pub fn one_param(value: &str) -> (r: Vec<String>)
    ensures
        r@.len() == 1,
        r@[0]@ == value@,
{
    let mut r: Vec<String> = Vec::new();
    r.push(value.to_owned());
    r
}

} // verus!
