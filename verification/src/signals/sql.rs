//! What a signal store asks of an SQL database, and how it reads the answers.
//!
//! Values reach the database as parameters: the text of a statement depends on
//! nothing but the kind of the database and the kind of the request.

use vstd::prelude::*;

use super::{SignalView, TrainingSignal};

verus! {

/// The databases that signal stores are written for.
#[derive(Debug, Clone, Copy, PartialEq, Eq, Structural)]
pub enum Dialect {
    Sqlite,
    Postgres,
}

/// A parameter of a statement.
#[derive(Debug)]
pub enum SqlValue {
    /// A text.
    Text(String),
    /// An integer.
    Integer(i64),
    /// A single precision number, by its bits, or the null value.
    Real(Option<u32>),
}

/// What a [`SqlValue`] says.
pub enum SqlValueView {
    Text(Seq<char>),
    Integer(i64),
    Real(Option<u32>),
}

impl View for SqlValue {
    type V = SqlValueView;

    open spec fn view(&self) -> SqlValueView {
        match *self {
            SqlValue::Text(text) => SqlValueView::Text(text@),
            SqlValue::Integer(n) => SqlValueView::Integer(n),
            SqlValue::Real(bits) => SqlValueView::Real(bits),
        }
    }
}

/// A statement with its parameters, in the order of their numbers.
#[derive(Debug)]
pub struct Statement {
    /// The text.
    pub sql: &'static str,
    /// The parameters.
    pub params: Vec<SqlValue>,
}

impl Statement {
    /// Whether this is the statement with the given text and parameters.
    pub open spec fn is(&self, sql: &str, params: Seq<SqlValueView>) -> bool {
        self.sql@ == sql@ && self.params@.map_values(|v: SqlValue| v@) == params
    }
}

/// Creates the table of a SQLite store.
pub const SQLITE_MIGRATION: &'static str = "
CREATE TABLE IF NOT EXISTS model_signals (
    id                  INTEGER PRIMARY KEY AUTOINCREMENT,
    model_id            TEXT NOT NULL,
    input_text          TEXT NOT NULL,
    predicted_label     TEXT NOT NULL,
    corrected_label     TEXT NOT NULL,
    original_confidence REAL,
    consumed            INTEGER NOT NULL DEFAULT 0,
    created_at          TEXT NOT NULL DEFAULT (datetime('now'))
);
CREATE INDEX IF NOT EXISTS idx_model_signals_pending
    ON model_signals (model_id, consumed, created_at);
";

/// Creates the table of a PostgreSQL store.
pub const POSTGRES_MIGRATION: &'static str = "
CREATE TABLE IF NOT EXISTS model_signals (
    id                  UUID PRIMARY KEY DEFAULT gen_random_uuid(),
    model_id            TEXT NOT NULL,
    input_text          TEXT NOT NULL,
    predicted_label     TEXT NOT NULL,
    corrected_label     TEXT NOT NULL,
    original_confidence REAL,
    consumed            BOOLEAN NOT NULL DEFAULT FALSE,
    created_at          TIMESTAMPTZ NOT NULL DEFAULT now()
);
CREATE INDEX IF NOT EXISTS idx_model_signals_pending
    ON model_signals (model_id, consumed, created_at DESC);
";

/// Keeps a signal, in a SQLite store.
pub const SQLITE_RECORD: &'static str = "INSERT INTO model_signals (model_id, input_text, predicted_label, corrected_label, original_confidence) VALUES (?1, ?2, ?3, ?4, ?5)";

/// Keeps a signal, in a PostgreSQL store.
pub const POSTGRES_RECORD: &'static str = "INSERT INTO model_signals (model_id, input_text, predicted_label, corrected_label, original_confidence) VALUES ($1, $2, $3, $4, $5)";

/// Counts the pending signals of a model, in a SQLite store.
pub const SQLITE_COUNT: &'static str = "SELECT COUNT(*) FROM model_signals WHERE model_id = ?1 AND consumed = 0";

/// Counts the pending signals of a model, in a PostgreSQL store.
pub const POSTGRES_COUNT: &'static str = "SELECT COUNT(*) FROM model_signals WHERE model_id = $1 AND consumed = FALSE";

/// Reads the pending signals of a model, oldest first, in a SQLite store.
pub const SQLITE_EXPORT: &'static str = "SELECT CAST(id AS TEXT), model_id, input_text, predicted_label, corrected_label, original_confidence FROM model_signals WHERE model_id = ?1 AND consumed = 0 ORDER BY created_at ASC";

/// Reads the oldest pending signals of a model, up to a number, in a SQLite store.
pub const SQLITE_EXPORT_LIMITED: &'static str = "SELECT CAST(id AS TEXT), model_id, input_text, predicted_label, corrected_label, original_confidence FROM model_signals WHERE model_id = ?1 AND consumed = 0 ORDER BY created_at ASC LIMIT ?2";

/// Reads the pending signals of a model, oldest first, in a PostgreSQL store.
pub const POSTGRES_EXPORT: &'static str = "SELECT id::text, model_id, input_text, predicted_label, corrected_label, original_confidence FROM model_signals WHERE model_id = $1 AND consumed = FALSE ORDER BY created_at ASC";

/// Reads the oldest pending signals of a model, up to a number, in a PostgreSQL store.
pub const POSTGRES_EXPORT_LIMITED: &'static str = "SELECT id::text, model_id, input_text, predicted_label, corrected_label, original_confidence FROM model_signals WHERE model_id = $1 AND consumed = FALSE ORDER BY created_at ASC LIMIT $2";

/// Marks one signal of a model as consumed, in a SQLite store.
pub const SQLITE_CONSUME: &'static str = "UPDATE model_signals SET consumed = 1 WHERE model_id = ?1 AND consumed = 0 AND CAST(id AS TEXT) = ?2";

/// Marks one signal of a model as consumed, in a PostgreSQL store.
pub const POSTGRES_CONSUME: &'static str = "UPDATE model_signals SET consumed = TRUE WHERE model_id = $1 AND consumed = FALSE AND id::text = $2";

/// Marks all signals of a model as consumed, in a SQLite store.
pub const SQLITE_CONSUME_ALL: &'static str = "UPDATE model_signals SET consumed = 1 WHERE model_id = ?1 AND consumed = 0";

/// Marks all signals of a model as consumed, in a PostgreSQL store.
pub const POSTGRES_CONSUME_ALL: &'static str = "UPDATE model_signals SET consumed = TRUE WHERE model_id = $1 AND consumed = FALSE";

/// One of two texts, by the database.
pub open spec fn by_dialect(
    dialect: Dialect,
    sqlite: &'static str,
    postgres: &'static str,
) -> &'static str {
    match dialect {
        Dialect::Sqlite => sqlite,
        Dialect::Postgres => postgres,
    }
}

/// Chooses one of two texts by the database.
fn pick(dialect: Dialect, sqlite: &'static str, postgres: &'static str) -> (r: &'static str)
    ensures
        r == by_dialect(dialect, sqlite, postgres),
{
    match dialect {
        Dialect::Sqlite => sqlite,
        Dialect::Postgres => postgres,
    }
}

/// Creates the table that signals are kept in.
pub fn migration_sql(dialect: Dialect) -> (r: &'static str)
    ensures
        r@ == by_dialect(dialect, SQLITE_MIGRATION, POSTGRES_MIGRATION)@,
{
    pick(dialect, SQLITE_MIGRATION, POSTGRES_MIGRATION)
}

/// Asks to keep a signal.
pub fn record_statement(dialect: Dialect, signal: &TrainingSignal) -> (r: Statement)
    ensures
        r.is(
            by_dialect(dialect, SQLITE_RECORD, POSTGRES_RECORD),
            seq![
                SqlValueView::Text(signal.model_id@),
                SqlValueView::Text(signal.input_text@),
                SqlValueView::Text(signal.predicted_label@),
                SqlValueView::Text(signal.corrected_label@),
                SqlValueView::Real(signal.original_confidence),
            ],
        ),
{
    let params = vec![
        SqlValue::Text(signal.model_id.clone()),
        SqlValue::Text(signal.input_text.clone()),
        SqlValue::Text(signal.predicted_label.clone()),
        SqlValue::Text(signal.corrected_label.clone()),
        SqlValue::Real(signal.original_confidence),
    ];
    let r = Statement { sql: pick(dialect, SQLITE_RECORD, POSTGRES_RECORD), params };
    assert(r.params@.map_values(|v: SqlValue| v@) =~= seq![
        SqlValueView::Text(signal.model_id@),
        SqlValueView::Text(signal.input_text@),
        SqlValueView::Text(signal.predicted_label@),
        SqlValueView::Text(signal.corrected_label@),
        SqlValueView::Real(signal.original_confidence),
    ]);
    r
}

/// A statement whose one parameter is a model ID.
fn for_model(sql: &'static str, model_id: &str) -> (r: Statement)
    ensures
        r.is(sql, seq![SqlValueView::Text(model_id@)]),
{
    let r = Statement { sql, params: vec![SqlValue::Text(model_id.to_owned())] };
    assert(r.params@.map_values(|v: SqlValue| v@) =~= seq![SqlValueView::Text(model_id@)]);
    r
}

/// Asks for the number of pending signals of a model.
pub fn count_statement(dialect: Dialect, model_id: &str) -> (r: Statement)
    ensures
        r.is(
            by_dialect(dialect, SQLITE_COUNT, POSTGRES_COUNT),
            seq![SqlValueView::Text(model_id@)],
        ),
{
    for_model(pick(dialect, SQLITE_COUNT, POSTGRES_COUNT), model_id)
}

/// Reads the answer to [`count_statement`].
pub fn count_from_answer(answer: i64) -> (r: usize)
    ensures
        0 <= answer <= usize::MAX ==> r == answer,
        r == answer as usize,
{
    #[verifier::truncate]
    (answer as usize)
}

/// Asks for the pending signals of a model, oldest first, at most `limit`.
pub fn export_statement(dialect: Dialect, model_id: &str, limit: Option<usize>) -> (r: Statement)
    ensures
        match limit {
            None => r.is(
                by_dialect(dialect, SQLITE_EXPORT, POSTGRES_EXPORT),
                seq![SqlValueView::Text(model_id@)],
            ),
            Some(n) => r.is(
                by_dialect(dialect, SQLITE_EXPORT_LIMITED, POSTGRES_EXPORT_LIMITED),
                seq![SqlValueView::Text(model_id@), SqlValueView::Integer(n as i64)],
            ),
        },
{
    match limit {
        None => for_model(pick(dialect, SQLITE_EXPORT, POSTGRES_EXPORT), model_id),
        Some(n) => {
            let bound: i64 = #[verifier::truncate]
            (n as i64);
            let r = Statement {
                sql: pick(dialect, SQLITE_EXPORT_LIMITED, POSTGRES_EXPORT_LIMITED),
                params: vec![SqlValue::Text(model_id.to_owned()), SqlValue::Integer(bound)],
            };
            assert(r.params@.map_values(|v: SqlValue| v@) =~= seq![
                SqlValueView::Text(model_id@),
                SqlValueView::Integer(n as i64),
            ]);
            r
        },
    }
}

/// A row of the answer to [`export_statement`].
#[derive(Debug)]
pub struct ExportedRow {
    pub id: String,
    pub model_id: String,
    pub input_text: String,
    pub predicted_label: String,
    pub corrected_label: String,
    pub original_confidence: Option<u32>,
}

/// Reads a row of the answer to [`export_statement`].
pub fn signal_from_row(row: ExportedRow) -> (r: TrainingSignal)
    ensures
        r@ == (SignalView {
            signal_id: Some(row.id@),
            model_id: row.model_id@,
            input_text: row.input_text@,
            predicted_label: row.predicted_label@,
            corrected_label: row.corrected_label@,
            original_confidence: row.original_confidence,
        }),
{
    TrainingSignal {
        signal_id: Some(row.id),
        model_id: row.model_id,
        input_text: row.input_text,
        predicted_label: row.predicted_label,
        corrected_label: row.corrected_label,
        original_confidence: row.original_confidence,
    }
}

/// Asks to mark signals of a model as consumed, one statement for each name.
pub fn consume_statements(dialect: Dialect, model_id: &str, signal_ids: &Vec<String>) -> (r: Vec<
    Statement,
>)
    ensures
        r@.len() == signal_ids@.len(),
        forall|i: int|
            0 <= i < r@.len() ==> (#[trigger] r@[i]).is(
                by_dialect(dialect, SQLITE_CONSUME, POSTGRES_CONSUME),
                seq![SqlValueView::Text(model_id@), SqlValueView::Text(signal_ids@[i]@)],
            ),
{
    let mut statements: Vec<Statement> = Vec::new();
    let mut i: usize = 0;
    while i < signal_ids.len()
        invariant
            i <= signal_ids@.len(),
            statements@.len() == i,
            forall|k: int|
                0 <= k < i ==> (#[trigger] statements@[k]).is(
                    by_dialect(dialect, SQLITE_CONSUME, POSTGRES_CONSUME),
                    seq![SqlValueView::Text(model_id@), SqlValueView::Text(signal_ids@[k]@)],
                ),
        decreases signal_ids@.len() - i,
    {
        let statement = Statement {
            sql: pick(dialect, SQLITE_CONSUME, POSTGRES_CONSUME),
            params: vec![
                SqlValue::Text(model_id.to_owned()),
                SqlValue::Text(signal_ids[i].clone()),
            ],
        };
        assert(statement.params@.map_values(|v: SqlValue| v@) =~= seq![
            SqlValueView::Text(model_id@),
            SqlValueView::Text(signal_ids@[i as int]@),
        ]);
        statements.push(statement);
        i = i + 1;
    }
    statements
}

/// Asks to mark all signals of a model as consumed.
pub fn consume_all_statement(dialect: Dialect, model_id: &str) -> (r: Statement)
    ensures
        r.is(
            by_dialect(dialect, SQLITE_CONSUME_ALL, POSTGRES_CONSUME_ALL),
            seq![SqlValueView::Text(model_id@)],
        ),
{
    for_model(pick(dialect, SQLITE_CONSUME_ALL, POSTGRES_CONSUME_ALL), model_id)
}

} // verus!
