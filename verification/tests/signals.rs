//! Signal stores: in memory, and over the SQL statements.

use std::sync::Mutex;

use rusqlite::types::Value;
use rusqlite::Connection;

use multimind::signals::memory::MemorySignalStore;
use multimind::signals::sql::{
    consume_all_statement, consume_statements, count_from_answer, count_statement, export_statement,
    migration_sql, record_statement, signal_from_row, Dialect, ExportedRow, SqlValue, Statement,
    POSTGRES_CONSUME, POSTGRES_COUNT, POSTGRES_EXPORT, POSTGRES_EXPORT_LIMITED, POSTGRES_RECORD,
};
use multimind::signals::SignalRows;
use multimind::{Failure, SignalStore, TrainingSignal};

/// A signal store in a SQLite database in memory.
struct SqliteSignalStore {
    conn: Mutex<Connection>,
}

fn failure(e: rusqlite::Error) -> Failure {
    Failure { message: e.to_string() }
}

fn values(params: &[SqlValue]) -> Vec<Value> {
    params
        .iter()
        .map(|p| match p {
            SqlValue::Text(s) => Value::Text(s.clone()),
            SqlValue::Integer(n) => Value::Integer(*n),
            SqlValue::Real(Some(bits)) => Value::Real(f32::from_bits(*bits) as f64),
            SqlValue::Real(None) => Value::Null,
        })
        .collect()
}

impl SqliteSignalStore {
    fn in_memory() -> Result<Self, rusqlite::Error> {
        let conn = Connection::open_in_memory()?;
        conn.execute_batch(migration_sql(Dialect::Sqlite))?;
        Ok(Self { conn: Mutex::new(conn) })
    }

    fn execute(&self, s: &Statement) -> Result<(), Failure> {
        let conn = self.conn.lock().unwrap();
        conn.execute(s.sql, rusqlite::params_from_iter(values(&s.params))).map_err(failure)?;
        Ok(())
    }

    /// Sets the age of a signal, by its name.
    fn set_created_at(&self, id: &str, at: &str) {
        let conn = self.conn.lock().unwrap();
        conn.execute("UPDATE model_signals SET created_at = ?1 WHERE CAST(id AS TEXT) = ?2", [at, id])
            .unwrap();
    }
}

impl SignalStore for SqliteSignalStore {
    fn rows(&self) -> SignalRows {
        unreachable!()
    }
    fn record(&mut self, signal: &TrainingSignal) -> Result<(), Failure> {
        self.execute(&record_statement(Dialect::Sqlite, signal))
    }
    fn count_pending(&self, model_id: &str) -> Result<usize, Failure> {
        let s = count_statement(Dialect::Sqlite, model_id);
        let conn = self.conn.lock().unwrap();
        let n: i64 = conn
            .query_row(s.sql, rusqlite::params_from_iter(values(&s.params)), |row| row.get(0))
            .map_err(failure)?;
        Ok(count_from_answer(n))
    }
    fn export_pending(
        &self,
        model_id: &str,
        limit: Option<usize>,
    ) -> Result<Vec<TrainingSignal>, Failure> {
        let s = export_statement(Dialect::Sqlite, model_id, limit);
        let conn = self.conn.lock().unwrap();
        let mut stmt = conn.prepare(s.sql).map_err(failure)?;
        let rows = stmt
            .query_map(rusqlite::params_from_iter(values(&s.params)), |row| {
                let confidence: Option<f32> = row.get(5)?;
                Ok(signal_from_row(ExportedRow {
                    id: row.get(0)?,
                    model_id: row.get(1)?,
                    input_text: row.get(2)?,
                    predicted_label: row.get(3)?,
                    corrected_label: row.get(4)?,
                    original_confidence: confidence.map(f32::to_bits),
                }))
            })
            .map_err(failure)?;
        rows.collect::<Result<Vec<_>, _>>().map_err(failure)
    }
    fn mark_consumed(&mut self, model_id: &str, signal_ids: &Vec<String>) -> Result<(), Failure> {
        for s in consume_statements(Dialect::Sqlite, model_id, signal_ids) {
            self.execute(&s)?;
        }
        Ok(())
    }
    fn mark_all_consumed(&mut self, model_id: &str) -> Result<(), Failure> {
        self.execute(&consume_all_statement(Dialect::Sqlite, model_id))
    }
}

fn signal(
    model_id: &str,
    input_text: &str,
    predicted: &str,
    corrected: &str,
    confidence: Option<f32>,
) -> TrainingSignal {
    TrainingSignal {
        signal_id: None,
        model_id: model_id.to_string(),
        input_text: input_text.to_string(),
        predicted_label: predicted.to_string(),
        corrected_label: corrected.to_string(),
        original_confidence: confidence.map(f32::to_bits),
    }
}

fn ids(signals: &[TrainingSignal]) -> Vec<String> {
    signals.iter().filter_map(|s| s.signal_id.clone()).collect()
}

fn check_round_trip(store: &mut impl SignalStore) {
    let signal = signal("test_model", "test content", "reject", "store", Some(0.52));

    store.record(&signal).unwrap();
    assert_eq!(store.count_pending("test_model").unwrap(), 1);
    assert_eq!(store.count_pending("other_model").unwrap(), 0);

    let signals = store.export_pending("test_model", None).unwrap();
    assert_eq!(signals.len(), 1);
    assert_eq!(signals[0].predicted_label, "reject");
    assert_eq!(signals[0].corrected_label, "store");
    assert_eq!(signals[0].model_id, "test_model");
    assert_eq!(signals[0].input_text, "test content");
    assert_eq!(signals[0].original_confidence, Some(0.52f32.to_bits()));
    assert!(signals[0].signal_id.is_some());

    store.mark_all_consumed("test_model").unwrap();
    assert_eq!(store.count_pending("test_model").unwrap(), 0);
}

fn check_models_isolated(store: &mut impl SignalStore) {
    for i in 0..3 {
        store
            .record(&signal("model_a", &format!("input {i}"), "class_1", "class_2", Some(0.6)))
            .unwrap();
    }

    store.record(&signal("model_b", "another input", "x", "y", None)).unwrap();

    assert_eq!(store.count_pending("model_a").unwrap(), 3);
    assert_eq!(store.count_pending("model_b").unwrap(), 1);

    // Consuming one model does not affect the other.
    store.mark_all_consumed("model_a").unwrap();
    assert_eq!(store.count_pending("model_a").unwrap(), 0);
    assert_eq!(store.count_pending("model_b").unwrap(), 1);
    assert_eq!(store.export_pending("model_b", None).unwrap()[0].original_confidence, None);
}

fn check_export_with_limit(store: &mut impl SignalStore) {
    for i in 0..10 {
        store.record(&signal("test", &format!("input {i}"), "a", "b", Some(0.5))).unwrap();
    }

    // Without limit: get all 10.
    let all = store.export_pending("test", None).unwrap();
    assert_eq!(all.len(), 10);

    // With limit: get exactly 3.
    let limited = store.export_pending("test", Some(3)).unwrap();
    assert_eq!(limited.len(), 3);

    // Limit larger than available: get all.
    let big_limit = store.export_pending("test", Some(100)).unwrap();
    assert_eq!(big_limit.len(), 10);

    // Limit of nothing: get nothing. A limit beyond all bounds: get all.
    assert!(store.export_pending("test", Some(0)).unwrap().is_empty());
    assert_eq!(store.export_pending("test", Some(usize::MAX)).unwrap().len(), 10);
}

/// Export, then more signals arrive, then the batch is consumed by name.
fn check_late_arrivals_are_spared(store: &mut impl SignalStore) {
    for i in 0..4 {
        store.record(&signal("m", &format!("early {i}"), "a", "b", None)).unwrap();
    }
    store.record(&signal("other", "elsewhere", "a", "b", None)).unwrap();
    let batch = store.export_pending("m", Some(3)).unwrap();
    let names = ids(&batch);
    assert_eq!(names.len(), 3);
    store.record(&signal("m", "late", "a", "b", None)).unwrap();

    store.mark_consumed("m", &names).unwrap();
    let left = store.export_pending("m", None).unwrap();
    assert_eq!(left.len(), 2);
    assert!(left.iter().all(|s| !names.contains(s.signal_id.as_ref().unwrap())));
    assert!(left.iter().any(|s| s.input_text == "late"));
    assert_eq!(store.count_pending("other").unwrap(), 1);

    // A second time changes nothing.
    store.mark_consumed("m", &names).unwrap();
    assert_eq!(store.count_pending("m").unwrap(), 2);

    // A name counts for the model that it is given for, and an unknown one for
    // none.
    let elsewhere = ids(&store.export_pending("other", None).unwrap());
    store.mark_consumed("m", &elsewhere).unwrap();
    store.mark_consumed("m", &vec!["nobody".to_string()]).unwrap();
    store.mark_consumed("m", &vec![]).unwrap();
    assert_eq!(store.count_pending("m").unwrap(), 2);
    assert_eq!(store.count_pending("other").unwrap(), 1);
}

#[test]
fn round_trip() {
    check_round_trip(&mut SqliteSignalStore::in_memory().unwrap());
}

#[test]
fn round_trip_in_memory() {
    check_round_trip(&mut MemorySignalStore::new());
}

#[test]
fn multiple_models_isolated() {
    check_models_isolated(&mut SqliteSignalStore::in_memory().unwrap());
}

#[test]
fn multiple_models_isolated_in_memory() {
    check_models_isolated(&mut MemorySignalStore::new());
}

#[test]
fn export_with_limit() {
    check_export_with_limit(&mut SqliteSignalStore::in_memory().unwrap());
}

#[test]
fn export_with_limit_in_memory() {
    check_export_with_limit(&mut MemorySignalStore::new());
}

#[test]
fn late_arrivals_are_spared() {
    check_late_arrivals_are_spared(&mut SqliteSignalStore::in_memory().unwrap());
}

#[test]
fn late_arrivals_are_spared_in_memory() {
    check_late_arrivals_are_spared(&mut MemorySignalStore::new());
}

#[test]
fn oldest_signals_come_first() {
    let mut store = SqliteSignalStore::in_memory().unwrap();
    for text in ["first", "second", "third"] {
        store.record(&signal("m", text, "a", "b", None)).unwrap();
    }
    store.set_created_at("1", "2030-01-01 00:00:00");
    store.set_created_at("2", "2010-01-01 00:00:00");
    store.set_created_at("3", "2020-01-01 00:00:00");
    let texts: Vec<String> =
        store.export_pending("m", Some(2)).unwrap().into_iter().map(|s| s.input_text).collect();
    assert_eq!(texts, vec!["second".to_string(), "third".to_string()]);
}

#[test]
fn memory_store_names_signals_in_order() {
    let mut store = MemorySignalStore::new();
    for i in 0..12 {
        store.record(&signal("m", &format!("{i}"), "a", "b", None)).unwrap();
    }
    let batch = store.export_pending("m", None).unwrap();
    let expected: Vec<String> = (1..=12).map(|n| n.to_string()).collect();
    assert_eq!(ids(&batch), expected);
    assert_eq!(batch[11].input_text, "11");
}

#[test]
fn text_is_kept_as_it_is() {
    let mut store = SqliteSignalStore::in_memory().unwrap();
    let text = "it's \"quoted\"; -- $1 ?1 \u{1F600}";
    store.record(&signal("m'", text, "", "'", None)).unwrap();
    let back = store.export_pending("m'", None).unwrap();
    assert_eq!(back[0].input_text, text);
    assert_eq!((back[0].predicted_label.as_str(), back[0].corrected_label.as_str()), ("", "'"));
}

fn is_text(value: &SqlValue, text: &str) -> bool {
    matches!(value, SqlValue::Text(t) if t == text)
}

#[test]
fn record_statements() {
    let s = signal("m", "text", "p", "c", Some(0.25));
    let statement = record_statement(Dialect::Postgres, &s);
    assert_eq!(statement.sql, POSTGRES_RECORD);
    assert!(statement.sql.ends_with("VALUES ($1, $2, $3, $4, $5)"));
    assert_eq!(statement.params.len(), 5);
    assert!(is_text(&statement.params[0], "m"));
    assert!(is_text(&statement.params[1], "text"));
    assert!(is_text(&statement.params[2], "p"));
    assert!(is_text(&statement.params[3], "c"));
    assert!(matches!(statement.params[4], SqlValue::Real(Some(0x3e80_0000))));
    let sqlite = record_statement(Dialect::Sqlite, &signal("m", "text", "p", "c", None));
    assert!(sqlite.sql.ends_with("VALUES (?1, ?2, ?3, ?4, ?5)"));
    assert!(matches!(sqlite.params[4], SqlValue::Real(None)));
}

#[test]
fn count_and_export_statements() {
    let count = count_statement(Dialect::Postgres, "m");
    assert_eq!(count.sql, POSTGRES_COUNT);
    assert_eq!(
        count.sql,
        "SELECT COUNT(*) FROM model_signals WHERE model_id = $1 AND consumed = FALSE"
    );
    assert!(is_text(&count.params[0], "m") && count.params.len() == 1);

    let all = export_statement(Dialect::Postgres, "m", None);
    assert_eq!(all.sql, POSTGRES_EXPORT);
    assert!(all.sql.ends_with("ORDER BY created_at ASC"));
    assert_eq!(all.params.len(), 1);
    let some = export_statement(Dialect::Postgres, "m", Some(7));
    assert_eq!(some.sql, POSTGRES_EXPORT_LIMITED);
    assert!(some.sql.ends_with("ORDER BY created_at ASC LIMIT $2"));
    assert!(matches!(some.params[1], SqlValue::Integer(7)));
    let beyond = export_statement(Dialect::Sqlite, "m", Some(usize::MAX));
    assert!(matches!(beyond.params[1], SqlValue::Integer(-1)));
}

#[test]
fn consume_statements_name_one_signal_each() {
    let names = vec!["x".to_string(), "y".to_string()];
    let statements = consume_statements(Dialect::Postgres, "m", &names);
    assert_eq!(statements.len(), 2);
    for (statement, name) in statements.iter().zip(["x", "y"]) {
        assert_eq!(statement.sql, POSTGRES_CONSUME);
        assert!(is_text(&statement.params[0], "m"));
        assert!(is_text(&statement.params[1], name));
    }
    let all = consume_all_statement(Dialect::Postgres, "m");
    assert_eq!(
        all.sql,
        "UPDATE model_signals SET consumed = TRUE WHERE model_id = $1 AND consumed = FALSE"
    );
    assert_eq!(all.params.len(), 1);
}

#[test]
fn migrations_create_the_table() {
    assert!(migration_sql(Dialect::Sqlite).contains("INTEGER PRIMARY KEY AUTOINCREMENT"));
    assert!(migration_sql(Dialect::Postgres).contains("UUID PRIMARY KEY DEFAULT gen_random_uuid()"));
    // A second run leaves the table as it is.
    let mut store = SqliteSignalStore::in_memory().unwrap();
    store.record(&signal("m", "x", "a", "b", None)).unwrap();
    store.conn.lock().unwrap().execute_batch(migration_sql(Dialect::Sqlite)).unwrap();
    assert_eq!(store.count_pending("m").unwrap(), 1);
}

#[test]
fn answers_are_read_back() {
    assert_eq!(count_from_answer(0), 0);
    assert_eq!(count_from_answer(123), 123);
    let s = signal_from_row(ExportedRow {
        id: "17".to_string(),
        model_id: "m".to_string(),
        input_text: "t".to_string(),
        predicted_label: "p".to_string(),
        corrected_label: "c".to_string(),
        original_confidence: Some(9),
    });
    assert_eq!(s.signal_id, Some("17".to_string()));
    assert_eq!((s.model_id.as_str(), s.input_text.as_str()), ("m", "t"));
    assert_eq!((s.predicted_label.as_str(), s.corrected_label.as_str()), ("p", "c"));
    assert_eq!(s.original_confidence, Some(9));
}
