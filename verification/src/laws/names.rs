//! What maps of names, default values and SQL statements are for.

use vstd::prelude::*;

use crate::config::{default_min_confidence, default_min_sessions, default_min_signals};
use crate::name_map::NameMap;
use crate::retrain::config::RetrainConfig;
use crate::signals::sql::{
    consume_all_statement, consume_statements, count_from_answer, count_statement,
    export_statement, record_statement, signal_from_row, Dialect, ExportedRow, SqlValue, Statement,
};
use crate::signals::TrainingSignal;

verus! {

/// What was put under a name is found there, and other names keep what they had.
pub proof fn a_name_keeps_its_value<V>(
    map: &mut NameMap<V>,
    name: String,
    value: V,
    asked: &str,
    before: Option<&V>,
    after: Option<&V>,
    there: bool,
)
    requires
        call_ensures(NameMap::<V>::insert, (map, name, value), ()),
        call_ensures(NameMap::<V>::get, (&*old(map), asked), before),
        call_ensures(NameMap::<V>::get, (&*final(map), asked), after),
        call_ensures(NameMap::<V>::contains_key, (&*final(map), asked), there),
    ensures
        asked@ == name@ ==> after is Some && *(after->0) == value,
        asked@ != name@ ==> (after is Some <==> before is Some),
        asked@ != name@ && before is Some ==> *(after->0) == *(before->0),
        there <==> after is Some,
{
}

/// What is taken out is what was there, and other names keep what they had.
pub proof fn a_name_gives_its_value_back<V>(
    map: &mut NameMap<V>,
    name: &str,
    taken: Option<V>,
    asked: &str,
    before: Option<&V>,
    after: Option<&V>,
)
    requires
        call_ensures(NameMap::<V>::remove, (map, name), taken),
        call_ensures(NameMap::<V>::get, (&*old(map), asked), before),
        call_ensures(NameMap::<V>::get, (&*final(map), asked), after),
    ensures
        asked@ == name@ ==> after is None && (taken is Some <==> before is Some),
        asked@ == name@ && before is Some ==> taken->0 == *(before->0),
        asked@ != name@ ==> (after is Some <==> before is Some),
        asked@ != name@ && before is Some ==> *(after->0) == *(before->0),
{
}

/// A new map is empty. A walk meets every name once, with its value.
pub proof fn a_walk_meets_every_name_once<V>(
    fresh: NameMap<V>,
    nothing: Option<&V>,
    name: &str,
    map: &NameMap<V>,
    n: usize,
    empty: bool,
    i: usize,
    j: usize,
    one: (&str, &V),
    other: (&str, &V),
    value: Option<&V>,
)
    requires
        call_ensures(NameMap::<V>::new, (), fresh),
        call_ensures(NameMap::<V>::get, (&fresh, name), nothing),
        call_ensures(NameMap::<V>::len, (map,), n),
        call_ensures(NameMap::<V>::is_empty, (map,), empty),
        i < j < n,
        call_ensures(NameMap::<V>::entry, (map, i), one),
        call_ensures(NameMap::<V>::entry, (map, j), other),
        call_ensures(NameMap::<V>::get, (map, one.0), value),
    ensures
        nothing is None,
        !empty,
        one.0@ != other.0@,
        value is Some && *(value->0) == *one.1,
{
    assert(map@.contains_pair(map.listing()[i as int].0@, map.listing()[i as int].1));
    assert(map.listing()[i as int].0@ != map.listing()[j as int].0@);
}

/// The values that stand where none are set.
pub proof fn defaults_are_as_documented(
    min_confidence: u32,
    min_signals: usize,
    min_sessions: usize,
    config: RetrainConfig,
)
    requires
        call_ensures(default_min_confidence, (), min_confidence),
        call_ensures(default_min_signals, (), min_signals),
        call_ensures(default_min_sessions, (), min_sessions),
        call_ensures(RetrainConfig::default, (), config),
    ensures
        min_confidence == 0x3f00_0000,
        min_signals == 10,
        min_sessions == 20,
        config.signal_threshold == 200,
        config.batch_size == 1000,
        config.check_interval_ms == 3_600_000,
        config.learning_rate == 0x3fa9_9999_9999_999a,
        config.min_corrections_for_update == 5,
        config.artifact_dir@ == "/tmp/multimind-models"@,
{
}

/// Whether a value is the given text.
pub open spec fn is_text(value: SqlValue, text: Seq<char>) -> bool {
    value matches SqlValue::Text(t) && t@ == text
}

/// A signal is written to the columns that it is read from, in their order.
pub proof fn signals_are_written_column_by_column(
    signal: &TrainingSignal,
    lite: Statement,
    postgres: Statement,
)
    requires
        call_ensures(record_statement, (Dialect::Sqlite, signal), lite),
        call_ensures(record_statement, (Dialect::Postgres, signal), postgres),
    ensures
        lite.sql@
            == "INSERT INTO model_signals (model_id, input_text, predicted_label, corrected_label, original_confidence) VALUES (?1, ?2, ?3, ?4, ?5)"@,
        postgres.sql@
            == "INSERT INTO model_signals (model_id, input_text, predicted_label, corrected_label, original_confidence) VALUES ($1, $2, $3, $4, $5)"@,
        lite.params@.len() == 5,
        is_text(lite.params@[0], signal.model_id@),
        is_text(lite.params@[1], signal.input_text@),
        is_text(lite.params@[2], signal.predicted_label@),
        is_text(lite.params@[3], signal.corrected_label@),
        lite.params@[4] == SqlValue::Real(signal.original_confidence),
        postgres.params@.len() == 5,
        is_text(postgres.params@[0], signal.model_id@),
        is_text(postgres.params@[1], signal.input_text@),
        is_text(postgres.params@[2], signal.predicted_label@),
        is_text(postgres.params@[3], signal.corrected_label@),
        postgres.params@[4] == SqlValue::Real(signal.original_confidence),
{
    let l = lite.params@.map_values(|v: SqlValue| v@);
    let p = postgres.params@.map_values(|v: SqlValue| v@);
    assert(l.len() == 5 && p.len() == 5);
    assert forall|i: int| 0 <= i < 5 implies l[i] == lite.params@[i]@ && p[i]
        == postgres.params@[i]@ by {
    }
    assert(l[0] == lite.params@[0]@ && p[0] == postgres.params@[0]@);
    assert(l[1] == lite.params@[1]@ && p[1] == postgres.params@[1]@);
    assert(l[2] == lite.params@[2]@ && p[2] == postgres.params@[2]@);
    assert(l[3] == lite.params@[3]@ && p[3] == postgres.params@[3]@);
    assert(l[4] == lite.params@[4]@ && p[4] == postgres.params@[4]@);
}

/// Requests about one model say which model.
pub proof fn requests_say_which_model(
    id: &str,
    count: Statement,
    count_postgres: Statement,
    drain: Statement,
    drain_postgres: Statement,
)
    requires
        call_ensures(count_statement, (Dialect::Sqlite, id), count),
        call_ensures(count_statement, (Dialect::Postgres, id), count_postgres),
        call_ensures(consume_all_statement, (Dialect::Sqlite, id), drain),
        call_ensures(consume_all_statement, (Dialect::Postgres, id), drain_postgres),
    ensures
        count.sql@ == "SELECT COUNT(*) FROM model_signals WHERE model_id = ?1 AND consumed = 0"@,
        count_postgres.sql@
            == "SELECT COUNT(*) FROM model_signals WHERE model_id = $1 AND consumed = FALSE"@,
        drain.sql@
            == "UPDATE model_signals SET consumed = 1 WHERE model_id = ?1 AND consumed = 0"@,
        drain_postgres.sql@
            == "UPDATE model_signals SET consumed = TRUE WHERE model_id = $1 AND consumed = FALSE"@,
        count.params@.len() == 1 && is_text(count.params@[0], id@),
        count_postgres.params@.len() == 1 && is_text(count_postgres.params@[0], id@),
        drain.params@.len() == 1 && is_text(drain.params@[0], id@),
        drain_postgres.params@.len() == 1 && is_text(drain_postgres.params@[0], id@),
{
    let a = count.params@.map_values(|v: SqlValue| v@);
    let b = count_postgres.params@.map_values(|v: SqlValue| v@);
    let c = drain.params@.map_values(|v: SqlValue| v@);
    let d = drain_postgres.params@.map_values(|v: SqlValue| v@);
    assert(a.len() == 1 && b.len() == 1 && c.len() == 1 && d.len() == 1);
    assert(a[0] == count.params@[0]@ && b[0] == count_postgres.params@[0]@);
    assert(c[0] == drain.params@[0]@ && d[0] == drain_postgres.params@[0]@);
}

/// An export asks for the waiting signals of the model, oldest first, and for no
/// more than the limit where there is one.
pub proof fn exports_ask_for_the_oldest(
    id: &str,
    limit: Option<usize>,
    lite: Statement,
    postgres: Statement,
)
    requires
        call_ensures(export_statement, (Dialect::Sqlite, id, limit), lite),
        call_ensures(export_statement, (Dialect::Postgres, id, limit), postgres),
    ensures
        limit is None ==> {
            &&& lite.sql@
                == "SELECT CAST(id AS TEXT), model_id, input_text, predicted_label, corrected_label, original_confidence FROM model_signals WHERE model_id = ?1 AND consumed = 0 ORDER BY created_at ASC"@
            &&& postgres.sql@
                == "SELECT id::text, model_id, input_text, predicted_label, corrected_label, original_confidence FROM model_signals WHERE model_id = $1 AND consumed = FALSE ORDER BY created_at ASC"@
            &&& lite.params@.len() == 1 && is_text(lite.params@[0], id@)
            &&& postgres.params@.len() == 1 && is_text(postgres.params@[0], id@)
        },
        limit matches Some(n) ==> {
            &&& lite.sql@
                == "SELECT CAST(id AS TEXT), model_id, input_text, predicted_label, corrected_label, original_confidence FROM model_signals WHERE model_id = ?1 AND consumed = 0 ORDER BY created_at ASC LIMIT ?2"@
            &&& postgres.sql@
                == "SELECT id::text, model_id, input_text, predicted_label, corrected_label, original_confidence FROM model_signals WHERE model_id = $1 AND consumed = FALSE ORDER BY created_at ASC LIMIT $2"@
            &&& lite.params@.len() == 2 && is_text(lite.params@[0], id@)
            &&& postgres.params@.len() == 2 && is_text(postgres.params@[0], id@)
            &&& lite.params@[1] == SqlValue::Integer(n as i64)
            &&& postgres.params@[1] == SqlValue::Integer(n as i64)
        },
{
    let l = lite.params@.map_values(|v: SqlValue| v@);
    let p = postgres.params@.map_values(|v: SqlValue| v@);
    assert(l.len() == p.len());
    assert(l[0] == lite.params@[0]@ && p[0] == postgres.params@[0]@);
    if limit is Some {
        assert(l.len() == 2);
        assert(l[1] == lite.params@[1]@ && p[1] == postgres.params@[1]@);
    }
}

/// Signals are marked by name, one request each, for the model.
pub proof fn signals_are_marked_by_name(
    id: &str,
    names: &Vec<String>,
    lite: Vec<Statement>,
    postgres: Vec<Statement>,
    k: int,
)
    requires
        call_ensures(consume_statements, (Dialect::Sqlite, id, names), lite),
        call_ensures(consume_statements, (Dialect::Postgres, id, names), postgres),
        0 <= k < names@.len(),
    ensures
        lite@.len() == names@.len(),
        postgres@.len() == names@.len(),
        lite@[k].sql@
            == "UPDATE model_signals SET consumed = 1 WHERE model_id = ?1 AND consumed = 0 AND CAST(id AS TEXT) = ?2"@,
        postgres@[k].sql@
            == "UPDATE model_signals SET consumed = TRUE WHERE model_id = $1 AND consumed = FALSE AND id::text = $2"@,
        lite@[k].params@.len() == 2,
        is_text(lite@[k].params@[0], id@),
        is_text(lite@[k].params@[1], names@[k]@),
        postgres@[k].params@.len() == 2,
        is_text(postgres@[k].params@[0], id@),
        is_text(postgres@[k].params@[1], names@[k]@),
{
    let (a, b) = (lite@[k], postgres@[k]);
    let l = a.params@.map_values(|v: SqlValue| v@);
    let p = b.params@.map_values(|v: SqlValue| v@);
    assert(l.len() == 2 && p.len() == 2);
    assert(l[0] == a.params@[0]@ && p[0] == b.params@[0]@);
    assert(l[1] == a.params@[1]@ && p[1] == b.params@[1]@);
}

/// Answers are read as they are.
pub proof fn answers_are_read_as_they_are(
    answer: i64,
    n: usize,
    row: ExportedRow,
    signal: TrainingSignal,
)
    requires
        call_ensures(count_from_answer, (answer,), n),
        call_ensures(signal_from_row, (row,), signal),
    ensures
        0 <= answer <= usize::MAX ==> n == answer,
        signal.signal_id matches Some(id) && id@ == row.id@,
        signal.model_id@ == row.model_id@,
        signal.input_text@ == row.input_text@,
        signal.predicted_label@ == row.predicted_label@,
        signal.corrected_label@ == row.corrected_label@,
        signal.original_confidence == row.original_confidence,
{
}

/// A map tells the value that it holds under a name, and a copy holds copies of
/// the same.
pub proof fn a_map_tells_what_it_holds<V: Clone>(
    map: &NameMap<V>,
    name: &str,
    value: Option<&V>,
    copy: NameMap<V>,
)
    requires
        call_ensures(NameMap::<V>::get, (map, name), value),
        call_ensures(NameMap::<V>::clone, (map,), copy),
    ensures
        value is Some <==> map@.contains_key(name@),
        value is Some ==> *(value->0) == map@[name@],
        copy@.contains_key(name@) <==> map@.contains_key(name@),
        map@.contains_key(name@) ==> vstd::pervasive::cloned(map@[name@], copy@[name@]),
{
    assert(copy@.dom().contains(name@) <==> map@.dom().contains(name@));
}

/// Copies of settings and of results are the same as what they were made of.
pub proof fn copies_are_the_same(
    config: &RetrainConfig,
    config_copy: RetrainConfig,
    result: &crate::retrain::status::RetrainResult,
    result_copy: crate::retrain::status::RetrainResult,
)
    requires
        call_ensures(RetrainConfig::clone, (config,), config_copy),
        call_ensures(crate::retrain::status::RetrainResult::clone, (result,), result_copy),
    ensures
        config_copy == *config,
        result_copy == *result,
{
}

} // verus!
