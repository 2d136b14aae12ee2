//! Feature extraction, weight learning, artifacts and the pipeline.

use std::cell::Cell;
use std::collections::HashMap;
use std::sync::{Arc, Mutex};

use multimind::config::ModelConfig;
use multimind::name_map::NameMap;
use multimind::paths::PathStyle;
use multimind::registry::RegistryError;
use multimind::retrain::artifact::{ArtifactError, Timestamp};
use multimind::retrain::features::UNKNOWN_CONFIDENCE;
use multimind::retrain::pipeline::{BackgroundStep, CycleTally, RetrainReport, RetrainTools};
use multimind::retrain::table::NEUTRAL_WEIGHT;
use multimind::retrain::weights::WeightsView;
use multimind::retrain::{
    extract_features, learn_weights, CategoryFeatures, RetrainArtifact, RetrainConfig,
    RetrainPipeline, SignalFeatures, WeightModel, WeightTable,
};
use multimind::signals::memory::MemorySignalStore;
use multimind::signals::sql::{
    consume_all_statement, consume_statements, count_from_answer, count_statement, export_statement,
    migration_sql, record_statement, signal_from_row, Dialect, ExportedRow, SqlValue, Statement,
};
use multimind::signals::SignalRows;
use multimind::{
    Failure, ModelBackend, ModelInput, ModelRegistry, MultimindConfig, SignalStore, TrainingSignal,
    Verdict,
};

/// A model whose categories come out in whatever order a hash map has.
#[derive(Clone)]
struct TestModel {
    version: u64,
    adjustments: HashMap<String, f64>,
}

impl WeightModel for TestModel {
    fn weights(&self) -> WeightsView {
        unreachable!()
    }
    fn clone_is_faithful(_: Self, _: Self) {}
    fn version(&self) -> u64 {
        self.version
    }
    fn set_version(&mut self, v: u64) {
        self.version = v;
    }
    fn categories(&self) -> Vec<String> {
        self.adjustments.keys().cloned().collect()
    }
    fn adjustment(&self, cat: &str) -> u64 {
        self.adjustments.get(cat).copied().unwrap_or(1.0).to_bits()
    }
    fn set_adjustment(&mut self, cat: &str, val: u64) {
        self.adjustments.insert(cat.to_string(), f64::from_bits(val));
    }
}

fn test_model(version: u64, adjustments: &[(&str, f64)]) -> TestModel {
    TestModel {
        version,
        adjustments: adjustments.iter().map(|(name, w)| (name.to_string(), *w)).collect(),
    }
}

fn table(version: u64, adjustments: &[(&str, f64)]) -> WeightTable {
    let mut map: NameMap<u64> = NameMap::new();
    for (name, weight) in adjustments {
        map.insert(name.to_string(), weight.to_bits());
    }
    WeightTable { version, adjustments: map }
}

fn weight_of<M: WeightModel>(model: &M, category: &str) -> f64 {
    f64::from_bits(model.adjustment(category))
}

/// One move of a weight.
fn step(weight: u64, rate: u64, wrong: usize, total: usize) -> u64 {
    let correction_rate = wrong as f64 / total as f64;
    let delta = f64::from_bits(rate) * (1.0 - 2.0 * correction_rate);
    (f64::from_bits(weight) + delta).clamp(0.1, 10.0).to_bits()
}

fn narrow(weight: u64) -> u32 {
    (f64::from_bits(weight) as f32).to_bits()
}

fn signal(
    model_id: &str,
    input_text: &str,
    predicted: &str,
    corrected: &str,
    confidence: Option<f32>,
) -> TrainingSignal {
    TrainingSignal {
        signal_id: None,
        model_id: model_id.to_string(),
        input_text: input_text.to_string(),
        predicted_label: predicted.to_string(),
        corrected_label: corrected.to_string(),
        original_confidence: confidence.map(f32::to_bits),
    }
}

fn category<'a>(features: &'a SignalFeatures, name: &str) -> &'a CategoryFeatures {
    features.category_signals.get(name).unwrap()
}

/// A signal store over the library's SQL statements, in memory.
struct SqliteSignalStore {
    conn: Mutex<rusqlite::Connection>,
}

impl SqliteSignalStore {
    fn in_memory() -> Result<Self, rusqlite::Error> {
        let conn = rusqlite::Connection::open_in_memory()?;
        conn.execute_batch(migration_sql(
            Dialect::Sqlite,
        ))?;
        Ok(Self { conn: Mutex::new(conn) })
    }
}

fn sql_params(
    params: &[SqlValue],
) -> Vec<rusqlite::types::Value> {
    params
        .iter()
        .map(|p| match p {
            SqlValue::Text(s) => rusqlite::types::Value::Text(s.clone()),
            SqlValue::Integer(n) => rusqlite::types::Value::Integer(*n),
            SqlValue::Real(Some(bits)) => {
                rusqlite::types::Value::Real(f32::from_bits(*bits) as f64)
            }
            SqlValue::Real(None) => rusqlite::types::Value::Null,
        })
        .collect()
}

fn sql_failure(e: rusqlite::Error) -> Failure {
    Failure { message: e.to_string() }
}

impl SqliteSignalStore {
    fn execute(&self, s: Statement) -> Result<(), Failure> {
        let conn = self.conn.lock().unwrap();
        conn.execute(s.sql, rusqlite::params_from_iter(sql_params(&s.params)))
            .map_err(sql_failure)?;
        Ok(())
    }
}

impl SignalStore for SqliteSignalStore {
    fn rows(&self) -> SignalRows {
        unreachable!()
    }
    fn record(&mut self, signal: &TrainingSignal) -> Result<(), Failure> {
        self.execute(record_statement(
            Dialect::Sqlite,
            signal,
        ))
    }
    fn count_pending(&self, model_id: &str) -> Result<usize, Failure> {
        let s = count_statement(
            Dialect::Sqlite,
            model_id,
        );
        let conn = self.conn.lock().unwrap();
        let n: i64 = conn
            .query_row(s.sql, rusqlite::params_from_iter(sql_params(&s.params)), |row| row.get(0))
            .map_err(sql_failure)?;
        Ok(count_from_answer(n))
    }
    fn export_pending(
        &self,
        model_id: &str,
        limit: Option<usize>,
    ) -> Result<Vec<TrainingSignal>, Failure> {
        let s = export_statement(
            Dialect::Sqlite,
            model_id,
            limit,
        );
        let conn = self.conn.lock().unwrap();
        let mut stmt = conn.prepare(s.sql).map_err(sql_failure)?;
        let rows = stmt
            .query_map(rusqlite::params_from_iter(sql_params(&s.params)), |row| {
                let confidence: Option<f32> = row.get(5)?;
                Ok(signal_from_row(
                    ExportedRow {
                        id: row.get(0)?,
                        model_id: row.get(1)?,
                        input_text: row.get(2)?,
                        predicted_label: row.get(3)?,
                        corrected_label: row.get(4)?,
                        original_confidence: confidence.map(f32::to_bits),
                    },
                ))
            })
            .map_err(sql_failure)?;
        rows.collect::<Result<Vec<_>, _>>().map_err(sql_failure)
    }
    fn mark_consumed(&mut self, model_id: &str, signal_ids: &Vec<String>) -> Result<(), Failure> {
        for s in consume_statements(
            Dialect::Sqlite,
            model_id,
            signal_ids,
        ) {
            self.execute(s)?;
        }
        Ok(())
    }
    fn mark_all_consumed(&mut self, model_id: &str) -> Result<(), Failure> {
        self.execute(consume_all_statement(
            Dialect::Sqlite,
            model_id,
        ))
    }
}

/// A store that fails where it is told to.
struct BrokenStore {
    inner: MemorySignalStore,
    export_fails: bool,
    consume_fails: bool,
}

impl SignalStore for BrokenStore {
    fn rows(&self) -> SignalRows {
        unreachable!()
    }
    fn record(&mut self, signal: &TrainingSignal) -> Result<(), Failure> {
        self.inner.record(signal)
    }
    fn count_pending(&self, model_id: &str) -> Result<usize, Failure> {
        self.inner.count_pending(model_id)
    }
    fn export_pending(
        &self,
        model_id: &str,
        limit: Option<usize>,
    ) -> Result<Vec<TrainingSignal>, Failure> {
        if self.export_fails {
            Err(Failure { message: "lock: poisoned".to_string() })
        } else {
            self.inner.export_pending(model_id, limit)
        }
    }
    fn mark_consumed(&mut self, model_id: &str, signal_ids: &Vec<String>) -> Result<(), Failure> {
        if self.consume_fails {
            Err(Failure { message: "disk full".to_string() })
        } else {
            self.inner.mark_consumed(model_id, signal_ids)
        }
    }
    fn mark_all_consumed(&mut self, model_id: &str) -> Result<(), Failure> {
        self.inner.mark_all_consumed(model_id)
    }
}

/// A backend that remembers the paths it was reloaded from.
struct StubBackend {
    reloaded_from: Arc<Mutex<Vec<String>>>,
    reload_fails: bool,
}

impl ModelBackend for StubBackend {
    fn classify(&self, _: &ModelInput) -> Result<Verdict, Failure> {
        Err(Failure { message: "no inference here".to_string() })
    }
    fn reload(&self, path: &str) -> Result<(), Failure> {
        if self.reload_fails {
            return Err(Failure { message: "not a model".to_string() });
        }
        self.reloaded_from.lock().unwrap().push(path.to_string());
        Ok(())
    }
    fn backend_name(&self) -> &'static str {
        "stub"
    }
}

type Factory = fn(&ModelConfig, &str) -> Result<Option<StubBackend>, Failure>;
type Registry = ModelRegistry<StubBackend, Factory>;

fn empty_registry() -> Registry {
    ModelRegistry::new(MultimindConfig { models: vec![] }, ".".to_string(), PathStyle::Slash)
}

/// Runs a cycle whose artifact is saved under `dir`.
fn run<M: WeightModel, S: SignalStore>(
    pipeline: &mut RetrainPipeline<M>,
    store: &mut S,
    registry: Option<&Registry>,
    dir: &str,
) -> Result<RetrainReport, String> {
    let tools = RetrainTools {
        step,
        narrow,
        save: |artifact: &RetrainArtifact| Ok(artifact.paths(dir, PathStyle::Slash).versioned),
        elapsed_ms: || 7u128,
    };
    pipeline.run_retrain(store, registry, &tools)
}

#[test]
fn extract_features_empty() {
    let features = extract_features(&[]);
    assert_eq!(features.total, 0);
    assert!(features.category_signals.is_empty());
}

#[test]
fn extract_features_correct_predictions() {
    let signals = vec![
        signal("test", "hello", "safe", "safe", Some(0.9)),
        signal("test", "world", "safe", "safe", Some(0.8)),
    ];

    let features = extract_features(&signals);
    assert_eq!(features.total, 2);
    let safe = category(&features, "safe");
    assert_eq!(safe.total, 2);
    assert_eq!(safe.correct, 2);
    assert_eq!(safe.corrections, 0);

    // The confidences, in batch order.
    assert_eq!(safe.correct_confidences, vec![0.9f32.to_bits(), 0.8f32.to_bits()]);
    assert!(safe.incorrect_confidences.is_empty());
    assert_eq!(features.category_signals.len(), 1);
}

#[test]
fn extract_features_with_corrections() {
    let signals = vec![signal("test", "pii data", "safe", "unsafe", Some(0.7))];

    let features = extract_features(&signals);
    assert_eq!(features.total, 1);
    let safe = category(&features, "safe");
    assert_eq!(safe.corrections, 1);
    assert!(features.category_signals.contains_key("unsafe"));

    // The correction counts as correct for its target.
    assert_eq!((safe.total, safe.correct), (1, 0));
    assert_eq!(safe.incorrect_confidences, vec![0.7f32.to_bits()]);
    let target = category(&features, "unsafe");
    assert_eq!((target.total, target.correct, target.corrections), (1, 1, 0));
    // No prediction of it was right, so that it has no confidence.
    assert!(target.correct_confidences.is_empty());
}

#[test]
fn an_unknown_confidence_counts_as_one_half() {
    let features = extract_features(&[signal("m", "x", "a", "b", None)]);
    assert_eq!(UNKNOWN_CONFIDENCE, 0.5f32.to_bits());
    assert_eq!(category(&features, "a").incorrect_confidences, vec![0.5f32.to_bits()]);
    let features = extract_features(&[signal("m", "x", "a", "a", None)]);
    assert_eq!(category(&features, "a").correct_confidences, vec![0.5f32.to_bits()]);
}

#[test]
fn only_correct_predictions_have_a_confidence_there() {
    let signals =
        vec![signal("m", "x", "a", "a", Some(1.0)), signal("m", "x", "b", "a", Some(0.5))];
    let features = extract_features(&signals);
    let a = category(&features, "a");
    assert_eq!((a.total, a.correct, a.corrections), (2, 2, 0));
    assert_eq!(a.correct_confidences, vec![1.0f32.to_bits()]);
    let b = category(&features, "b");
    assert_eq!((b.total, b.correct, b.corrections), (1, 0, 1));
    assert_eq!(b.incorrect_confidences, vec![0.5f32.to_bits()]);
}

#[test]
fn features_of_joined_batches_add_up() {
    let first = vec![
        signal("m", "1", "a", "a", Some(0.25)),
        signal("m", "2", "a", "b", Some(0.5)),
    ];
    let second = vec![
        signal("m", "3", "b", "a", Some(0.75)),
        signal("m", "4", "a", "c", Some(1.0)),
    ];
    let joined: Vec<TrainingSignal> = first.iter().chain(second.iter()).cloned().collect();
    let (one, two, both) =
        (extract_features(&first), extract_features(&second), extract_features(&joined));
    let (a1, a2, a) = (category(&one, "a"), category(&two, "a"), category(&both, "a"));
    assert_eq!(a.total, a1.total + a2.total);
    assert_eq!(a.correct, a1.correct + a2.correct);
    assert_eq!(a.corrections, a1.corrections + a2.corrections);
    assert_eq!((a.total, a.correct, a.corrections), (4, 2, 2));
    assert_eq!(a.correct_confidences, vec![0.25f32.to_bits()]);
    assert_eq!(a.incorrect_confidences, vec![0.5f32.to_bits(), 1.0f32.to_bits()]);
}

#[test]
fn learn_weights_no_change_below_threshold() {
    let model = test_model(0, &[("safe", 1.0), ("unsafe", 1.0)]);

    // Only 2 corrections: below the default min_corrections_for_update of 5.
    let signals = vec![
        signal("test", "a", "safe", "unsafe", Some(0.6)),
        signal("test", "b", "safe", "unsafe", Some(0.5)),
    ];

    let features = extract_features(&signals);
    let config = RetrainConfig::default();
    let updated = learn_weights(&model, &features, &config, &step);

    // Version should bump.
    assert_eq!(updated.version, 1);
    // But adjustments should not change (below threshold).
    assert!((weight_of(&updated, "safe") - 1.0).abs() < f64::EPSILON);
}

#[test]
fn learn_weights_applies_above_threshold() {
    let model = test_model(0, &[("safe", 1.0), ("unsafe", 1.0)]);

    // 10 corrections (safe to unsafe): well above min_corrections_for_update of 5.
    let signals: Vec<_> = (0..10)
        .map(|i| signal("test", &format!("input {i}"), "safe", "unsafe", Some(0.6)))
        .collect();

    let features = extract_features(&signals);
    let config = RetrainConfig::default();
    let updated = learn_weights(&model, &features, &config, &step);

    // Version should bump.
    assert_eq!(updated.version, 1);
    // "safe" had 100% correction rate: should decrease, by the learning rate.
    assert!(weight_of(&updated, "safe") < 1.0);
    assert_eq!(weight_of(&updated, "safe"), 0.95);
    // "unsafe" had no corrections at all.
    assert_eq!(weight_of(&updated, "unsafe"), 1.0);
}

#[test]
fn moved_weights_stay_within_the_bounds_of_the_step() {
    let model = test_model(4, &[("low", 0.12), ("high", 9.99)]);
    let mut config = RetrainConfig::default();
    config.min_corrections_for_update = 1;
    let mut signals: Vec<TrainingSignal> = Vec::new();
    for _ in 0..3 {
        signals.push(signal("m", "x", "low", "other", None));
    }
    signals.push(signal("m", "x", "high", "other", None));
    for _ in 0..99 {
        signals.push(signal("m", "x", "high", "high", None));
    }
    let updated = learn_weights(&model, &extract_features(&signals), &config, &step);
    assert_eq!(updated.version, 5);
    assert_eq!(weight_of(&updated, "low"), 0.1);
    assert_eq!(weight_of(&updated, "high"), 10.0);
}

#[test]
fn more_corrections_never_raise_a_weight() {
    let config = RetrainConfig::default();
    let mut last = f64::INFINITY;
    for wrong in 5..=20 {
        let mut signals: Vec<TrainingSignal> = Vec::new();
        for i in 0..20 {
            let truth = if i < wrong { "b" } else { "a" };
            signals.push(signal("m", "x", "a", truth, None));
        }
        let model = table(0, &[("a", 1.0), ("c", 3.0)]);
        let updated = learn_weights(&model, &extract_features(&signals), &config, &step);
        assert!(weight_of(&updated, "a") <= last);
        assert_eq!((updated.version(), weight_of(&updated, "c")), (1, 3.0));
        last = weight_of(&updated, "a");
    }
    assert_eq!(last, 0.95);
}

#[test]
fn step_is_given_the_correction_rate() {
    // 5 corrections out of 8.
    let mut signals: Vec<TrainingSignal> = Vec::new();
    for _ in 0..5 {
        signals.push(signal("m", "x", "a", "b", None));
    }
    for _ in 0..3 {
        signals.push(signal("m", "x", "a", "a", None));
    }
    let seen: Cell<Option<(u64, u64, usize, usize)>> = Cell::new(None);
    let spy = |weight: u64, rate: u64, wrong: usize, total: usize| {
        seen.set(Some((weight, rate, wrong, total)));
        42u64
    };
    let model = table(0, &[("a", 1.5)]);
    let updated =
        learn_weights(&model, &extract_features(&signals), &RetrainConfig::default(), &spy);
    assert_eq!(seen.get(), Some((1.5f64.to_bits(), 0.05f64.to_bits(), 5, 8)));
    assert_eq!(updated.adjustment("a"), 42);
}

#[test]
fn a_category_without_signals_has_rate_zero() {
    // Features that count corrections without a total cannot come out of a
    // batch, but a caller may write them.
    let mut map: NameMap<CategoryFeatures> = NameMap::new();
    map.insert(
        "a".to_string(),
        CategoryFeatures {
            total: 0,
            correct: 0,
            corrections: 9,
            correct_confidences: vec![],
            incorrect_confidences: vec![],
        },
    );
    let features = SignalFeatures { total: 0, category_signals: map };
    let updated =
        learn_weights(&table(0, &[("a", 1.0)]), &features, &RetrainConfig::default(), &step);
    assert_eq!(weight_of(&updated, "a"), 1.05);
}

#[test]
fn categories_that_the_model_does_not_track_stay_out() {
    let signals: Vec<_> = (0..9).map(|_| signal("m", "x", "ghost", "a", None)).collect();
    let updated = learn_weights(
        &table(0, &[("a", 2.0)]),
        &extract_features(&signals),
        &RetrainConfig::default(),
        &step,
    );
    assert_eq!(updated.categories(), vec!["a".to_string()]);
    assert_eq!(weight_of(&updated, "a"), 2.0);
}

#[test]
fn weight_table_has_neutral_weights_by_default() {
    let mut model = table(3, &[("a", 0.5), ("b", 2.0)]);
    assert_eq!(NEUTRAL_WEIGHT, 1.0f64.to_bits());
    assert_eq!(weight_of(&model, "a"), 0.5);
    assert_eq!(weight_of(&model, "missing"), 1.0);
    assert_eq!(model.categories(), vec!["a".to_string(), "b".to_string()]);
    let copy = model.clone();
    model.set_adjustment("a", 4.0f64.to_bits());
    model.set_version(4);
    assert_eq!((weight_of(&model, "a"), model.version()), (4.0, 4));
    assert_eq!((weight_of(&copy, "a"), weight_of(&copy, "b"), copy.version()), (0.5, 2.0, 3));
}

#[test]
fn retrain_config_defaults() {
    let config = RetrainConfig::default();
    assert_eq!(config.signal_threshold, 200);
    assert_eq!(config.batch_size, 1000);
    assert_eq!(config.check_interval_ms, 3_600_000);
    assert_eq!(config.learning_rate, 0.05f64.to_bits());
    assert_eq!(config.min_corrections_for_update, 5);
    assert_eq!(config.artifact_dir, "/tmp/multimind-models");
}

#[test]
fn artifact_integrity() {
    let model = test_model(1, &[("a", 0.8), ("b", 1.2)]);

    let artifact = RetrainArtifact::from_model(&model, "test", 100, &narrow);
    assert!(artifact.verify());
    assert_eq!(artifact.version, 1);
    assert_eq!(artifact.signals_consumed, 100);
}

#[test]
fn artifact_is_a_diagonal_matrix_with_its_checksum() {
    let model = table(1, &[("a", 0.8), ("b", 1.2)]);
    let artifact = RetrainArtifact::from_model(&model, "test", 100, &narrow);
    assert_eq!(artifact.model_id, "test");
    assert_eq!(artifact.categories, vec!["a".to_string(), "b".to_string()]);
    assert_eq!(artifact.weight_matrix, vec![0.8f32.to_bits(), 0, 0, 1.2f32.to_bits()]);
    assert_eq!(
        artifact.checksum,
        "4d13fac92c5088861f022490561cf1d12d0fb192a8530690dc8e825de8a7f40c"
    );
}

#[test]
fn artifacts_keep_the_order_of_the_model() {
    let model = table(1, &[("z", 0.25), ("a", 0.5), ("m", 2.0)]);
    let artifact = RetrainArtifact::from_model(&model, "m", 0, &narrow);
    assert_eq!(artifact.categories, model.categories());
    assert_eq!(artifact.categories, vec!["z".to_string(), "a".to_string(), "m".to_string()]);
    let diagonal: Vec<f32> =
        (0..3).map(|i| f32::from_bits(artifact.weight_matrix[i * 3 + i])).collect();
    assert_eq!(diagonal, vec![0.25, 0.5, 2.0]);
    assert_eq!(artifact.weight_matrix.iter().filter(|w| **w == 0).count(), 6);
}

#[test]
fn checksums_of_known_matrices() {
    let one = RetrainArtifact::from_model(&table(0, &[("a", 0.5)]), "m", 0, &narrow);
    assert_eq!(one.weight_matrix, vec![0x3f00_0000]);
    assert_eq!(
        one.checksum,
        "d99e58435243d9fef9c88273b8d553b4fba4d0baf8009d29eae74fa99e0d9f57"
    );
    let none = RetrainArtifact::from_model(&table(0, &[]), "m", 0, &narrow);
    assert!(none.weight_matrix.is_empty());
    assert_eq!(
        none.checksum,
        "e3b0c44298fc1c149afbf4c8996fb92427ae41e4649b934ca495991b7852b855"
    );
}

#[test]
fn artifact_tells_when_it_was_made() {
    let model = table(1, &[("a", 1.0)]);
    let artifact = RetrainArtifact::from_model(&model, "m", 1, &narrow);
    // The start of 2020.
    assert!(artifact.created_at.seconds > 1_577_836_800);
    assert!(artifact.created_at.nanos < 1_000_000_000);

    let at = Timestamp { seconds: 12, nanos: 34 };
    let dated = RetrainArtifact::from_model_at(&model, "m", 1, &narrow, at);
    assert_eq!(dated.created_at, at);
    assert_eq!(dated.checksum, artifact.checksum);
}

#[test]
fn intact_artifacts_load_and_changed_ones_do_not() {
    let model = test_model(3, &[("x", 0.9), ("y", 1.3)]);
    let artifact = RetrainArtifact::from_model(&model, "roundtrip_test", 42, &narrow);

    let loaded = RetrainArtifact::load(artifact.clone()).unwrap();
    assert_eq!(loaded.model_id, "roundtrip_test");
    assert_eq!(loaded.version, 3);
    assert_eq!(loaded.signals_consumed, 42);
    assert!(loaded.verify());
    assert_eq!(loaded.checksum, artifact.checksum);

    let mut changed = artifact.clone();
    changed.weight_matrix[1] ^= 1;
    assert!(!changed.verify());
    let error = RetrainArtifact::load(changed).unwrap_err();
    assert_eq!(error.message(), "artifact integrity check failed for roundtrip_test v3");
    let ArtifactError::Corrupt { model_id, version } = error;
    assert_eq!((model_id.as_str(), version), ("roundtrip_test", 3));

    // A shorter matrix, and a checksum in capitals, are changes too.
    let mut shorter = artifact.clone();
    shorter.weight_matrix.pop();
    assert!(!shorter.verify());
    let mut capitals = artifact.clone();
    capitals.checksum = capitals.checksum.to_uppercase();
    assert!(!capitals.verify());
}

#[test]
fn artifact_files() {
    let artifact = RetrainArtifact::from_model(&table(12, &[]), "spam", 0, &narrow);
    let paths = artifact.paths("/var/models", PathStyle::Slash);
    assert_eq!(paths.versioned, "/var/models/spam_v12.json");
    assert_eq!(paths.latest, "/var/models/spam_latest.json");
    assert_eq!(artifact.paths("models/", PathStyle::Slash).versioned, "models/spam_v12.json");
    assert_eq!(artifact.paths("", PathStyle::Slash).latest, "spam_latest.json");

    let next = RetrainArtifact::from_model(&table(13, &[]), "spam", 0, &narrow);
    let native = artifact.paths("d", PathStyle::Native);
    assert_eq!(native.versioned, std::path::Path::new("d").join("spam_v12.json").to_str().unwrap());
    assert_ne!(next.paths("d", PathStyle::Slash).versioned, artifact.paths("d", PathStyle::Slash).versioned);
    assert_eq!(next.paths("d", PathStyle::Slash).latest, artifact.paths("d", PathStyle::Slash).latest);
}

#[test]
fn pipeline_run_retrain_end_to_end() {
    let mut store = SqliteSignalStore::in_memory().unwrap();

    // Seed 10 correction signals.
    for i in 0..10 {
        store
            .record(&signal("test_pipeline", &format!("input {i}"), "safe", "unsafe", Some(0.65)))
            .unwrap();
    }

    assert_eq!(store.count_pending("test_pipeline").unwrap(), 10);

    let config = RetrainConfig {
        signal_threshold: 5,
        batch_size: 100,
        min_corrections_for_update: 3,
        artifact_dir: "/tmp/multimind_pipeline_test".to_string(),
        ..Default::default()
    };

    let baseline = test_model(0, &[("safe", 1.0), ("unsafe", 1.0)]);

    let mut pipeline =
        RetrainPipeline::new(config.clone(), "test_pipeline".to_string(), baseline);

    // Verify initial state.
    assert_eq!(pipeline.current_model().version(), 0);
    assert!(pipeline.latest_artifact().is_none());

    // Run retrain.
    let report = run(&mut pipeline, &mut store, None, &config.artifact_dir).unwrap();
    let result = report.result;

    assert_eq!(result.model_id, "test_pipeline");
    assert_eq!(result.new_version, 1);
    assert_eq!(result.previous_version, 0);
    assert_eq!(result.signals_consumed, 10);
    assert!(result.artifact_path.is_some());
    assert_eq!(
        result.artifact_path.unwrap(),
        "/tmp/multimind_pipeline_test/test_pipeline_v1.json"
    );
    assert_eq!(result.duration_ms, 7);
    assert!(report.save_failure.is_none());
    assert!(report.consume_failure.is_none());
    assert!(report.reload_failure.is_none());

    // Model should be updated.
    assert_eq!(pipeline.current_model().version(), 1);
    assert_eq!(weight_of(&pipeline.current_model(), "safe"), 0.95);
    assert!(pipeline.latest_artifact().is_some());
    assert!(pipeline.latest_artifact().unwrap().verify());
    assert_eq!(pipeline.latest_artifact().unwrap().signals_consumed, 10);

    // Signals should be consumed.
    assert_eq!(store.count_pending("test_pipeline").unwrap(), 0);

    // Status should reflect new state.
    let status = pipeline.status(0);
    assert_eq!(status.model_version, 1);
    assert!(!status.running);
    assert!(status.last_result.is_some());
}

#[test]
fn pipeline_run_retrain_no_signals() {
    let mut store = SqliteSignalStore::in_memory().unwrap();
    let config = RetrainConfig::default();
    let baseline = test_model(0, &[]);

    let mut pipeline = RetrainPipeline::new(config, "empty_model".to_string(), baseline);
    let result = run(&mut pipeline, &mut store, None, "/tmp");

    assert!(result.is_err());
    assert_eq!(result.unwrap_err(), "no pending signals");
    // Running flag should be reset even on error.
    assert!(!pipeline.is_running());
}

#[test]
fn a_failed_export_ends_the_cycle() {
    let mut store = BrokenStore {
        inner: MemorySignalStore::new(),
        export_fails: true,
        consume_fails: false,
    };
    let mut pipeline =
        RetrainPipeline::new(RetrainConfig::default(), "m".to_string(), table(5, &[]));
    let text = run(&mut pipeline, &mut store, None, "/tmp").unwrap_err();
    assert_eq!(text, "failed to export signals: lock: poisoned");
    assert!(!pipeline.is_running());
    assert_eq!(pipeline.current_model().version(), 5);
    assert!(pipeline.latest_artifact().is_none());
}

#[test]
fn a_cycle_consumes_its_batch_only() {
    let mut store = MemorySignalStore::new();
    for i in 0..5 {
        store.record(&signal("m", &format!("input {i}"), "a", "b", None)).unwrap();
    }
    store.record(&signal("other", "elsewhere", "a", "b", None)).unwrap();
    let config = RetrainConfig { batch_size: 3, ..Default::default() };
    let mut pipeline = RetrainPipeline::new(config, "m".to_string(), table(0, &[("a", 1.0)]));

    let report = run(&mut pipeline, &mut store, None, "/tmp").unwrap();
    assert_eq!(report.result.signals_consumed, 3);
    assert_eq!(store.count_pending("m").unwrap(), 2);
    assert_eq!(store.count_pending("other").unwrap(), 1);
    let left = store.export_pending("m", None).unwrap();
    assert_eq!(left[0].input_text, "input 3");
    assert_eq!(left[1].input_text, "input 4");

    let report = run(&mut pipeline, &mut store, None, "/tmp").unwrap();
    assert_eq!((report.result.previous_version, report.result.new_version), (1, 2));
    assert_eq!(report.result.signals_consumed, 2);
    assert_eq!(store.count_pending("m").unwrap(), 0);
}

#[test]
fn failures_after_learning_do_not_stop_a_cycle() {
    let mut store = BrokenStore {
        inner: MemorySignalStore::new(),
        export_fails: false,
        consume_fails: true,
    };
    store.record(&signal("m", "x", "a", "b", None)).unwrap();
    let mut pipeline =
        RetrainPipeline::new(RetrainConfig::default(), "m".to_string(), table(0, &[("a", 1.0)]));
    let tools = RetrainTools {
        step,
        narrow,
        save: |_: &RetrainArtifact| Err(Failure { message: "read-only".to_string() }),
        elapsed_ms: || 0u128,
    };
    let registry = empty_registry();
    let report = pipeline.run_retrain(&mut store, Some(&registry), &tools).unwrap();
    assert_eq!(report.save_failure.unwrap().message, "read-only");
    assert_eq!(report.consume_failure.unwrap().message, "disk full");
    // Nothing was saved, so that there was nothing to reload from.
    assert!(report.reload_failure.is_none());
    assert!(report.result.artifact_path.is_none());
    assert_eq!(pipeline.current_model().version(), 1);
    assert_eq!(store.count_pending("m").unwrap(), 1);
    assert!(pipeline.status(1).last_result.is_some());
}

#[test]
fn a_cycle_swaps_the_model_in_the_registry() {
    let paths = Arc::new(Mutex::new(Vec::new()));
    let mut registry = empty_registry();
    registry.register_model(
        "m".to_string(),
        StubBackend { reloaded_from: paths.clone(), reload_fails: false },
    );
    let mut store = MemorySignalStore::new();
    store.record(&signal("m", "x", "a", "b", None)).unwrap();
    let mut pipeline =
        RetrainPipeline::new(RetrainConfig::default(), "m".to_string(), table(0, &[("a", 1.0)]));
    let report = run(&mut pipeline, &mut store, Some(&registry), "/models").unwrap();
    assert!(report.reload_failure.is_none());
    assert_eq!(report.result.artifact_path.unwrap(), "/models/m_v1.json");
    assert_eq!(*paths.lock().unwrap(), vec!["/models/m_v1.json".to_string()]);
}

#[test]
fn a_failed_swap_is_reported() {
    let mut store = MemorySignalStore::new();
    store.record(&signal("m", "x", "a", "b", None)).unwrap();
    store.record(&signal("m", "y", "a", "b", None)).unwrap();
    let config = RetrainConfig { batch_size: 1, ..Default::default() };
    let mut pipeline = RetrainPipeline::new(config, "m".to_string(), table(0, &[("a", 1.0)]));

    // Not loaded.
    let mut registry = empty_registry();
    let report = run(&mut pipeline, &mut store, Some(&registry), "/models").unwrap();
    assert_eq!(
        report.reload_failure.unwrap().message(),
        "model 'm' not loaded, can't reload"
    );

    // Loaded, but the backend fails.
    registry.register_model(
        "m".to_string(),
        StubBackend { reloaded_from: Arc::new(Mutex::new(vec![])), reload_fails: true },
    );
    let report = run(&mut pipeline, &mut store, Some(&registry), "/models").unwrap();
    let failure = report.reload_failure.unwrap();
    assert!(matches!(failure, RegistryError::Backend(_)));
    assert_eq!(failure.message(), "not a model");
    assert_eq!(pipeline.current_model().version(), 2);
}

#[test]
fn status_tells_whether_the_threshold_is_met() {
    let config = RetrainConfig { signal_threshold: 5, ..Default::default() };
    let mut pipeline = RetrainPipeline::new(config, "m".to_string(), table(9, &[]));
    let status = pipeline.status(4);
    assert_eq!((status.model_version, status.unconsumed_signals), (9, 4));
    assert!(!status.threshold_met && !status.running && status.last_result.is_none());
    assert!(pipeline.status(5).threshold_met);
    pipeline.start();
    assert!(pipeline.is_running());
    assert!(pipeline.status(5).running);
}

#[test]
fn background_loop_waits_for_the_threshold() {
    let config = RetrainConfig { signal_threshold: 2, ..Default::default() };
    let mut pipeline = RetrainPipeline::new(config, "m".to_string(), table(0, &[("a", 1.0)]));
    assert_eq!(pipeline.after_count(Ok(1)), BackgroundStep::Wait);
    let failed = pipeline.after_count(Err(Failure { message: "down".to_string() }));
    assert_eq!(failed, BackgroundStep::Wait);
    assert!(!pipeline.is_running());
    assert_eq!(pipeline.after_count(Ok(2)), BackgroundStep::Export);
    assert!(pipeline.is_running());
}

#[test]
fn background_loop_runs_a_cycle() {
    let config = RetrainConfig { signal_threshold: 2, ..Default::default() };
    let mut pipeline = RetrainPipeline::new(config, "m".to_string(), table(0, &[("a", 1.0)]));
    let mut store = MemorySignalStore::new();
    for _ in 0..2 {
        store.record(&signal("m", "x", "a", "b", None)).unwrap();
    }
    assert_eq!(pipeline.after_count(store.count_pending("m")), BackgroundStep::Export);
    let cycle = pipeline
        .take_background_export(store.export_pending("m", None), &step, &narrow)
        .unwrap();
    assert!(pipeline.is_running());
    assert_eq!(cycle.signal_ids, vec!["1".to_string(), "2".to_string()]);
    store.mark_consumed("m", &cycle.signal_ids).unwrap();
    let tally = pipeline.install(cycle);
    assert_eq!(tally, CycleTally { previous_version: 0, signals_consumed: 2 });
    let result = pipeline.finish(tally, None, 1u128 << 64);
    assert_eq!((result.new_version, result.signals_consumed), (1, 2));
    // Milliseconds beyond 64 bits wrap.
    assert_eq!(result.duration_ms, 0);
    assert!(!pipeline.is_running());
    assert_eq!(store.count_pending("m").unwrap(), 0);
}

#[test]
fn background_loop_gives_up_on_an_empty_batch() {
    let config = RetrainConfig { signal_threshold: 0, batch_size: 0, ..Default::default() };
    let mut pipeline = RetrainPipeline::new(config, "m".to_string(), table(0, &[]));
    assert_eq!(pipeline.after_count(Ok(0)), BackgroundStep::Export);
    assert!(pipeline.take_background_export(Ok(vec![]), &step, &narrow).is_none());
    assert!(!pipeline.is_running());
    let one = vec![signal("m", "x", "a", "b", None)];
    assert!(pipeline.take_background_export(Ok(one), &step, &narrow).is_none());
    let failed = Err(Failure { message: "down".to_string() });
    assert!(pipeline.take_background_export(failed, &step, &narrow).is_none());
    assert!(!pipeline.is_running());
}

#[test]
fn background_cycle_in_one_go() {
    let config = RetrainConfig { signal_threshold: 2, batch_size: 2, ..Default::default() };
    let mut pipeline = RetrainPipeline::new(config, "m".to_string(), table(0, &[("a", 1.0)]));
    let mut store = MemorySignalStore::new();
    for i in 0..3 {
        store.record(&signal("m", &format!("input {i}"), "a", "b", None)).unwrap();
    }
    let tools = RetrainTools {
        step,
        narrow,
        save: |artifact: &RetrainArtifact| Ok(artifact.paths("/models", PathStyle::Slash).versioned),
        elapsed_ms: || 3u128,
    };
    let none: Option<&Registry> = None;
    assert_eq!(pipeline.after_count(store.count_pending("m")), BackgroundStep::Export);
    let report = pipeline.run_background(&mut store, none, &tools).unwrap();
    assert_eq!((report.result.new_version, report.result.signals_consumed), (1, 2));
    assert_eq!(report.result.artifact_path.unwrap(), "/models/m_v1.json");
    assert!(!pipeline.is_running());
    assert_eq!(store.count_pending("m").unwrap(), 1);
    assert_eq!(pipeline.after_count(store.count_pending("m")), BackgroundStep::Wait);

    store.mark_all_consumed("m").unwrap();
    assert!(pipeline.run_background(&mut store, none, &tools).is_none());
    assert_eq!(pipeline.current_model().version(), 1);
    assert!(!pipeline.is_running());
}

#[test]
fn copies_of_a_pipeline_go_their_own_way() {
    let mut store = MemorySignalStore::new();
    store.record(&signal("m", "x", "a", "b", None)).unwrap();
    let mut pipeline =
        RetrainPipeline::new(RetrainConfig::default(), "m".to_string(), table(0, &[("a", 1.0)]));
    let before = pipeline.clone();
    run(&mut pipeline, &mut store, None, "/tmp").unwrap();
    let after = pipeline.clone();
    assert_eq!((before.current_model().version(), after.current_model().version()), (0, 1));
    assert!(before.latest_artifact().is_none());
    assert!(after.latest_artifact().unwrap().verify());
    assert!(before.status(0).last_result.is_none());
    assert_eq!(after.status(0).last_result.unwrap().signals_consumed, 1);
}

#[test]
fn background_pass_counts_first() {
    let config = RetrainConfig { signal_threshold: 2, ..Default::default() };
    let mut pipeline = RetrainPipeline::new(config, "m".to_string(), table(0, &[("a", 1.0)]));
    let mut store = MemorySignalStore::new();
    let tools = RetrainTools {
        step,
        narrow,
        save: |artifact: &RetrainArtifact| Ok(artifact.paths("/models", PathStyle::Slash).versioned),
        elapsed_ms: || 3u128,
    };
    let none: Option<&Registry> = None;
    store.record(&signal("m", "x", "a", "b", None)).unwrap();
    assert!(pipeline.background_pass(&mut store, none, &tools).is_none());
    assert_eq!(store.count_pending("m").unwrap(), 1);
    assert_eq!(pipeline.current_model().version(), 0);

    store.record(&signal("m", "y", "a", "b", None)).unwrap();
    let report = pipeline.background_pass(&mut store, none, &tools).unwrap();
    assert_eq!((report.result.new_version, report.result.signals_consumed), (1, 2));
    assert_eq!(store.count_pending("m").unwrap(), 0);
    assert!(!pipeline.is_running());
    let artifact = pipeline.latest_artifact().unwrap();
    assert!(artifact.created_at.seconds > 1_577_836_800);
}

#[test]
fn a_model_at_its_last_version_still_answers_without_signals() {
    let mut pipeline =
        RetrainPipeline::new(RetrainConfig::default(), "m".to_string(), table(u64::MAX, &[]));
    let mut store = MemorySignalStore::new();
    let text = run(&mut pipeline, &mut store, None, "/tmp").unwrap_err();
    assert_eq!(text, "no pending signals");
    assert!(!pipeline.is_running());
}
