//! Correction signals and the stores that keep them.

use vstd::prelude::*;

use crate::model::Failure;

pub mod laws;
pub mod memory;
pub mod sql;

verus! {

/// A correction signal for model improvement.
///
/// The consuming service records these; the retrain pipeline reads them.
#[derive(Debug, Clone)]
pub struct TrainingSignal {
    /// The name that the store gave the signal. A signal that was not read out
    /// of a store has none.
    pub signal_id: Option<String>,
    /// Which model produced the original verdict.
    pub model_id: String,
    /// The input that was classified.
    pub input_text: String,
    /// The model's original prediction.
    pub predicted_label: String,
    /// The corrected label (ground truth from user or system).
    pub corrected_label: String,
    /// Confidence of the original prediction, where it is known: the bits of an
    /// IEEE 754 single.
    pub original_confidence: Option<u32>,
}

/// What a [`TrainingSignal`] says.
pub struct SignalView {
    pub signal_id: Option<Seq<char>>,
    pub model_id: Seq<char>,
    pub input_text: Seq<char>,
    pub predicted_label: Seq<char>,
    pub corrected_label: Seq<char>,
    pub original_confidence: Option<u32>,
}

impl View for TrainingSignal {
    type V = SignalView;

    open spec fn view(&self) -> SignalView {
        SignalView {
            signal_id: match self.signal_id {
                Some(id) => Some(id@),
                None => None,
            },
            model_id: self.model_id@,
            input_text: self.input_text@,
            predicted_label: self.predicted_label@,
            corrected_label: self.corrected_label@,
            original_confidence: self.original_confidence,
        }
    }
}

/// What a list of signals says.
pub open spec fn signals_view(signals: Seq<TrainingSignal>) -> Seq<SignalView> {
    signals.map_values(|s: TrainingSignal| s@)
}

/// A signal as a store keeps it.
pub struct StoredSignal {
    /// The name that the store gave the signal.
    pub id: Seq<char>,
    pub model_id: Seq<char>,
    pub input_text: Seq<char>,
    pub predicted_label: Seq<char>,
    pub corrected_label: Seq<char>,
    pub original_confidence: Option<u32>,
    /// Whether a retrain has used the signal.
    pub consumed: bool,
    /// When the signal was recorded, by the clock of the store.
    pub created_at: int,
}

/// The rows of a store.
pub type SignalRows = Seq<StoredSignal>;

/// Whether `row` waits to be used for retraining `model_id`.
pub open spec fn is_pending(row: StoredSignal, model_id: Seq<char>) -> bool {
    row.model_id == model_id && !row.consumed
}

/// The rows that wait to be used for retraining `model_id`.
pub open spec fn pending(rows: Seq<StoredSignal>, model_id: Seq<char>) -> Seq<StoredSignal> {
    rows.filter(|row: StoredSignal| is_pending(row, model_id))
}

/// Whether no two rows share a name.
pub open spec fn distinct_ids(rows: Seq<StoredSignal>) -> bool {
    forall|i: int, j: int|
        0 <= i < j < rows.len() ==> (#[trigger] rows[i]).id != (#[trigger] rows[j]).id
}

/// Whether `row` holds what `signal` says.
pub open spec fn keeps(row: StoredSignal, signal: SignalView) -> bool {
    &&& row.model_id == signal.model_id
    &&& row.input_text == signal.input_text
    &&& row.predicted_label == signal.predicted_label
    &&& row.corrected_label == signal.corrected_label
    &&& row.original_confidence == signal.original_confidence
}

/// Whether `after` is `before` with one more row, under a new name, that holds
/// `signal` and is not consumed.
pub open spec fn recorded(
    before: Seq<StoredSignal>,
    after: Seq<StoredSignal>,
    signal: SignalView,
) -> bool {
    &&& after.len() == before.len() + 1
    &&& after.drop_last() == before
    &&& keeps(after.last(), signal)
    &&& !after.last().consumed
    &&& forall|i: int| 0 <= i < before.len() ==> (#[trigger] before[i]).id != after.last().id
}

/// `row` as a signal.
pub open spec fn as_signal(row: StoredSignal) -> SignalView {
    SignalView {
        signal_id: Some(row.id),
        model_id: row.model_id,
        input_text: row.input_text,
        predicted_label: row.predicted_label,
        corrected_label: row.corrected_label,
        original_confidence: row.original_confidence,
    }
}

/// How many of `available` signals an export with the given limit holds.
pub open spec fn export_len(available: nat, limit: Option<usize>) -> nat {
    match limit {
        Some(n) => if n < available {
            n as nat
        } else {
            available
        },
        None => available,
    }
}

/// Whether `places` are the places of an export: pending rows of the model,
/// each at most once, as many as the limit admits, oldest first, and none of
/// them newer than a pending row that was left out.
pub open spec fn export_places(
    rows: Seq<StoredSignal>,
    model_id: Seq<char>,
    limit: Option<usize>,
    places: Seq<int>,
) -> bool {
    &&& places.len() == export_len(pending(rows, model_id).len(), limit)
    &&& places.no_duplicates()
    &&& forall|k: int|
        0 <= k < places.len() ==> 0 <= #[trigger] places[k] < rows.len() && is_pending(
            rows[places[k]],
            model_id,
        )
    &&& forall|k: int, l: int|
        0 <= k < l < places.len() ==> rows[#[trigger] places[k]].created_at
            <= rows[#[trigger] places[l]].created_at
    &&& forall|k: int, j: int|
        0 <= k < places.len() && 0 <= j < rows.len() && is_pending(rows[j], model_id)
            && !places.contains(j) ==> rows[#[trigger] places[k]].created_at <= (
        #[trigger] rows[j]).created_at
}

/// Whether `signals` is an export of the pending signals of a model, from rows
/// that all have names of their own.
pub open spec fn exported(
    rows: Seq<StoredSignal>,
    model_id: Seq<char>,
    limit: Option<usize>,
    signals: Seq<SignalView>,
) -> bool {
    &&& distinct_ids(rows)
    &&& exists|places: Seq<int>|
        {
            &&& #[trigger] export_places(rows, model_id, limit, places)
            &&& signals == places.map_values(|j: int| as_signal(rows[j]))
        }
}

/// Whether `later` is `rows` with more rows behind them, each under a name that
/// no row before it has.
pub open spec fn has_grown(rows: Seq<StoredSignal>, later: Seq<StoredSignal>) -> bool {
    &&& later.len() >= rows.len()
    &&& later.take(rows.len() as int) == rows
    &&& forall|i: int, j: int|
        0 <= i < j && rows.len() <= j < later.len() ==> (#[trigger] later[i]).id != (
        #[trigger] later[j]).id
}

/// The rows after the signals of `model_id` with the given names were used.
pub open spec fn consume(
    rows: Seq<StoredSignal>,
    model_id: Seq<char>,
    ids: Set<Seq<char>>,
) -> Seq<StoredSignal> {
    rows.map_values(
        |row: StoredSignal|
            if row.model_id == model_id && ids.contains(row.id) {
                StoredSignal { consumed: true, ..row }
            } else {
                row
            },
    )
}

/// The rows after all signals of `model_id` were used.
pub open spec fn consume_all(rows: Seq<StoredSignal>, model_id: Seq<char>) -> Seq<StoredSignal> {
    rows.map_values(
        |row: StoredSignal|
            if row.model_id == model_id {
                StoredSignal { consumed: true, ..row }
            } else {
                row
            },
    )
}

/// The names in a list.
pub open spec fn names_of(ids: Seq<String>) -> Set<Seq<char>> {
    ids.map_values(|id: String| id@).to_set()
}

/// Storage backend for training signals.
///
/// Consumers can implement custom backends. What a method says of the rows
/// holds when it succeeds.
pub trait SignalStore: Send + Sync {
    /// The rows of the store, in the order in which they were recorded.
    spec fn rows(&self) -> SignalRows;

    /// Record a correction signal. The store names it.
    fn record(&mut self, signal: &TrainingSignal) -> (r: Result<(), Failure>)
        ensures
            r is Ok ==> recorded(old(self).rows(), final(self).rows(), signal@),
    ;

    /// Count signals for a given model since last retrain.
    fn count_pending(&self, model_id: &str) -> (r: Result<usize, Failure>)
        ensures
            r matches Ok(n) ==> n == pending(self.rows(), model_id@).len(),
    ;

    /// Export pending signals for retraining, oldest first, at most `limit`.
    /// Every signal of the store has a name of its own.
    fn export_pending(&self, model_id: &str, limit: Option<usize>) -> (r: Result<
        Vec<TrainingSignal>,
        Failure,
    >)
        ensures
            r matches Ok(signals) ==> exported(
                self.rows(),
                model_id@,
                limit,
                signals_view(signals@),
            ),
    ;

    /// Mark the signals with the given names as consumed (after successful
    /// retrain). Signals of other models, and signals that arrived since, stay
    /// as they are.
    fn mark_consumed(&mut self, model_id: &str, signal_ids: &Vec<String>) -> (r: Result<
        (),
        Failure,
    >)
        ensures
            r is Ok ==> final(self).rows() == consume(
                old(self).rows(),
                model_id@,
                names_of(signal_ids@),
            ),
    ;

    /// Mark all signals of a model as consumed.
    fn mark_all_consumed(&mut self, model_id: &str) -> (r: Result<(), Failure>)
        ensures
            r is Ok ==> final(self).rows() == consume_all(old(self).rows(), model_id@),
    ;
}

} // verus!
