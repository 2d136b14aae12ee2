//! What signal stores are for.

use vstd::prelude::*;

use super::places::lemma_filter_counts;
use crate::model::Failure;
use crate::signals::memory::MemorySignalStore;
use crate::signals::{
    as_signal, export_places, signals_view, SignalStore, StoredSignal, TrainingSignal,
};

verus! {

/// A store counts the rows of a model that are not consumed, all of them and no
/// others.
pub proof fn counting_counts_the_rows_of_the_model<S: SignalStore>(
    store: &S,
    model_id: &str,
    n: usize,
)
    requires
        call_ensures(S::count_pending, (store, model_id), Ok(n)),
    ensures
        n == Set::new(
            |j: int|
                0 <= j < store.rows().len() && store.rows()[j].model_id == model_id@
                    && !store.rows()[j].consumed,
        ).len(),
{
    let rows = store.rows();
    let p = |row: StoredSignal| crate::signals::is_pending(row, model_id@);
    lemma_filter_counts(rows, p);
    assert(Set::new(|j: int| 0 <= j < rows.len() && p(rows[j])) =~= Set::new(
        |j: int| 0 <= j < rows.len() && rows[j].model_id == model_id@ && !rows[j].consumed,
    ));
}

/// An export reads rows of the model that are not consumed, each at most once,
/// oldest first: as many as there are, or as the limit says where that is fewer.
/// No row that is left out is older than one that is read. Every signal says what
/// its row says, under the name of the row.
pub proof fn exporting_reads_the_oldest_rows<S: SignalStore>(
    store: &S,
    model_id: &str,
    limit: Option<usize>,
    signals: Vec<TrainingSignal>,
) -> (places: Seq<int>)
    requires
        call_ensures(S::export_pending, (store, model_id, limit), Ok(signals)),
    ensures
        ({
            let rows = store.rows();
            let waiting = Set::new(
                |j: int|
                    0 <= j < rows.len() && rows[j].model_id == model_id@ && !rows[j].consumed,
            );
            &&& places.len() == signals@.len()
            &&& places.no_duplicates()
            &&& forall|k: int| 0 <= k < places.len() ==> waiting.contains(#[trigger] places[k])
            &&& limit is None ==> places.len() == waiting.len()
            &&& limit matches Some(n) ==> places.len() == if n < waiting.len() {
                n as nat
            } else {
                waiting.len()
            }
            &&& forall|k: int, l: int|
                0 <= k < l < places.len() ==> rows[#[trigger] places[k]].created_at
                    <= rows[#[trigger] places[l]].created_at
            &&& forall|k: int, j: int|
                0 <= k < places.len() && #[trigger] waiting.contains(j) && !places.contains(j)
                    ==> rows[#[trigger] places[k]].created_at <= rows[j].created_at
            &&& forall|k: int|
                0 <= k < places.len() ==> {
                    let signal = #[trigger] signals@[k];
                    let row = rows[places[k]];
                    &&& signal.signal_id matches Some(id) && id@ == row.id
                    &&& signal.model_id@ == row.model_id
                    &&& signal.input_text@ == row.input_text
                    &&& signal.predicted_label@ == row.predicted_label
                    &&& signal.corrected_label@ == row.corrected_label
                    &&& signal.original_confidence == row.original_confidence
                }
        }),
{
    let rows = store.rows();
    let waiting = Set::new(
        |j: int| 0 <= j < rows.len() && rows[j].model_id == model_id@ && !rows[j].consumed,
    );
    let p = |row: StoredSignal| crate::signals::is_pending(row, model_id@);
    lemma_filter_counts(rows, p);
    assert(Set::new(|j: int| 0 <= j < rows.len() && p(rows[j])) =~= waiting);
    let places = choose|places: Seq<int>|
        {
            &&& #[trigger] export_places(rows, model_id@, limit, places)
            &&& signals_view(signals@) == places.map_values(|j: int| as_signal(rows[j]))
        };
    assert(signals_view(signals@).len() == places.len());
    assert forall|k: int| 0 <= k < places.len() implies {
        let signal = #[trigger] signals@[k];
        let row = rows[places[k]];
        &&& signal.signal_id matches Some(id) && id@ == row.id
        &&& signal.model_id@ == row.model_id
        &&& signal.input_text@ == row.input_text
        &&& signal.predicted_label@ == row.predicted_label
        &&& signal.corrected_label@ == row.corrected_label
        &&& signal.original_confidence == row.original_confidence
    } by {
        assert(signals_view(signals@)[k] == signals@[k]@);
        assert(signals_view(signals@)[k] == as_signal(rows[places[k]]));
    }
    places
}

/// The rows of a store that exports have names of their own.
pub proof fn exported_rows_have_names_of_their_own<S: SignalStore>(
    store: &S,
    model_id: &str,
    limit: Option<usize>,
    signals: Vec<TrainingSignal>,
    i: int,
    j: int,
)
    requires
        call_ensures(S::export_pending, (store, model_id, limit), Ok(signals)),
        0 <= i < j < store.rows().len(),
    ensures
        store.rows()[i].id != store.rows()[j].id,
{
}

/// Recording adds one row behind the others. It says what the signal says, waits
/// to be used, and has a name that no other row has.
pub proof fn recording_adds_the_signal<S: SignalStore>(
    store: &mut S,
    signal: &TrainingSignal,
    j: int,
)
    requires
        call_ensures(S::record, (store, signal), Ok(())),
    ensures
        ({
            let (before, after) = (old(store).rows(), final(store).rows());
            let row = after[before.len() as int];
            &&& after.len() == before.len() + 1
            &&& 0 <= j < before.len() ==> after[j] == before[j] && before[j].id != row.id
            &&& row.model_id == signal.model_id@
            &&& row.input_text == signal.input_text@
            &&& row.predicted_label == signal.predicted_label@
            &&& row.corrected_label == signal.corrected_label@
            &&& row.original_confidence == signal.original_confidence
            &&& !row.consumed
        }),
{
    let (before, after) = (old(store).rows(), final(store).rows());
    assert(after.drop_last() == before);
    if 0 <= j < before.len() {
        assert(after.drop_last()[j] == after[j]);
        assert(before[j].id != after.last().id);
    }
}

/// Marking signals as consumed marks the rows of the model with the given names.
/// Every other row, and everything else in those rows, stays.
pub proof fn marking_marks_the_named_rows<S: SignalStore>(
    store: &mut S,
    model_id: &str,
    signal_ids: &Vec<String>,
    j: int,
)
    requires
        call_ensures(S::mark_consumed, (store, model_id, signal_ids), Ok(())),
        0 <= j < old(store).rows().len(),
    ensures
        final(store).rows().len() == old(store).rows().len(),
        ({
            let (before, after) = (old(store).rows()[j], final(store).rows()[j]);
            let named = before.model_id == model_id@ && exists|k: int|
                0 <= k < signal_ids@.len() && (#[trigger] signal_ids@[k])@ == before.id;
            &&& after.consumed == (before.consumed || named)
            &&& after.id == before.id
            &&& after.model_id == before.model_id
            &&& after.input_text == before.input_text
            &&& after.predicted_label == before.predicted_label
            &&& after.corrected_label == before.corrected_label
            &&& after.original_confidence == before.original_confidence
            &&& after.created_at == before.created_at
        }),
{
    let before = old(store).rows()[j];
    let views = signal_ids@.map_values(|id: String| id@);
    if views.contains(before.id) {
        let k = choose|k: int| 0 <= k < views.len() && views[k] == before.id;
        assert(signal_ids@[k]@ == before.id);
    }
    if exists|k: int| 0 <= k < signal_ids@.len() && (#[trigger] signal_ids@[k])@ == before.id {
        let k = choose|k: int|
            0 <= k < signal_ids@.len() && (#[trigger] signal_ids@[k])@ == before.id;
        assert(views[k] == before.id);
    }
}

/// Draining a model marks its rows, all of them and no others.
pub proof fn draining_marks_the_rows_of_the_model<S: SignalStore>(
    store: &mut S,
    model_id: &str,
    j: int,
)
    requires
        call_ensures(S::mark_all_consumed, (store, model_id), Ok(())),
        0 <= j < old(store).rows().len(),
    ensures
        final(store).rows().len() == old(store).rows().len(),
        ({
            let (before, after) = (old(store).rows()[j], final(store).rows()[j]);
            &&& after.consumed == (before.consumed || before.model_id == model_id@)
            &&& after.id == before.id
            &&& after.model_id == before.model_id
            &&& after.input_text == before.input_text
            &&& after.predicted_label == before.predicted_label
            &&& after.corrected_label == before.corrected_label
            &&& after.original_confidence == before.original_confidence
            &&& after.created_at == before.created_at
        }),
{
}

/// What is recorded is counted, and comes back from an export without a limit.
pub proof fn what_is_recorded_comes_back<S: SignalStore>(
    store: &mut S,
    signal: &TrainingSignal,
    model_id: &str,
    n: usize,
    signals: Vec<TrainingSignal>,
)
    requires
        call_ensures(S::record, (store, signal), Ok(())),
        model_id@ == signal.model_id@,
        call_ensures(S::count_pending, (&*final(store), model_id), Ok(n)),
        call_ensures(S::export_pending, (&*final(store), model_id, None), Ok(signals)),
    ensures
        signals@.len() == n,
        exists|k: int|
            0 <= k < signals@.len() && (#[trigger] signals@[k]).model_id@ == signal.model_id@
                && signals@[k].input_text@ == signal.input_text@ && signals@[k].predicted_label@
                == signal.predicted_label@ && signals@[k].corrected_label@
                == signal.corrected_label@ && signals@[k].original_confidence
                == signal.original_confidence,
{
    recording_adds_the_signal(store, signal, 0);
    let rows = final(store).rows();
    let j = rows.len() - 1;
    let waiting = Set::new(
        |j: int| 0 <= j < rows.len() && rows[j].model_id == model_id@ && !rows[j].consumed,
    );
    counting_counts_the_rows_of_the_model(&*final(store), model_id, n);
    let places = exporting_reads_the_oldest_rows(&*final(store), model_id, None, signals);
    let p = |row: StoredSignal| crate::signals::is_pending(row, model_id@);
    lemma_filter_counts(rows, p);
    assert(Set::new(|j: int| 0 <= j < rows.len() && p(rows[j])) =~= waiting);
    places.unique_seq_to_set();
    assert(places.to_set().subset_of(waiting));
    vstd::set_lib::lemma_subset_equality(places.to_set(), waiting);
    assert(waiting.contains(j));
    assert(places.to_set().contains(j));
    let k = choose|k: int| 0 <= k < places.len() && places[k] == j;
    assert(signals@[k].model_id@ == signal.model_id@);
}

/// A store in memory starts empty and does not fail, but for want of room.
pub proof fn a_store_in_memory_does_not_fail(
    fresh: MemorySignalStore,
    store: &mut MemorySignalStore,
    signal: &TrainingSignal,
    recorded: Result<(), Failure>,
    model_id: &str,
    limit: Option<usize>,
    counted: Result<usize, Failure>,
    exported: Result<Vec<TrainingSignal>, Failure>,
)
    requires
        call_ensures(MemorySignalStore::new, (), fresh),
        call_ensures(MemorySignalStore::record, (store, signal), recorded),
        call_ensures(MemorySignalStore::count_pending, (&fresh, model_id), counted),
        call_ensures(MemorySignalStore::export_pending, (&fresh, model_id, limit), exported),
    ensures
        fresh.rows().len() == 0,
        old(store).rows().len() < usize::MAX ==> recorded is Ok,
        recorded is Err ==> final(store).rows() == old(store).rows(),
        counted == Ok::<usize, Failure>(0),
        exported matches Ok(signals) && signals@.len() == 0,
{
    assert(recorded matches Ok(u) ==> u == ());
    let p = |row: StoredSignal| crate::signals::is_pending(row, model_id@);
    fresh.rows().lemma_filter_len(p);
    crate::signals::laws::export_is_limited_and_of_the_model(
        fresh.rows(),
        model_id@,
        limit,
        signals_view(exported->Ok_0@),
    );
}

/// Marking in a store in memory does not fail.
pub proof fn marking_in_memory_does_not_fail(
    store: &mut MemorySignalStore,
    model_id: &str,
    signal_ids: &Vec<String>,
    marked: Result<(), Failure>,
    drained_store: &mut MemorySignalStore,
    drained: Result<(), Failure>,
)
    requires
        call_ensures(MemorySignalStore::mark_consumed, (store, model_id, signal_ids), marked),
        call_ensures(MemorySignalStore::mark_all_consumed, (drained_store, model_id), drained),
    ensures
        marked is Ok,
        drained is Ok,
{
}

} // verus!
