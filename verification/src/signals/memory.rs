//! A signal store in memory, for tests and for tools without a database.

use vstd::prelude::*;

use super::{
    as_signal, consume, consume_all, distinct_ids, export_len, export_places, is_pending, names_of, signals_view,
    SignalStore, SignalView, StoredSignal, TrainingSignal,
};
use crate::model::Failure;
use crate::text::{decimal, decimal_is_injective, decimal_text};

verus! {

/// A recorded signal and whether it was consumed.
struct Row {
    signal: TrainingSignal,
    consumed: bool,
}

/// A signal store in memory. The name of a signal is its number in the order
/// of recording, which is also its age.
pub struct MemorySignalStore {
    table: Vec<Row>,
}

/// A row of the table at place `i`.
spec fn stored(row: Row, i: int) -> StoredSignal {
    StoredSignal {
        id: decimal((i + 1) as nat),
        model_id: row.signal.model_id@,
        input_text: row.signal.input_text@,
        predicted_label: row.signal.predicted_label@,
        corrected_label: row.signal.corrected_label@,
        original_confidence: row.signal.original_confidence,
        consumed: row.consumed,
        created_at: i,
    }
}

/// Copies a signal.
fn copy_signal(signal: &TrainingSignal, signal_id: Option<String>) -> (r: TrainingSignal)
    ensures
        r@ == (SignalView {
            signal_id: match signal_id {
                Some(id) => Some(id@),
                None => None,
            },
            ..signal@
        }),
{
    TrainingSignal {
        signal_id,
        model_id: signal.model_id.clone(),
        input_text: signal.input_text.clone(),
        predicted_label: signal.predicted_label.clone(),
        corrected_label: signal.corrected_label.clone(),
        original_confidence: signal.original_confidence,
    }
}

/// Whether a list holds a name.
fn has_name(names: &Vec<String>, name: &String) -> (r: bool)
    ensures
        r == names_of(names@).contains(name@),
{
    let ghost views = names@.map_values(|id: String| id@);
    let mut i: usize = 0;
    while i < names.len()
        invariant
            i <= names@.len(),
            views == names@.map_values(|id: String| id@),
            forall|k: int| 0 <= k < i ==> #[trigger] views[k] != name@,
        decreases names@.len() - i,
    {
        assert(views[i as int] == names@[i as int]@);
        if names[i] == *name {
            assert(views.contains(name@));
            return true;
        }
        i = i + 1;
    }
    false
}

impl MemorySignalStore {
    /// The table as rows of a store.
    closed spec fn table_rows(&self) -> Seq<StoredSignal> {
        self.table@.map(|i: int, row: Row| stored(row, i))
    }

    /// No two signals have the same number.
    proof fn lemma_names_are_distinct(&self)
        ensures
            distinct_ids(self.rows()),
    {
        assert forall|i: int, j: int| 0 <= i < j < self.rows().len() implies (
        #[trigger] self.rows()[i]).id != (#[trigger] self.rows()[j]).id by {
            if self.rows()[i].id == self.rows()[j].id {
                decimal_is_injective((i + 1) as nat, (j + 1) as nat);
            }
        }
    }

    /// Signals age in the order in which they were recorded.
    pub proof fn rows_age_in_order(&self, i: int, j: int)
        requires
            0 <= i < j < self.rows().len(),
        ensures
            self.rows()[i].created_at < self.rows()[j].created_at,
    {
    }

    /// An empty store.
    pub fn new() -> (r: Self)
        ensures
            r.rows() == Seq::<StoredSignal>::empty(),
    {
        let r = MemorySignalStore { table: Vec::new() };
        assert(r.rows() =~= Seq::<StoredSignal>::empty());
        r
    }

    /// Marks the row at a place as consumed.
    fn set_consumed(&mut self, i: usize)
        requires
            i < old(self).table@.len(),
        ensures
            final(self).table@.len() == old(self).table@.len(),
            final(self).rows() == old(self).rows().update(
                i as int,
                StoredSignal { consumed: true, ..old(self).rows()[i as int] },
            ),
    {
        self.table[i].consumed = true;
        assert(self.rows() =~= old(self).rows().update(
            i as int,
            StoredSignal { consumed: true, ..old(self).rows()[i as int] },
        ));
    }
}

impl SignalStore for MemorySignalStore {
    closed spec fn rows(&self) -> Seq<StoredSignal> {
        self.table_rows()
    }

    fn record(&mut self, signal: &TrainingSignal) -> (r: Result<(), Failure>)
        ensures
            old(self).rows().len() < usize::MAX ==> r is Ok,
            r is Err ==> final(self).rows() == old(self).rows(),
    {
        if self.table.len() == usize::MAX {
            return Err(Failure { message: "signal store is full".to_owned() });
        }
        let ghost before = self.rows();
        self.table.push(Row { signal: copy_signal(signal, None), consumed: false });
        proof {
            let after = self.rows();
            assert(after.drop_last() =~= before);
            assert forall|i: int| 0 <= i < before.len() implies (#[trigger] before[i]).id
                != after.last().id by {
                if before[i].id == after.last().id {
                    decimal_is_injective((i + 1) as nat, (before.len() + 1) as nat);
                }
            }
        }
        Ok(())
    }

    fn count_pending(&self, model_id: &str) -> (r: Result<usize, Failure>)
        ensures
            r is Ok,
    {
        let wanted = model_id.to_owned();
        let ghost p = |row: StoredSignal| is_pending(row, model_id@);
        let mut n: usize = 0;
        let mut i: usize = 0;
        assert(self.rows().take(0) =~= Seq::empty());
        assert(self.rows().take(0).filter(p).len() == 0) by {
            self.rows().take(0).lemma_filter_len(p);
        }
        while i < self.table.len()
            invariant
                i <= self.table@.len(),
                self.rows().len() == self.table@.len(),
                wanted@ == model_id@,
                p == |row: StoredSignal| is_pending(row, model_id@),
                n <= i,
                n == self.rows().take(i as int).filter(p).len(),
            decreases self.table@.len() - i,
        {
            proof {
                assert(self.rows().take(i + 1) =~= self.rows().take(i as int).push(
                    self.rows()[i as int],
                ));
                self.rows().take(i as int).lemma_filter_push(self.rows()[i as int], p);
            }
            if self.table[i].signal.model_id == wanted && !self.table[i].consumed {
                n = n + 1;
            }
            i = i + 1;
        }
        assert(self.rows().take(i as int) =~= self.rows());
        Ok(n)
    }

    fn export_pending(&self, model_id: &str, limit: Option<usize>) -> (r: Result<
        Vec<TrainingSignal>,
        Failure,
    >)
        ensures
            r is Ok,
    {
        let wanted = model_id.to_owned();
        let ghost p = |row: StoredSignal| is_pending(row, model_id@);
        let ghost mut places: Seq<int> = Seq::empty();
        let mut signals: Vec<TrainingSignal> = Vec::new();
        let mut i: usize = 0;
        proof {
            assert(self.rows().take(0) =~= Seq::empty());
            self.rows().take(0).lemma_filter_len(p);
        }
        while i < self.table.len()
            invariant
                i <= self.table@.len(),
                self.rows().len() == self.table@.len(),
                wanted@ == model_id@,
                p == |row: StoredSignal| is_pending(row, model_id@),
                signals@.len() == places.len(),
                places.len() == export_len(self.rows().take(i as int).filter(p).len(), limit),
                forall|k: int|
                    0 <= k < places.len() ==> 0 <= #[trigger] places[k] < i && p(
                        self.rows()[places[k]],
                    ),
                forall|k: int, l: int|
                    0 <= k < l < places.len() ==> #[trigger] places[k] < #[trigger] places[l],
                forall|k: int|
                    0 <= k < places.len() ==> (#[trigger] signals@[k])@ == as_signal(
                        self.rows()[places[k]],
                    ),
                forall|j: int, k: int|
                    0 <= j < i && p(self.rows()[j]) && !places.contains(j) && 0 <= k
                        < places.len() ==> #[trigger] places[k] < (
                    #[trigger] self.rows()[j]).created_at,
                (limit matches Some(n) ==> places.len() < n) ==> forall|j: int|
                    0 <= j < i && p(#[trigger] self.rows()[j]) ==> places.contains(j),
            decreases self.table@.len() - i,
        {
            proof {
                assert(self.rows().take(i + 1) =~= self.rows().take(i as int).push(
                    self.rows()[i as int],
                ));
                self.rows().take(i as int).lemma_filter_push(self.rows()[i as int], p);
            }
            let room = match limit {
                Some(n) => signals.len() < n,
                None => true,
            };
            let ghost before = places;
            if self.table[i].signal.model_id == wanted && !self.table[i].consumed && room {
                let id = decimal_text(i as u64 + 1);
                signals.push(copy_signal(&self.table[i].signal, Some(id)));
                proof {
                    places = places.push(i as int);
                    assert forall|j: int| before.contains(j) implies places.contains(j) by {
                        let k = choose|k: int| 0 <= k < before.len() && before[k] == j;
                        assert(places[k] == j);
                    }
                    assert(places[before.len() as int] == i);
                }
            }
            i = i + 1;
        }
        proof {
            assert(self.rows().take(i as int) =~= self.rows());
            assert(signals_view(signals@) =~= places.map_values(
                |j: int| as_signal(self.rows()[j]),
            ));
            assert(export_places(self.rows(), model_id@, limit, places));
            self.lemma_names_are_distinct();
        }
        Ok(signals)
    }

    fn mark_consumed(&mut self, model_id: &str, signal_ids: &Vec<String>) -> (r: Result<
        (),
        Failure,
    >)
        ensures
            r is Ok,
    {
        let wanted = model_id.to_owned();
        let ghost before = self.rows();
        let ghost after = consume(before, model_id@, names_of(signal_ids@));
        let n: usize = self.table.len();
        let mut i: usize = 0;
        while i < n
            invariant
                i <= n,
                n == self.table@.len(),
                wanted@ == model_id@,
                before.len() == n,
                self.rows().len() == n,
                after == consume(before, model_id@, names_of(signal_ids@)),
                forall|j: int| 0 <= j < i ==> #[trigger] self.rows()[j] == after[j],
                forall|j: int| i <= j < n ==> #[trigger] self.rows()[j] == before[j],
            decreases n - i,
        {
            let id = decimal_text(i as u64 + 1);
            assert(self.rows()[i as int] == before[i as int]);
            if self.table[i].signal.model_id == wanted && has_name(signal_ids, &id) {
                self.set_consumed(i);
            }
            i = i + 1;
        }
        assert(self.rows() =~= after);
        Ok(())
    }

    fn mark_all_consumed(&mut self, model_id: &str) -> (r: Result<(), Failure>)
        ensures
            r is Ok,
    {
        let wanted = model_id.to_owned();
        let ghost before = self.rows();
        let ghost after = consume_all(before, model_id@);
        let n: usize = self.table.len();
        let mut i: usize = 0;
        while i < n
            invariant
                i <= n,
                n == self.table@.len(),
                wanted@ == model_id@,
                before.len() == n,
                after == consume_all(before, model_id@),
                self.rows().len() == n,
                forall|j: int| 0 <= j < i ==> #[trigger] self.rows()[j] == after[j],
                forall|j: int| i <= j < n ==> #[trigger] self.rows()[j] == before[j],
            decreases n - i,
        {
            assert(self.rows()[i as int] == before[i as int]);
            if self.table[i].signal.model_id == wanted {
                self.set_consumed(i);
            }
            i = i + 1;
        }
        assert(self.rows() =~= after);
        Ok(())
    }
}

} // verus!
