//! What holds of every signal store.

use vstd::prelude::*;

use super::{
    as_signal, consume, consume_all, distinct_ids, export_len, export_places, exported, has_grown,
    is_pending, pending, recorded, SignalView, StoredSignal,
};

verus! {

/// The places of the rows that satisfy a predicate.
spec fn places_where(rows: Seq<StoredSignal>, p: spec_fn(StoredSignal) -> bool) -> Set<int> {
    Set::new(|j: int| 0 <= j < rows.len() && p(rows[j]))
}

/// A filter keeps one row for every place whose row satisfies the predicate.
proof fn lemma_filter_places(rows: Seq<StoredSignal>, p: spec_fn(StoredSignal) -> bool)
    ensures
        places_where(rows, p).finite(),
        places_where(rows, p).len() == rows.filter(p).len(),
    decreases rows.len(),
{
    let here = places_where(rows, p);
    if rows.len() == 0 {
        assert(here =~= Set::empty());
        assert(rows.filter(p).len() == 0) by {
            rows.lemma_filter_len(p);
        }
    } else {
        let rest = rows.drop_last();
        let n = rest.len() as int;
        lemma_filter_places(rest, p);
        assert(rows =~= rest.push(rows.last()));
        rest.lemma_filter_push(rows.last(), p);
        if p(rows.last()) {
            assert(here =~= places_where(rest, p).insert(n));
        } else {
            assert(here =~= places_where(rest, p));
        }
    }
}

/// Rows that satisfy a predicate before and after a change of single rows, and
/// are not changed by it, pass a filter alike.
proof fn lemma_filter_unchanged(
    before: Seq<StoredSignal>,
    after: Seq<StoredSignal>,
    p: spec_fn(StoredSignal) -> bool,
)
    requires
        before.len() == after.len(),
        forall|j: int|
            0 <= j < before.len() ==> p(#[trigger] before[j]) == p(after[j]) && (p(before[j])
                ==> before[j] == after[j]),
    ensures
        before.filter(p) == after.filter(p),
    decreases before.len(),
{
    if before.len() == 0 {
        assert(before =~= after);
    } else {
        let b = before.drop_last();
        let a = after.drop_last();
        assert forall|j: int| 0 <= j < b.len() implies p(#[trigger] b[j]) == p(a[j]) && (p(b[j])
            ==> b[j] == a[j]) by {
            assert(b[j] == before[j]);
        }
        lemma_filter_unchanged(b, a, p);
        assert(before =~= b.push(before.last()));
        assert(after =~= a.push(after.last()));
        assert(before[before.len() - 1] == before.last());
        b.lemma_filter_push(before.last(), p);
        a.lemma_filter_push(after.last(), p);
    }
}

/// A recorded signal is one more pending signal of its model. The pending
/// signals of other models are the same as before.
pub proof fn recording_adds_one_pending(
    before: Seq<StoredSignal>,
    after: Seq<StoredSignal>,
    signal: SignalView,
    model_id: Seq<char>,
)
    requires
        recorded(before, after, signal),
    ensures
        model_id == signal.model_id ==> pending(after, model_id).len() == pending(
            before,
            model_id,
        ).len() + 1,
        model_id != signal.model_id ==> pending(after, model_id) == pending(before, model_id),
{
    assert(after =~= before.push(after.last()));
    before.lemma_filter_push(after.last(), |row: StoredSignal| is_pending(row, model_id));
}

/// Recording keeps the names of signals apart.
pub proof fn recording_keeps_ids_distinct(
    before: Seq<StoredSignal>,
    after: Seq<StoredSignal>,
    signal: SignalView,
)
    requires
        recorded(before, after, signal),
        distinct_ids(before),
    ensures
        distinct_ids(after),
{
    assert forall|i: int, j: int| 0 <= i < j < after.len() implies (#[trigger] after[i]).id != (
    #[trigger] after[j]).id by {
        assert(after.drop_last()[i] == before[i]);
        if j < before.len() {
            assert(after.drop_last()[j] == before[j]);
        }
    }
}

/// A store that has grown has still grown when it has recorded one more signal.
/// To record nothing is to grow by nothing.
pub proof fn recording_grows_a_store(
    rows: Seq<StoredSignal>,
    before: Seq<StoredSignal>,
    after: Seq<StoredSignal>,
    signal: SignalView,
)
    requires
        has_grown(rows, before),
        recorded(before, after, signal),
    ensures
        has_grown(rows, after),
        has_grown(rows, rows),
{
    let n = rows.len() as int;
    assert(after =~= before.push(after.last()));
    assert(after.take(n) =~= before.take(n));
    assert(rows.take(n) =~= rows);
    assert forall|i: int, j: int| 0 <= i < j && n <= j < after.len() implies (
    #[trigger] after[i]).id != (#[trigger] after[j]).id by {
        assert(after[i] == before[i]);
        if j < before.len() {
            assert(after[j] == before[j]);
        }
    }
}

/// Growing keeps the names of signals apart.
pub proof fn growing_keeps_ids_distinct(rows: Seq<StoredSignal>, later: Seq<StoredSignal>)
    requires
        distinct_ids(rows),
        has_grown(rows, later),
    ensures
        distinct_ids(later),
{
    assert forall|i: int, j: int| 0 <= i < j < later.len() implies (#[trigger] later[i]).id != (
    #[trigger] later[j]).id by {
        if j < rows.len() {
            assert(later.take(rows.len() as int)[i] == rows[i]);
            assert(later.take(rows.len() as int)[j] == rows[j]);
        }
    }
}

/// An export without a limit has every pending signal of the model.
proof fn lemma_unlimited_export_is_whole(
    rows: Seq<StoredSignal>,
    model_id: Seq<char>,
    limit: Option<usize>,
    places: Seq<int>,
    j: int,
)
    requires
        export_places(rows, model_id, limit, places),
        places.len() == pending(rows, model_id).len(),
        0 <= j < rows.len(),
        is_pending(rows[j], model_id),
    ensures
        places.contains(j),
{
    let p = |row: StoredSignal| is_pending(row, model_id);
    lemma_filter_places(rows, p);
    places.unique_seq_to_set();
    assert(places.to_set().subset_of(places_where(rows, p)));
    vstd::set_lib::lemma_subset_equality(places.to_set(), places_where(rows, p));
    assert(places_where(rows, p).contains(j));
    assert(places.to_set().contains(j));
}

/// What was recorded comes back: an export that is not cut short by its limit
/// holds the signal, under the name that the store gave it.
pub proof fn export_returns_what_was_recorded(
    before: Seq<StoredSignal>,
    after: Seq<StoredSignal>,
    signal: SignalView,
    limit: Option<usize>,
    signals: Seq<SignalView>,
)
    requires
        recorded(before, after, signal),
        exported(after, signal.model_id, limit, signals),
        limit matches Some(n) ==> pending(after, signal.model_id).len() <= n,
    ensures
        signals.contains(SignalView { signal_id: Some(after.last().id), ..signal }),
{
    let places = choose|places: Seq<int>|
        {
            &&& #[trigger] export_places(after, signal.model_id, limit, places)
            &&& signals == places.map_values(|j: int| as_signal(after[j]))
        };
    let j = after.len() - 1;
    lemma_unlimited_export_is_whole(after, signal.model_id, limit, places, j);
    let k = choose|k: int| 0 <= k < places.len() && places[k] == j;
    assert(signals[k] == as_signal(after[j]));
}

/// An export has as many signals as are pending, or as its limit admits where
/// that is fewer. All of them are pending signals of the model.
pub proof fn export_is_limited_and_of_the_model(
    rows: Seq<StoredSignal>,
    model_id: Seq<char>,
    limit: Option<usize>,
    signals: Seq<SignalView>,
)
    requires
        exported(rows, model_id, limit, signals),
    ensures
        signals.len() == export_len(pending(rows, model_id).len(), limit),
        forall|k: int|
            0 <= k < signals.len() ==> exists|j: int|
                0 <= j < rows.len() && is_pending(#[trigger] rows[j], model_id)
                    && #[trigger] signals[k] == as_signal(rows[j]),
{
    let places = choose|places: Seq<int>|
        {
            &&& #[trigger] export_places(rows, model_id, limit, places)
            &&& signals == places.map_values(|j: int| as_signal(rows[j]))
        };
    assert forall|k: int| 0 <= k < signals.len() implies exists|j: int|
        0 <= j < rows.len() && is_pending(#[trigger] rows[j], model_id) && #[trigger] signals[k]
            == as_signal(rows[j]) by {
        assert(is_pending(rows[places[k]], model_id));
        assert(signals[k] == as_signal(rows[places[k]]));
    }
}

/// After all signals of a model were consumed none of them is pending. The
/// pending signals of other models are the same as before.
pub proof fn consuming_all_leaves_other_models(
    rows: Seq<StoredSignal>,
    model_id: Seq<char>,
    other: Seq<char>,
)
    ensures
        pending(consume_all(rows, model_id), model_id).len() == 0,
        other != model_id ==> pending(consume_all(rows, model_id), other) == pending(rows, other),
{
    let after = consume_all(rows, model_id);
    let p = |row: StoredSignal| is_pending(row, model_id);
    lemma_filter_places(after, p);
    assert(places_where(after, p) =~= Set::empty());
    if other != model_id {
        lemma_filter_unchanged(rows, after, |row: StoredSignal| is_pending(row, other));
    }
}

/// Consuming signals of one model leaves the pending signals of every other
/// model as they were.
pub proof fn consuming_leaves_other_models(
    rows: Seq<StoredSignal>,
    model_id: Seq<char>,
    ids: Set<Seq<char>>,
    other: Seq<char>,
)
    requires
        other != model_id,
    ensures
        pending(consume(rows, model_id, ids), other) == pending(rows, other),
{
    lemma_filter_unchanged(
        rows,
        consume(rows, model_id, ids),
        |row: StoredSignal| is_pending(row, other),
    );
}

/// The names in a list of signals.
pub open spec fn signal_ids(signals: Seq<SignalView>) -> Set<Seq<char>> {
    Set::new(
        |id: Seq<char>|
            exists|k: int|
                0 <= k < signals.len() && (#[trigger] signals[k]).signal_id == Some(id),
    )
}

/// A batch is exported; more signals arrive; the batch is consumed by name.
/// Then the batch, and nothing else, is no longer pending: every signal that
/// arrived in between, and every signal that the batch left out, still is.
pub proof fn consuming_a_batch_spares_the_rest(
    rows: Seq<StoredSignal>,
    model_id: Seq<char>,
    limit: Option<usize>,
    batch: Seq<SignalView>,
    later: Seq<StoredSignal>,
)
    requires
        exported(rows, model_id, limit, batch),
        has_grown(rows, later),
    ensures
        ({
            let after = consume(later, model_id, signal_ids(batch));
            &&& pending(after, model_id).len() + batch.len() == pending(later, model_id).len()
            &&& forall|j: int|
                rows.len() <= j < later.len() ==> #[trigger] after[j] == later[j]
            &&& forall|j: int|
                0 <= j < later.len() && !signal_ids(batch).contains(later[j].id)
                    ==> #[trigger] after[j] == later[j]
            &&& forall|j: int|
                0 <= j < later.len() && later[j].model_id == model_id && signal_ids(
                    batch,
                ).contains(later[j].id) ==> !is_pending(#[trigger] after[j], model_id)
        }),
{
    growing_keeps_ids_distinct(rows, later);
    let ids = signal_ids(batch);
    let after = consume(later, model_id, ids);
    let places = choose|places: Seq<int>|
        {
            &&& #[trigger] export_places(rows, model_id, limit, places)
            &&& batch == places.map_values(|j: int| as_signal(rows[j]))
        };
    let p = |row: StoredSignal| is_pending(row, model_id);
    assert forall|j: int| 0 <= j < later.len() && ids.contains((#[trigger] later[j]).id) implies j
        < rows.len() && places.contains(j) by {
        let k = choose|k: int|
            0 <= k < batch.len() && (#[trigger] batch[k]).signal_id == Some(later[j].id);
        assert(batch[k] == as_signal(rows[places[k]]));
        let i = places[k];
        assert(rows[i] == later.take(rows.len() as int)[i]);
        assert(later[i].id == later[j].id);
        assert(i == j);
    }
    assert forall|j: int| places.contains(j) implies 0 <= j < rows.len() && ids.contains(
        (#[trigger] later[j]).id,
    ) && p(later[j]) by {
        let k = choose|k: int| 0 <= k < places.len() && places[k] == j;
        assert(is_pending(rows[places[k]], model_id));
        assert(rows[j] == later.take(rows.len() as int)[j]);
        assert(batch[k] == as_signal(rows[places[k]]));
        assert(batch[k].signal_id == Some(later[j].id));
    }
    lemma_filter_places(later, p);
    lemma_filter_places(after, p);
    places.unique_seq_to_set();
    let before_set = places_where(later, p);
    let after_set = places_where(after, p);
    assert(after_set =~= before_set.difference(places.to_set()));
    assert(places.to_set().subset_of(before_set));
    assert(before_set =~= after_set.union(places.to_set()));
    vstd::set_lib::lemma_set_disjoint_lens(after_set, places.to_set());
}

/// Consumed signals are not exported again.
pub proof fn consumed_signals_do_not_come_back(
    rows: Seq<StoredSignal>,
    model_id: Seq<char>,
    ids: Set<Seq<char>>,
    limit: Option<usize>,
    signals: Seq<SignalView>,
)
    requires
        exported(consume(rows, model_id, ids), model_id, limit, signals),
    ensures
        forall|id: Seq<char>|
            ids.contains(id) ==> !(#[trigger] signal_ids(signals).contains(id)),
{
    let after = consume(rows, model_id, ids);
    export_is_limited_and_of_the_model(after, model_id, limit, signals);
    assert forall|id: Seq<char>| ids.contains(id) implies !(#[trigger] signal_ids(
        signals,
    ).contains(id)) by {
        if signal_ids(signals).contains(id) {
            let k = choose|k: int|
                0 <= k < signals.len() && (#[trigger] signals[k]).signal_id == Some(id);
            let j = choose|j: int|
                0 <= j < after.len() && is_pending(#[trigger] after[j], model_id) && signals[k]
                    == as_signal(after[j]);
            assert(rows[j].id == id);
        }
    }
}

/// Consuming the same signals a second time changes nothing.
pub proof fn consuming_twice_is_consuming_once(
    rows: Seq<StoredSignal>,
    model_id: Seq<char>,
    ids: Set<Seq<char>>,
)
    ensures
        consume(consume(rows, model_id, ids), model_id, ids) == consume(rows, model_id, ids),
{
    assert(consume(consume(rows, model_id, ids), model_id, ids) =~= consume(rows, model_id, ids));
}

} // verus!
