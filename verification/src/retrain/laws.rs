//! What holds of every retrain cycle.

use vstd::prelude::*;

use super::artifact::RetrainArtifact;
use super::features::CategoryView;
use super::pipeline::{
    batch_ids, batch_of, RetrainCycle, RetrainPipeline, RetrainReport, RetrainTools,
};
use super::status::RetrainResult;
use super::weights::{due, learned, WeightModel, WeightsView};
use crate::config::ModelConfig;
use crate::model::{Failure, ModelBackend};
use crate::registry::ModelRegistry;
use crate::signals::laws::{
    consuming_a_batch_spares_the_rest, consuming_leaves_other_models,
    export_is_limited_and_of_the_model, signal_ids,
};
use crate::signals::{
    as_signal, consume, export_len, export_places, exported, has_grown, is_pending, names_of,
    pending, SignalStore, SignalView, StoredSignal,
};

verus! {

/// A completed cycle raises the version of the model by one, and its result
/// tells both versions.
pub proof fn a_cycle_raises_the_version_by_one<
    M: WeightModel,
    K: Fn(u64, u64, usize, usize) -> u64,
    N: Fn(u64) -> u32,
>(
    before: RetrainPipeline<M>,
    after: RetrainPipeline<M>,
    signals: Seq<SignalView>,
    cycle: RetrainCycle<M>,
    result: RetrainResult,
    step: K,
    narrow: N,
)
    requires
        before.learns(signals, cycle, step, narrow),
        RetrainPipeline::completed(before, after, cycle, result),
    ensures
        after.model().weights().version == before.model().weights().version + 1,
        result.previous_version == before.model().weights().version,
        result.new_version == after.model().weights().version,
        after.artifact()->0.version == after.model().weights().version,
{
}

/// A cycle learns from as many of the pending signals as a batch admits.
pub proof fn a_cycle_learns_from_at_most_a_batch<
    M: WeightModel,
    K: Fn(u64, u64, usize, usize) -> u64,
    N: Fn(u64) -> u32,
>(
    before: RetrainPipeline<M>,
    rows: Seq<StoredSignal>,
    signals: Seq<SignalView>,
    cycle: RetrainCycle<M>,
    step: K,
    narrow: N,
)
    requires
        exported(rows, before.id(), None, signals),
        before.learns(signals, cycle, step, narrow),
    ensures
        cycle.batch_len == export_len(
            pending(rows, before.id()).len(),
            Some(before.settings().batch_size),
        ),
{
    export_is_limited_and_of_the_model(rows, before.id(), None, signals);
}

/// The first signals of an export without limit are an export with that limit.
pub proof fn the_start_of_an_export_is_an_export(
    rows: Seq<StoredSignal>,
    model_id: Seq<char>,
    signals: Seq<SignalView>,
    batch_size: usize,
)
    requires
        exported(rows, model_id, None, signals),
    ensures
        exported(rows, model_id, Some(batch_size), batch_of(signals, batch_size)),
{
    let all = choose|places: Seq<int>|
        {
            &&& #[trigger] export_places(rows, model_id, None, places)
            &&& signals == places.map_values(|j: int| as_signal(rows[j]))
        };
    let n = export_len(all.len(), Some(batch_size)) as int;
    let places = all.take(n);
    assert forall|k: int, j: int|
        0 <= k < places.len() && 0 <= j < rows.len() && is_pending(rows[j], model_id)
            && !places.contains(j) implies rows[#[trigger] places[k]].created_at <= (
    #[trigger] rows[j]).created_at by {
        assert(places[k] == all[k]);
        if all.contains(j) {
            let l = choose|l: int| 0 <= l < all.len() && all[l] == j;
            if l < n {
                assert(places[l] == j);
            }
        }
    }
    assert(export_places(rows, model_id, Some(batch_size), places));
    assert(batch_of(signals, batch_size) =~= places.map_values(|j: int| as_signal(rows[j])));
}

/// The listed names of a batch are the names of its signals.
proof fn lemma_batch_ids(batch: Seq<SignalView>)
    ensures
        batch_ids(batch).to_set() == signal_ids(batch),
    decreases batch.len(),
{
    if batch.len() == 0 {
        assert(batch_ids(batch).to_set() =~= signal_ids(batch));
    } else {
        let rest = batch.drop_last();
        lemma_batch_ids(rest);
        assert forall|id: Seq<char>| signal_ids(batch).contains(id) == (signal_ids(rest).contains(
            id,
        ) || batch.last().signal_id == Some(id)) by {
            if signal_ids(rest).contains(id) {
                let k = choose|k: int|
                    0 <= k < rest.len() && (#[trigger] rest[k]).signal_id == Some(id);
                assert(batch[k].signal_id == Some(id));
            }
            if batch.last().signal_id == Some(id) {
                assert(batch[batch.len() - 1].signal_id == Some(id));
            }
            if signal_ids(batch).contains(id) {
                let k = choose|k: int|
                    0 <= k < batch.len() && (#[trigger] batch[k]).signal_id == Some(id);
                if k < rest.len() {
                    assert(rest[k].signal_id == Some(id));
                }
            }
        }
        match batch.last().signal_id {
            Some(id) => {
                batch_ids(rest).lemma_push_to_set_commute(id);
                assert(batch_ids(batch).to_set() =~= signal_ids(batch));
            },
            None => {
                assert(batch_ids(batch).to_set() =~= signal_ids(batch));
            },
        }
    }
}

/// A cycle consumes the signals that it learned from, and no others: signals
/// that the batch left out, and signals that arrived while it was running, are
/// still pending for the next cycle.
pub proof fn a_cycle_consumes_what_it_learned_from<
    M: WeightModel,
    K: Fn(u64, u64, usize, usize) -> u64,
    N: Fn(u64) -> u32,
>(
    before: RetrainPipeline<M>,
    rows: Seq<StoredSignal>,
    signals: Seq<SignalView>,
    cycle: RetrainCycle<M>,
    later: Seq<StoredSignal>,
    step: K,
    narrow: N,
)
    requires
        exported(rows, before.id(), None, signals),
        before.learns(signals, cycle, step, narrow),
        has_grown(rows, later),
    ensures
        ({
            let batch = batch_of(signals, before.settings().batch_size);
            let after = consume(later, before.id(), names_of(cycle.signal_ids@));
            &&& names_of(cycle.signal_ids@) == signal_ids(batch)
            &&& pending(after, before.id()).len() + cycle.batch_len == pending(
                later,
                before.id(),
            ).len()
            &&& forall|j: int|
                rows.len() <= j < later.len() ==> #[trigger] after[j] == later[j]
            &&& forall|j: int|
                0 <= j < later.len() && !signal_ids(batch).contains(later[j].id)
                    ==> #[trigger] after[j] == later[j]
        }),
{
    let n = before.settings().batch_size;
    let batch = batch_of(signals, n);
    the_start_of_an_export_is_an_export(rows, before.id(), signals, n);
    lemma_batch_ids(batch);
    assert(names_of(cycle.signal_ids@) == batch_ids(batch).to_set());
    consuming_a_batch_spares_the_rest(rows, before.id(), Some(n), batch, later);
}

/// A cycle whose report tells of no failure to consume has taken its batch, and
/// nothing else, off the pending signals. The signals of other models are
/// pending as before, and the model is one version further.
pub proof fn a_reported_cycle_took_its_batch<
    M: WeightModel,
    S: SignalStore,
    B: ModelBackend,
    F: Fn(&ModelConfig, &str) -> Result<Option<B>, Failure>,
    K: Fn(u64, u64, usize, usize) -> u64,
    N: Fn(u64) -> u32,
    W: Fn(&RetrainArtifact) -> Result<String, Failure>,
    C: Fn() -> u128,
>(
    before: RetrainPipeline<M>,
    after: RetrainPipeline<M>,
    store: S,
    store_after: S,
    signals: Seq<SignalView>,
    registry: Option<&ModelRegistry<B, F>>,
    tools: RetrainTools<K, N, W, C>,
    report: RetrainReport,
    other: Seq<char>,
)
    requires
        RetrainPipeline::cycled(
            before,
            after,
            store,
            store_after,
            signals,
            registry,
            tools,
            report,
        ),
        report.consume_failure is None,
    ensures
        report.result.signals_consumed == export_len(
            pending(store.rows(), before.id()).len(),
            Some(before.settings().batch_size),
        ),
        pending(store_after.rows(), before.id()).len() + report.result.signals_consumed == pending(
            store.rows(),
            before.id(),
        ).len(),
        other != before.id() ==> pending(store_after.rows(), other) == pending(store.rows(), other),
        after.model().weights().version == before.model().weights().version + 1,
        report.result.new_version == report.result.previous_version + 1,
{
    let cycle = choose|cycle: RetrainCycle<M>|
        {
            &&& #[trigger] before.learns(signals, cycle, tools.step, tools.narrow)
            &&& RetrainPipeline::completed(before, after, cycle, report.result)
            &&& before.handed_on(cycle, store, store_after, registry, tools, report)
        };
    let rows = store.rows();
    a_cycle_learns_from_at_most_a_batch(
        before,
        rows,
        signals,
        cycle,
        tools.step,
        tools.narrow,
    );
    assert(rows.take(rows.len() as int) =~= rows);
    a_cycle_consumes_what_it_learned_from(
        before,
        rows,
        signals,
        cycle,
        rows,
        tools.step,
        tools.narrow,
    );
    if other != before.id() {
        consuming_leaves_other_models(rows, before.id(), names_of(cycle.signal_ids@), other);
    }
}

/// No signal is learned from twice: what a cycle has consumed is in no later
/// export, whatever has arrived by then.
pub proof fn no_signal_is_learned_from_twice<
    M: WeightModel,
    K: Fn(u64, u64, usize, usize) -> u64,
    N: Fn(u64) -> u32,
>(
    before: RetrainPipeline<M>,
    rows: Seq<StoredSignal>,
    signals: Seq<SignalView>,
    cycle: RetrainCycle<M>,
    step: K,
    narrow: N,
    later: Seq<StoredSignal>,
    limit: Option<usize>,
    next: Seq<SignalView>,
    id: Seq<char>,
)
    requires
        exported(rows, before.id(), None, signals),
        before.learns(signals, cycle, step, narrow),
        later.len() >= rows.len(),
        later.take(rows.len() as int) == consume(
            rows,
            before.id(),
            names_of(cycle.signal_ids@),
        ),
        exported(later, before.id(), limit, next),
        names_of(cycle.signal_ids@).contains(id),
    ensures
        !signal_ids(next).contains(id),
{
    let n = before.settings().batch_size;
    let batch = batch_of(signals, n);
    let consumed = consume(rows, before.id(), names_of(cycle.signal_ids@));
    the_start_of_an_export_is_an_export(rows, before.id(), signals, n);
    export_is_limited_and_of_the_model(rows, before.id(), Some(n), batch);
    lemma_batch_ids(batch);
    assert(names_of(cycle.signal_ids@) == batch_ids(batch).to_set());
    let k = choose|k: int| 0 <= k < batch.len() && (#[trigger] batch[k]).signal_id == Some(id);
    let i = choose|i: int|
        0 <= i < rows.len() && is_pending(#[trigger] rows[i], before.id()) && batch[k]
            == as_signal(rows[i]);
    assert(later[i] == later.take(rows.len() as int)[i]);
    assert(later[i].consumed && later[i].id == id);
    if signal_ids(next).contains(id) {
        export_is_limited_and_of_the_model(later, before.id(), limit, next);
        let l = choose|l: int| 0 <= l < next.len() && (#[trigger] next[l]).signal_id == Some(id);
        let j = choose|j: int|
            0 <= j < later.len() && is_pending(#[trigger] later[j], before.id()) && next[l]
                == as_signal(later[j]);
        assert(later[j].id == id);
        assert(i == j);
    }
}

/// A category without enough corrections keeps its weight, and so does one
/// that the model does not track.
pub proof fn only_due_categories_move<K: Fn(u64, u64, usize, usize) -> u64>(
    before: WeightsView,
    after: WeightsView,
    features: Map<Seq<char>, CategoryView>,
    min_corrections: usize,
    learning_rate: u64,
    step: K,
    category: Seq<char>,
)
    requires
        learned(before, after, features, min_corrections, learning_rate, step),
        !before.categories.contains(category) || !due(features, category, min_corrections),
    ensures
        (after.weight)(category) == (before.weight)(category),
{
}

/// Whatever holds of every result of a step, such as that it lies within
/// bounds, holds of every weight that a cycle moves.
pub proof fn moved_weights_are_results_of_steps<K: Fn(u64, u64, usize, usize) -> u64>(
    before: WeightsView,
    after: WeightsView,
    features: Map<Seq<char>, CategoryView>,
    min_corrections: usize,
    learning_rate: u64,
    step: K,
    category: Seq<char>,
    property: spec_fn(u64) -> bool,
)
    requires
        learned(before, after, features, min_corrections, learning_rate, step),
        forall|weight: u64, rate: u64, wrong: usize, total: usize, r: u64| #[trigger]
            call_ensures(step, (weight, rate, wrong, total), r) ==> property(r),
        before.categories.contains(category),
        due(features, category, min_corrections),
    ensures
        property((after.weight)(category)),
{
    assert(property((after.weight)(category)));
}

/// Whether the answers of `step` are fixed by what it is given, and a higher
/// correction rate never gives a higher weight, in the order `at_least`.
pub open spec fn falls_with_the_rate<K: Fn(u64, u64, usize, usize) -> u64>(
    step: K,
    learning_rate: u64,
    at_least: spec_fn(u64, u64) -> bool,
) -> bool {
    &&& forall|weight: u64, wrong: usize, total: usize, x: u64, y: u64|
        #[trigger] call_ensures(step, (weight, learning_rate, wrong, total), x)
            && #[trigger] call_ensures(step, (weight, learning_rate, wrong, total), y) ==> x == y
    &&& forall|
        weight: u64,
        few: usize,
        few_of: usize,
        many: usize,
        many_of: usize,
        x: u64,
        y: u64,
    |
        few_of > 0 && many_of > 0 && few * many_of <= many * few_of && #[trigger] call_ensures(
            step,
            (weight, learning_rate, few, few_of),
            x,
        ) && #[trigger] call_ensures(step, (weight, learning_rate, many, many_of), y) ==> at_least(
            x,
            y,
        )
}

/// With a step that falls with the correction rate, a higher correction rate of
/// one category never gives it a higher weight. The version, and the weights of
/// all other categories, are the same either way.
pub proof fn more_corrections_never_raise_a_weight<K: Fn(u64, u64, usize, usize) -> u64>(
    before: WeightsView,
    fewer: WeightsView,
    more: WeightsView,
    features_fewer: Map<Seq<char>, CategoryView>,
    features_more: Map<Seq<char>, CategoryView>,
    min_corrections: usize,
    learning_rate: u64,
    step: K,
    at_least: spec_fn(u64, u64) -> bool,
    category: Seq<char>,
    other: Seq<char>,
)
    requires
        learned(before, fewer, features_fewer, min_corrections, learning_rate, step),
        learned(before, more, features_more, min_corrections, learning_rate, step),
        falls_with_the_rate(step, learning_rate, at_least),
        before.categories.contains(category),
        due(features_fewer, category, min_corrections),
        due(features_more, category, min_corrections),
        features_fewer.remove(category) == features_more.remove(category),
        ({
            let (f, m) = (features_fewer[category], features_more[category]);
            &&& 0 < f.total <= usize::MAX && f.corrections <= usize::MAX
            &&& 0 < m.total <= usize::MAX && m.corrections <= usize::MAX
            &&& f.corrections * m.total <= m.corrections * f.total
        }),
    ensures
        at_least((fewer.weight)(category), (more.weight)(category)),
        fewer.version == more.version,
        other != category ==> (fewer.weight)(other) == (more.weight)(other),
{
    if other != category {
        assert(features_fewer.contains_key(other) == features_fewer.remove(category).contains_key(
            other,
        ));
        assert(features_more.contains_key(other) == features_more.remove(category).contains_key(
            other,
        ));
        assert(features_fewer.contains_key(other) ==> features_fewer[other]
            == features_fewer.remove(category)[other]);
        assert(features_more.contains_key(other) ==> features_more[other]
            == features_more.remove(category)[other]);
        assert(due(features_fewer, other, min_corrections) == due(
            features_more,
            other,
            min_corrections,
        ));
        assert((fewer.weight)(other) == (more.weight)(other));
    }
    assert(at_least((fewer.weight)(category), (more.weight)(category)));
}

} // verus!
