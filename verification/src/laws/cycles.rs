//! What a retrain cycle is for.

use vstd::prelude::*;

use super::artifacts::is_checksum_of;
use super::places::lemma_filter_counts;
use crate::config::ModelConfig;
use crate::model::{Failure, ModelBackend};
use crate::registry::{ModelRegistry, RegistryError};
use crate::retrain::artifact::{diagonal_matrix, diagonal_matrix_entry, RetrainArtifact};
use crate::retrain::config::RetrainConfig;
use crate::retrain::features::{batch_features, category_features, involves, mentioned};
use crate::retrain::laws::a_cycle_consumes_what_it_learned_from;
use crate::retrain::pipeline::{
    batch_ids, batch_of, reply_of, RetrainCycle, RetrainPipeline, RetrainReport, RetrainTools,
};
use crate::retrain::weights::{WeightModel, WeightsView};
use crate::signals::laws::signal_ids;
use crate::signals::{
    as_signal, export_places, has_grown, names_of, signals_view, SignalStore, SignalView,
    StoredSignal, TrainingSignal,
};

verus! {

/// The places of the rows of a model that are not consumed.
pub open spec fn waiting(rows: Seq<StoredSignal>, id: Seq<char>) -> Set<int> {
    Set::new(|j: int| 0 <= j < rows.len() && rows[j].model_id == id && !rows[j].consumed)
}

/// Whether `places` are the places of a batch: rows of the model that are not
/// consumed, each once, the oldest ones, and as many as there are, but no more
/// than the batch size.
pub open spec fn is_batch(
    rows: Seq<StoredSignal>,
    id: Seq<char>,
    batch_size: usize,
    places: Seq<int>,
) -> bool {
    &&& places.no_duplicates()
    &&& forall|k: int| 0 <= k < places.len() ==> waiting(rows, id).contains(#[trigger] places[k])
    &&& places.len() == if batch_size < waiting(rows, id).len() {
        batch_size as nat
    } else {
        waiting(rows, id).len()
    }
    &&& forall|k: int, j: int|
        0 <= k < places.len() && #[trigger] waiting(rows, id).contains(j) && !places.contains(j)
            ==> rows[#[trigger] places[k]].created_at <= rows[j].created_at
}

/// Whether the weight of `category` went from `before` to `after` as a number of
/// right and of wrong signals teaches it: one step where the model tracks the
/// category and enough signals were wrong about it, and no change otherwise.
pub open spec fn taught<K: Fn(u64, u64, usize, usize) -> u64>(
    before: WeightsView,
    after: WeightsView,
    right: nat,
    wrong: nat,
    config: RetrainConfig,
    step: K,
    category: Seq<char>,
) -> bool {
    let moves = before.categories.contains(category) && right + wrong > 0 && wrong
        >= config.min_corrections_for_update;
    &&& moves ==> call_ensures(
        step,
        (
            (before.weight)(category),
            config.learning_rate,
            wrong as usize,
            (right + wrong) as usize,
        ),
        (after.weight)(category),
    )
    &&& !moves ==> (after.weight)(category) == (before.weight)(category)
}

/// Whether `artifact` is that of `model`, which was made from `n` signals.
pub open spec fn shows<M: WeightModel, N: Fn(u64) -> u32>(
    artifact: RetrainArtifact,
    model: M,
    id: Seq<char>,
    n: nat,
    narrow: N,
) -> bool {
    let side = artifact.categories@.len();
    &&& artifact.model_id@ == id
    &&& artifact.version == model.weights().version
    &&& artifact.signals_consumed == n
    &&& call_ensures(M::categories, (&model,), artifact.categories)
    &&& artifact.weight_matrix@.len() == side * side
    &&& forall|i: int|
        0 <= i < side ==> call_ensures(
            narrow,
            ((model.weights().weight)((#[trigger] artifact.categories@[i])@),),
            artifact.weight_matrix@[i * side + i],
        )
    &&& forall|i: int, j: int|
        0 <= i < side && 0 <= j < side && i != j ==> #[trigger] artifact.weight_matrix@[i * side
            + j] == 0
    &&& is_checksum_of(artifact.checksum@, artifact.weight_matrix@)
    &&& artifact.created_at.seconds >= 0
    &&& artifact.created_at.nanos < 1_000_000_000
}

/// The artifact of a model shows it.
pub proof fn lemma_shows<M: WeightModel, N: Fn(u64) -> u32>(
    artifact: RetrainArtifact,
    model: M,
    id: Seq<char>,
    n: usize,
    narrow: N,
)
    requires
        crate::retrain::artifact::artifact_of(artifact, model.weights(), id, n, narrow),
        call_ensures(M::categories, (&model,), artifact.categories),
        artifact.created_at.seconds >= 0,
        artifact.created_at.nanos < 1_000_000_000,
    ensures
        shows(artifact, model, id, n as nat, narrow),
{
    super::artifacts::lemma_checksum(artifact.checksum@, artifact.weight_matrix@);
    let side = artifact.categories@.len();
    let diagonal = choose|diagonal: Seq<u32>|
        {
            &&& #[trigger] diagonal_matrix(diagonal) == artifact.weight_matrix@
            &&& diagonal.len() == side
            &&& forall|i: int|
                0 <= i < diagonal.len() ==> call_ensures(
                    narrow,
                    ((model.weights().weight)(artifact.categories@[i]@),),
                    #[trigger] diagonal[i],
                )
        };
    assert forall|i: int| 0 <= i < side implies call_ensures(
        narrow,
        ((model.weights().weight)((#[trigger] artifact.categories@[i])@),),
        artifact.weight_matrix@[i * side + i],
    ) by {
        diagonal_matrix_entry(diagonal, i, i);
        assert(call_ensures(
            narrow,
            ((model.weights().weight)(artifact.categories@[i]@),),
            diagonal[i],
        ));
    }
    assert forall|i: int, j: int|
        0 <= i < side && 0 <= j < side && i != j implies #[trigger] artifact.weight_matrix@[i
        * side + j] == 0 by {
        diagonal_matrix_entry(diagonal, i, j);
    }
}

/// What a batch teaches about a category follows from how many of its signals are
/// right and wrong about it.
pub proof fn lemma_taught<K: Fn(u64, u64, usize, usize) -> u64>(
    before: WeightsView,
    after: WeightsView,
    batch: Seq<SignalView>,
    config: RetrainConfig,
    step: K,
    category: Seq<char>,
)
    requires
        crate::retrain::weights::learned(
            before,
            after,
            batch_features(batch),
            config.min_corrections_for_update,
            config.learning_rate,
            step,
        ),
    ensures
        taught(
            before,
            after,
            Set::new(
                |k: int| 0 <= k < batch.len() && batch[k].corrected_label == category,
            ).len(),
            Set::new(
                |k: int|
                    0 <= k < batch.len() && batch[k].predicted_label == category
                        && batch[k].corrected_label != category,
            ).len(),
            config,
            step,
            category,
        ),
{
    let truth = |s: SignalView| s.corrected_label == category;
    let miss = |s: SignalView| s.predicted_label == category && s.corrected_label != category;
    let right = Set::new(|k: int| 0 <= k < batch.len() && batch[k].corrected_label == category);
    let wrong = Set::new(
        |k: int|
            0 <= k < batch.len() && batch[k].predicted_label == category
                && batch[k].corrected_label != category,
    );
    lemma_filter_counts(batch, truth);
    lemma_filter_counts(batch, miss);
    assert(Set::new(|k: int| 0 <= k < batch.len() && truth(batch[k])) =~= right);
    assert(Set::new(|k: int| 0 <= k < batch.len() && miss(batch[k])) =~= wrong);
    let f = category_features(batch, category);
    assert(f.correct == right.len() && f.corrections == wrong.len());
    assert(f.total == right.len() + wrong.len());
    assert(mentioned(batch, category) <==> right.len() + wrong.len() > 0) by {
        if mentioned(batch, category) {
            let k = choose|k: int| 0 <= k < batch.len() && involves(#[trigger] batch[k], category);
            if batch[k].corrected_label == category {
                assert(right.contains(k));
            } else {
                assert(wrong.contains(k));
            }
        } else {
            assert(right =~= Set::empty()) by {
                assert forall|k: int| !right.contains(k) by {
                    if right.contains(k) {
                        assert(involves(batch[k], category));
                    }
                }
            }
            assert(wrong =~= Set::empty()) by {
                assert forall|k: int| !wrong.contains(k) by {
                    if wrong.contains(k) {
                        assert(involves(batch[k], category));
                    }
                }
            }
        }
    }
    assert((after.weight)(category) == (after.weight)(category));
}

/// The names of a batch, where every signal has one.
pub proof fn lemma_names(batch: Seq<SignalView>)
    requires
        forall|k: int| 0 <= k < batch.len() ==> (#[trigger] batch[k]).signal_id is Some,
    ensures
        batch_ids(batch).len() == batch.len(),
        forall|k: int|
            0 <= k < batch.len() ==> #[trigger] batch_ids(batch)[k] == batch[k].signal_id->0,
    decreases batch.len(),
{
    if batch.len() > 0 {
        let rest = batch.drop_last();
        assert forall|k: int| 0 <= k < rest.len() implies (#[trigger] rest[k]).signal_id is Some by {
            assert(batch[k].signal_id is Some);
        }
        lemma_names(rest);
        assert(batch[batch.len() - 1].signal_id is Some);
    }
}

/// Whether a whole cycle took a pipeline from `before` to `after` and a store from
/// `store` to `store_after`, where the signals at `places` were the batch.
pub open spec fn went_through<
    M: WeightModel,
    S: SignalStore,
    B: ModelBackend,
    F: Fn(&ModelConfig, &str) -> Result<Option<B>, Failure>,
    K: Fn(u64, u64, usize, usize) -> u64,
    N: Fn(u64) -> u32,
    W: Fn(&RetrainArtifact) -> Result<String, Failure>,
    C: Fn() -> u128,
>(
    before: RetrainPipeline<M>,
    after: RetrainPipeline<M>,
    store: S,
    store_after: S,
    registry: Option<&ModelRegistry<B, F>>,
    tools: RetrainTools<K, N, W, C>,
    report: RetrainReport,
    places: Seq<int>,
) -> bool {
    let (rows, rows_after) = (store.rows(), store_after.rows());
    let (old_weights, new_weights) = (before.model().weights(), after.model().weights());
    let config = before.settings();
    let id = before.id();
    &&& is_batch(rows, id, config.batch_size, places)
    // The model has learned from the batch.
    &&& new_weights.version == old_weights.version + 1
    &&& new_weights.categories == old_weights.categories
    &&& forall|category: Seq<char>| #![trigger (new_weights.weight)(category)]
        taught(
            old_weights,
            new_weights,
            Set::new(
                |k: int| 0 <= k < places.len() && rows[places[k]].corrected_label == category,
            ).len(),
            Set::new(
                |k: int|
                    0 <= k < places.len() && rows[places[k]].predicted_label == category
                        && rows[places[k]].corrected_label != category,
            ).len(),
            config,
            tools.step,
            category,
        )
    // The artifact is that of the retrained model, and it was handed over to be saved.
    &&& after.artifact() is Some
    &&& shows(after.artifact()->0, after.model(), id, places.len(), tools.narrow)
    &&& report.result.artifact_path matches Some(path) ==> report.save_failure is None
        && call_ensures(tools.save, (&after.artifact()->0,), Ok(path))
    &&& report.result.artifact_path is None ==> report.save_failure is Some && call_ensures(
        tools.save,
        (&after.artifact()->0,),
        Err(report.save_failure->0),
    )
    // The batch, and nothing else, is consumed.
    &&& report.consume_failure is None ==> rows_after.len() == rows.len() && forall|j: int|
        0 <= j < rows.len() ==> {
            let row = #[trigger] rows_after[j];
            &&& row.consumed == (rows[j].consumed || places.contains(j))
            &&& row.id == rows[j].id
            &&& row.model_id == rows[j].model_id
            &&& row.input_text == rows[j].input_text
            &&& row.predicted_label == rows[j].predicted_label
            &&& row.corrected_label == rows[j].corrected_label
            &&& row.original_confidence == rows[j].original_confidence
            &&& row.created_at == rows[j].created_at
        }
    // The registry was told to reload the model from where the artifact was saved.
    &&& registry is None || report.result.artifact_path is None ==> report.reload_failure is None
    &&& registry is Some && report.result.artifact_path is Some ==> {
        let loaded = registry->0.loaded();
        &&& !loaded.contains_key(id) ==> (report.reload_failure matches Some(
            RegistryError::NotLoaded { model_id },
        ) && model_id@ == id)
        &&& loaded.contains_key(id) ==> exists|path: &str, reply: Result<(), Failure>|
            {
                &&& #[trigger] call_ensures(B::reload, (&loaded[id], path), reply)
                &&& path@ == report.result.artifact_path->0@
                &&& reply is Ok ==> report.reload_failure is None
                &&& reply matches Err(failure) ==> report.reload_failure == Some(
                    RegistryError::Backend(failure),
                )
            }
    }
    // The result tells of the cycle, and the cycle is over.
    &&& report.result.model_id@ == id
    &&& report.result.previous_version == old_weights.version
    &&& report.result.new_version == new_weights.version
    &&& report.result.signals_consumed == places.len()
    &&& exists|elapsed: u128| #[trigger]
        call_ensures(tools.elapsed_ms, (), elapsed) && report.result.duration_ms == elapsed as u64
    &&& after.last_result() == Some(report.result)
    &&& after.settings() == before.settings()
    &&& after.id() == before.id()
    &&& !after.in_cycle()
}

/// What a cycle comes to, written out.
#[verifier::spinoff_prover]
#[verifier::rlimit(60)]
proof fn lemma_went_through<
    M: WeightModel,
    S: SignalStore,
    B: ModelBackend,
    F: Fn(&ModelConfig, &str) -> Result<Option<B>, Failure>,
    K: Fn(u64, u64, usize, usize) -> u64,
    N: Fn(u64) -> u32,
    W: Fn(&RetrainArtifact) -> Result<String, Failure>,
    C: Fn() -> u128,
>(
    before: RetrainPipeline<M>,
    after: RetrainPipeline<M>,
    store: S,
    store_after: S,
    signals: Seq<SignalView>,
    registry: Option<&ModelRegistry<B, F>>,
    tools: RetrainTools<K, N, W, C>,
    report: RetrainReport,
) -> (places: Seq<int>)
    requires
        RetrainPipeline::cycled(
            before,
            after,
            store,
            store_after,
            signals,
            registry,
            tools,
            report,
        ),
    ensures
        went_through(before, after, store, store_after, registry, tools, report, places),
        batch_ids(batch_of(signals, before.settings().batch_size)).len() == places.len(),
        forall|k: int|
            0 <= k < places.len() ==> #[trigger] batch_ids(
                batch_of(signals, before.settings().batch_size),
            )[k] == store.rows()[places[k]].id,
{
    let rows = store.rows();
    let id = before.id();
    let config = before.settings();
    let cycle = choose|cycle: RetrainCycle<M>|
        {
            &&& #[trigger] before.learns(signals, cycle, tools.step, tools.narrow)
            &&& RetrainPipeline::completed(before, after, cycle, report.result)
            &&& before.handed_on(cycle, store, store_after, registry, tools, report)
        };
    let all = choose|places: Seq<int>|
        {
            &&& #[trigger] export_places(rows, id, None, places)
            &&& signals == places.map_values(|j: int| as_signal(rows[j]))
        };
    let batch = batch_of(signals, config.batch_size);
    let n = batch.len() as int;
    let places = all.take(n);
    assert(batch =~= places.map_values(|j: int| as_signal(rows[j])));
    lemma_batch_places(rows, id, config.batch_size, all, places);
    assert forall|category: Seq<char>| #![trigger (after.model().weights().weight)(category)] taught(
        before.model().weights(),
        after.model().weights(),
        Set::new(
            |k: int| 0 <= k < places.len() && rows[places[k]].corrected_label == category,
        ).len(),
        Set::new(
            |k: int|
                0 <= k < places.len() && rows[places[k]].predicted_label == category
                    && rows[places[k]].corrected_label != category,
        ).len(),
        config,
        tools.step,
        category,
    ) by {
        lemma_taught(
            before.model().weights(),
            after.model().weights(),
            batch,
            config,
            tools.step,
            category,
        );
        assert(Set::new(|k: int| 0 <= k < batch.len() && batch[k].corrected_label == category)
            =~= Set::new(
            |k: int| 0 <= k < places.len() && rows[places[k]].corrected_label == category,
        ));
        assert(Set::new(
            |k: int|
                0 <= k < batch.len() && batch[k].predicted_label == category
                    && batch[k].corrected_label != category,
        ) =~= Set::new(
            |k: int|
                0 <= k < places.len() && rows[places[k]].predicted_label == category
                    && rows[places[k]].corrected_label != category,
        ));
    }
    assert(cycle.batch_len == batch.len());
    lemma_shows(cycle.artifact, cycle.updated, id, batch.len() as usize, tools.narrow);
    assert forall|k: int| 0 <= k < batch.len() implies (#[trigger] batch[k]).signal_id is Some by {
        assert(batch[k] == as_signal(rows[places[k]]));
    }
    lemma_names(batch);
    assert forall|k: int| 0 <= k < places.len() implies #[trigger] batch_ids(batch)[k]
        == rows[places[k]].id by {
        assert(batch[k] == as_signal(rows[places[k]]));
    }
    assert(rows.take(rows.len() as int) =~= rows);
    assert(has_grown(rows, rows));
    a_cycle_consumes_what_it_learned_from(
        before,
        rows,
        signals,
        cycle,
        rows,
        tools.step,
        tools.narrow,
    );
    if report.consume_failure is None {
        lemma_consumed(rows, id, batch, places);
    }
    if registry is Some && report.result.artifact_path is Some {
        let path = report.result.artifact_path->0;
        let new_path = choose|new_path: &str|
            {
                &&& new_path@ == path@
                &&& #[trigger] registry->0.reloaded(id, new_path, reply_of(report.reload_failure))
            };
        let loaded = registry->0.loaded();
        if loaded.contains_key(id) {
            let reply = choose|reply: Result<(), Failure>|
                {
                    &&& #[trigger] call_ensures(B::reload, (&loaded[id], new_path), reply)
                    &&& reply_of(report.reload_failure) == match reply {
                        Ok(()) => Ok::<(), RegistryError>(()),
                        Err(failure) => Err(RegistryError::Backend(failure)),
                    }
                };
            assert(call_ensures(B::reload, (&loaded[id], new_path), reply));
        }
    }
    places
}

/// The start of an export is a batch.
proof fn lemma_batch_places(
    rows: Seq<StoredSignal>,
    id: Seq<char>,
    batch_size: usize,
    all: Seq<int>,
    places: Seq<int>,
)
    requires
        export_places(rows, id, None, all),
        places == all.take(
            if all.len() <= batch_size {
                all.len() as int
            } else {
                batch_size as int
            },
        ),
    ensures
        is_batch(rows, id, batch_size, places),
{
    let p = |row: StoredSignal| crate::signals::is_pending(row, id);
    lemma_filter_counts(rows, p);
    assert(Set::new(|j: int| 0 <= j < rows.len() && p(rows[j])) =~= waiting(rows, id));
    assert forall|k: int, j: int|
        0 <= k < places.len() && #[trigger] waiting(rows, id).contains(j) && !places.contains(
            j,
        ) implies rows[#[trigger] places[k]].created_at <= rows[j].created_at by {
        assert(places[k] == all[k]);
        if all.contains(j) {
            let l = choose|l: int| 0 <= l < all.len() && all[l] == j;
            if l < places.len() {
                assert(places[l] == j);
            }
        }
    }
}

/// Consuming a batch by its names marks its rows.
proof fn lemma_consumed(
    rows: Seq<StoredSignal>,
    id: Seq<char>,
    batch: Seq<SignalView>,
    places: Seq<int>,
)
    requires
        crate::signals::distinct_ids(rows),
        batch == places.map_values(|j: int| as_signal(rows[j])),
        forall|k: int| 0 <= k < places.len() ==> waiting(rows, id).contains(#[trigger] places[k]),
    ensures
        ({
            let after = crate::signals::consume(rows, id, signal_ids(batch));
            &&& after.len() == rows.len()
            &&& forall|j: int|
                0 <= j < rows.len() ==> {
                    let row = #[trigger] after[j];
                    &&& row.consumed == (rows[j].consumed || places.contains(j))
                    &&& row.id == rows[j].id
                    &&& row.model_id == rows[j].model_id
                    &&& row.input_text == rows[j].input_text
                    &&& row.predicted_label == rows[j].predicted_label
                    &&& row.corrected_label == rows[j].corrected_label
                    &&& row.original_confidence == rows[j].original_confidence
                    &&& row.created_at == rows[j].created_at
                }
        }),
{
    let after = crate::signals::consume(rows, id, signal_ids(batch));
    assert forall|j: int| 0 <= j < rows.len() implies (#[trigger] after[j]).consumed == (
    rows[j].consumed || places.contains(j)) by {
        if signal_ids(batch).contains(rows[j].id) {
            let k = choose|k: int|
                0 <= k < batch.len() && (#[trigger] batch[k]).signal_id == Some(rows[j].id);
            assert(batch[k] == as_signal(rows[places[k]]));
            assert(waiting(rows, id).contains(places[k]));
            assert(places[k] == j);
        }
        if places.contains(j) {
            let k = choose|k: int| 0 <= k < places.len() && places[k] == j;
            assert(waiting(rows, id).contains(places[k]));
            assert(batch[k] == as_signal(rows[places[k]]));
            assert(batch[k].signal_id == Some(rows[j].id));
        }
    }
}

/// A retrain cycle does what it is for: the model learns from the oldest waiting
/// signals, as many as a batch holds; the artifact that is kept and handed over to
/// be saved is that of the retrained model; the signals it learned from, and no
/// others, are consumed; and the registry is told to reload the model from where
/// the artifact was saved.
pub proof fn a_cycle_goes_through<
    M: WeightModel,
    S: SignalStore,
    B: ModelBackend,
    F: Fn(&ModelConfig, &str) -> Result<Option<B>, Failure>,
    K: Fn(u64, u64, usize, usize) -> u64,
    N: Fn(u64) -> u32,
    W: Fn(&RetrainArtifact) -> Result<String, Failure>,
    C: Fn() -> u128,
>(
    pipeline: &mut RetrainPipeline<M>,
    store: &mut S,
    registry: Option<&ModelRegistry<B, F>>,
    tools: &RetrainTools<K, N, W, C>,
    report: RetrainReport,
)
    requires
        call_ensures(
            RetrainPipeline::<M>::run_retrain::<S, B, F, K, N, W, C>,
            (pipeline, store, registry, tools),
            Ok(report),
        ),
    ensures
        exists|places: Seq<int>| #[trigger]
            went_through(
                *old(pipeline),
                *final(pipeline),
                *old(store),
                *final(store),
                registry,
                *tools,
                report,
                places,
            ),
{
    let (asked, reply) = choose|model_id: &str, reply: Result<Vec<TrainingSignal>, Failure>|
        {
            &&& model_id@ == old(pipeline).id()
            &&& #[trigger] call_ensures(
                S::export_pending,
                (&*old(store), model_id, None),
                reply,
            )
            &&& reply is Ok
            &&& reply->Ok_0@.len() > 0
            &&& RetrainPipeline::cycled(
                *old(pipeline),
                *final(pipeline),
                *old(store),
                *final(store),
                signals_view(reply->Ok_0@),
                registry,
                *tools,
                report,
            )
        };
    let places = lemma_went_through(
        *old(pipeline),
        *final(pipeline),
        *old(store),
        *final(store),
        signals_view(reply->Ok_0@),
        registry,
        *tools,
        report,
    );
}

/// What a cycle leaves to be seen: the current model is one version further, and
/// the latest artifact holds, for each of its categories, the weight that the
/// current model gives that category, brought to single precision.
pub proof fn the_latest_artifact_is_that_of_the_current_model<
    M: WeightModel,
    S: SignalStore,
    B: ModelBackend,
    F: Fn(&ModelConfig, &str) -> Result<Option<B>, Failure>,
    K: Fn(u64, u64, usize, usize) -> u64,
    N: Fn(u64) -> u32,
    W: Fn(&RetrainArtifact) -> Result<String, Failure>,
    C: Fn() -> u128,
>(
    pipeline: &mut RetrainPipeline<M>,
    store: &mut S,
    registry: Option<&ModelRegistry<B, F>>,
    tools: &RetrainTools<K, N, W, C>,
    report: RetrainReport,
    shown: Option<RetrainArtifact>,
    model: M,
    i: int,
)
    requires
        call_ensures(
            RetrainPipeline::<M>::run_retrain::<S, B, F, K, N, W, C>,
            (pipeline, store, registry, tools),
            Ok(report),
        ),
        call_ensures(RetrainPipeline::<M>::latest_artifact, (&*final(pipeline),), shown),
        call_ensures(RetrainPipeline::<M>::current_model, (&*final(pipeline),), model),
    ensures
        model.weights().version == old(pipeline).model().weights().version + 1,
        shown is Some,
        shown->0.version == model.weights().version,
        ({
            let artifact = shown->0;
            let side = artifact.categories@.len();
            &&& artifact.weight_matrix@.len() == side * side
            &&& 0 <= i < side ==> call_ensures(
                tools.narrow,
                ((model.weights().weight)(artifact.categories@[i]@),),
                artifact.weight_matrix@[i * side + i],
            )
        }),
{
    a_cycle_goes_through(pipeline, store, registry, tools, report);
    let places = choose|places: Seq<int>| #[trigger]
        went_through(
            *old(pipeline),
            *final(pipeline),
            *old(store),
            *final(store),
            registry,
            *tools,
            report,
            places,
        );
    let kept = final(pipeline).artifact()->0;
    let artifact = shown->0;
    assert(artifact@ == kept@);
    assert(artifact@.categories.len() == kept@.categories.len());
    let side = artifact.categories@.len();
    if 0 <= i < side {
        assert(artifact@.categories[i] == kept@.categories[i]);
        let category = kept.categories@[i]@;
        assert((final(pipeline).model().weights().weight)(category) == (model.weights().weight)(
            category,
        ));
    }
}

/// A cycle that does not go through says why, leaves everything as it was, and
/// has only these two reasons: the store could not export, or nothing waits.
pub proof fn a_cycle_without_signals_changes_nothing<
    M: WeightModel,
    S: SignalStore,
    B: ModelBackend,
    F: Fn(&ModelConfig, &str) -> Result<Option<B>, Failure>,
    K: Fn(u64, u64, usize, usize) -> u64,
    N: Fn(u64) -> u32,
    W: Fn(&RetrainArtifact) -> Result<String, Failure>,
    C: Fn() -> u128,
>(
    pipeline: &mut RetrainPipeline<M>,
    store: &mut S,
    registry: Option<&ModelRegistry<B, F>>,
    tools: &RetrainTools<K, N, W, C>,
    r: Result<RetrainReport, String>,
)
    requires
        call_ensures(
            RetrainPipeline::<M>::run_retrain::<S, B, F, K, N, W, C>,
            (pipeline, store, registry, tools),
            r,
        ),
    ensures
        !final(pipeline).in_cycle(),
        r is Ok ==> waiting(old(store).rows(), old(pipeline).id()).len() > 0,
        r matches Err(text) ==> {
            &&& *final(store) == *old(store)
            &&& final(pipeline).model() == old(pipeline).model()
            &&& final(pipeline).artifact() == old(pipeline).artifact()
            &&& final(pipeline).last_result() == old(pipeline).last_result()
            &&& final(pipeline).settings() == old(pipeline).settings()
            &&& final(pipeline).id() == old(pipeline).id()
            &&& {
                ||| text@ == "no pending signals"@ && waiting(
                    old(store).rows(),
                    old(pipeline).id(),
                ).len() == 0
                ||| exists|asked: &str, failure: Failure|
                    {
                        &&& #[trigger] call_ensures(
                            S::export_pending,
                            (&*old(store), asked, None),
                            Err(failure),
                        )
                        &&& asked@ == old(pipeline).id()
                        &&& text@ == "failed to export signals: "@ + failure.message@
                    }
            }
        },
{
    let rows = old(store).rows();
    let id = old(pipeline).id();
    let (asked, reply) = choose|model_id: &str, reply: Result<Vec<TrainingSignal>, Failure>|
        {
            &&& model_id@ == old(pipeline).id()
            &&& #[trigger] call_ensures(
                S::export_pending,
                (&*old(store), model_id, None),
                reply,
            )
            &&& reply is Err ==> {
                &&& r is Err
                &&& r->Err_0@ == "failed to export signals: "@ + reply->Err_0.message@
            }
            &&& reply is Ok && reply->Ok_0@.len() == 0 ==> {
                &&& r is Err
                &&& r->Err_0@ == "no pending signals"@
            }
            &&& reply is Ok && reply->Ok_0@.len() > 0 ==> r is Ok
        };
    if reply is Ok {
        let signals = signals_view(reply->Ok_0@);
        crate::signals::laws::export_is_limited_and_of_the_model(rows, id, None, signals);
        let p = |row: StoredSignal| crate::signals::is_pending(row, id);
        lemma_filter_counts(rows, p);
        assert(Set::new(|j: int| 0 <= j < rows.len() && p(rows[j])) =~= waiting(rows, id));
    } else {
        let failure = reply->Err_0;
        assert(call_ensures(S::export_pending, (&*old(store), asked, None), Err(failure)));
    }
}

/// The store is told of the batch, by the names of its rows in order, and its
/// answer is the one that the report gives.
pub proof fn the_store_is_told_of_the_batch<
    M: WeightModel,
    S: SignalStore,
    B: ModelBackend,
    F: Fn(&ModelConfig, &str) -> Result<Option<B>, Failure>,
    K: Fn(u64, u64, usize, usize) -> u64,
    N: Fn(u64) -> u32,
    W: Fn(&RetrainArtifact) -> Result<String, Failure>,
    C: Fn() -> u128,
>(
    pipeline: &mut RetrainPipeline<M>,
    store: &mut S,
    registry: Option<&ModelRegistry<B, F>>,
    tools: &RetrainTools<K, N, W, C>,
    report: RetrainReport,
)
    requires
        call_ensures(
            RetrainPipeline::<M>::run_retrain::<S, B, F, K, N, W, C>,
            (pipeline, store, registry, tools),
            Ok(report),
        ),
    ensures
        exists|
            told: &mut S,
            id: &str,
            ids: &Vec<String>,
            answer: Result<(), Failure>,
            places: Seq<int>,
        |
            {
                &&& #[trigger] is_batch(
                    old(store).rows(),
                    old(pipeline).id(),
                    old(pipeline).settings().batch_size,
                    places,
                )
                &&& #[trigger] call_ensures(S::mark_consumed, (told, id, ids), answer)
                &&& answer is Ok ==> report.consume_failure is None
                &&& answer matches Err(failure) ==> report.consume_failure == Some(failure)
                &&& *told == *old(store)
                &&& *final(told) == *final(store)
                &&& id@ == old(pipeline).id()
                &&& ids@.len() == places.len()
                &&& forall|k: int|
                    0 <= k < places.len() ==> (#[trigger] ids@[k])@ == old(
                        store,
                    ).rows()[places[k]].id
            },
{
    let (asked, reply, told, id, ids) = choose|
        model_id: &str,
        reply: Result<Vec<TrainingSignal>, Failure>,
        told: &mut S,
        id: &str,
        ids: &Vec<String>,
    |
        {
            &&& model_id@ == old(pipeline).id()
            &&& #[trigger] call_ensures(
                S::export_pending,
                (&*old(store), model_id, None),
                reply,
            )
            &&& reply is Ok
            &&& reply->Ok_0@.len() > 0
            &&& RetrainPipeline::cycled(
                *old(pipeline),
                *final(pipeline),
                *old(store),
                *final(store),
                signals_view(reply->Ok_0@),
                registry,
                *tools,
                report,
            )
            &&& #[trigger] call_ensures(
                S::mark_consumed,
                (told, id, ids),
                reply_of(report.consume_failure),
            )
            &&& *told == *old(store)
            &&& *final(told) == *final(store)
            &&& id@ == old(pipeline).id()
            &&& ids@.map_values(|id: String| id@) == batch_ids(
                batch_of(signals_view(reply->Ok_0@), old(pipeline).settings().batch_size),
            )
        };
    let places = lemma_went_through(
        *old(pipeline),
        *final(pipeline),
        *old(store),
        *final(store),
        signals_view(reply->Ok_0@),
        registry,
        *tools,
        report,
    );
    let views = ids@.map_values(|id: String| id@);
    assert(ids@.len() == views.len());
    assert forall|k: int| 0 <= k < places.len() implies (#[trigger] ids@[k])@ == old(
        store,
    ).rows()[places[k]].id by {
        assert(views[k] == ids@[k]@);
    }
    assert(is_batch(
        old(store).rows(),
        old(pipeline).id(),
        old(pipeline).settings().batch_size,
        places,
    ));
}

/// The same of a cycle of the background loop.
pub proof fn the_store_is_told_of_a_background_batch<
    M: WeightModel,
    S: SignalStore,
    B: ModelBackend,
    F: Fn(&ModelConfig, &str) -> Result<Option<B>, Failure>,
    K: Fn(u64, u64, usize, usize) -> u64,
    N: Fn(u64) -> u32,
    W: Fn(&RetrainArtifact) -> Result<String, Failure>,
    C: Fn() -> u128,
>(
    pipeline: &mut RetrainPipeline<M>,
    store: &mut S,
    registry: Option<&ModelRegistry<B, F>>,
    tools: &RetrainTools<K, N, W, C>,
    report: RetrainReport,
)
    requires
        call_ensures(
            RetrainPipeline::<M>::run_background::<S, B, F, K, N, W, C>,
            (pipeline, store, registry, tools),
            Some(report),
        ),
    ensures
        exists|
            told: &mut S,
            id: &str,
            ids: &Vec<String>,
            answer: Result<(), Failure>,
            places: Seq<int>,
        |
            {
                &&& #[trigger] is_batch(
                    old(store).rows(),
                    old(pipeline).id(),
                    old(pipeline).settings().batch_size,
                    places,
                )
                &&& #[trigger] call_ensures(S::mark_consumed, (told, id, ids), answer)
                &&& answer is Ok ==> report.consume_failure is None
                &&& answer matches Err(failure) ==> report.consume_failure == Some(failure)
                &&& *told == *old(store)
                &&& *final(told) == *final(store)
                &&& id@ == old(pipeline).id()
                &&& ids@.len() == places.len()
                &&& forall|k: int|
                    0 <= k < places.len() ==> (#[trigger] ids@[k])@ == old(
                        store,
                    ).rows()[places[k]].id
            },
{
    let (asked, reply, told, id, ids) = choose|
        model_id: &str,
        reply: Result<Vec<TrainingSignal>, Failure>,
        told: &mut S,
        id: &str,
        ids: &Vec<String>,
    |
        {
            &&& model_id@ == old(pipeline).id()
            &&& #[trigger] call_ensures(
                S::export_pending,
                (&*old(store), model_id, None),
                reply,
            )
            &&& reply is Ok
            &&& reply->Ok_0@.len() > 0
            &&& RetrainPipeline::cycled(
                *old(pipeline),
                *final(pipeline),
                *old(store),
                *final(store),
                signals_view(reply->Ok_0@),
                registry,
                *tools,
                report,
            )
            &&& #[trigger] call_ensures(
                S::mark_consumed,
                (told, id, ids),
                reply_of(report.consume_failure),
            )
            &&& *told == *old(store)
            &&& *final(told) == *final(store)
            &&& id@ == old(pipeline).id()
            &&& ids@.map_values(|id: String| id@) == batch_ids(
                batch_of(signals_view(reply->Ok_0@), old(pipeline).settings().batch_size),
            )
        };
    let places = lemma_went_through(
        *old(pipeline),
        *final(pipeline),
        *old(store),
        *final(store),
        signals_view(reply->Ok_0@),
        registry,
        *tools,
        report,
    );
    let views = ids@.map_values(|id: String| id@);
    assert(ids@.len() == views.len());
    assert forall|k: int| 0 <= k < places.len() implies (#[trigger] ids@[k])@ == old(
        store,
    ).rows()[places[k]].id by {
        assert(views[k] == ids@[k]@);
    }
    assert(is_batch(
        old(store).rows(),
        old(pipeline).id(),
        old(pipeline).settings().batch_size,
        places,
    ));
}

/// The same of a pass of the background loop.
pub proof fn the_store_is_told_of_the_batch_of_a_pass<
    M: WeightModel,
    S: SignalStore,
    B: ModelBackend,
    F: Fn(&ModelConfig, &str) -> Result<Option<B>, Failure>,
    K: Fn(u64, u64, usize, usize) -> u64,
    N: Fn(u64) -> u32,
    W: Fn(&RetrainArtifact) -> Result<String, Failure>,
    C: Fn() -> u128,
>(
    pipeline: &mut RetrainPipeline<M>,
    store: &mut S,
    registry: Option<&ModelRegistry<B, F>>,
    tools: &RetrainTools<K, N, W, C>,
    report: RetrainReport,
)
    requires
        call_ensures(
            RetrainPipeline::<M>::background_pass::<S, B, F, K, N, W, C>,
            (pipeline, store, registry, tools),
            Some(report),
        ),
    ensures
        exists|
            told: &mut S,
            id: &str,
            ids: &Vec<String>,
            answer: Result<(), Failure>,
            places: Seq<int>,
        |
            {
                &&& #[trigger] is_batch(
                    old(store).rows(),
                    old(pipeline).id(),
                    old(pipeline).settings().batch_size,
                    places,
                )
                &&& #[trigger] call_ensures(S::mark_consumed, (told, id, ids), answer)
                &&& answer is Ok ==> report.consume_failure is None
                &&& answer matches Err(failure) ==> report.consume_failure == Some(failure)
                &&& *told == *old(store)
                &&& *final(told) == *final(store)
                &&& id@ == old(pipeline).id()
                &&& ids@.len() == places.len()
                &&& forall|k: int|
                    0 <= k < places.len() ==> (#[trigger] ids@[k])@ == old(
                        store,
                    ).rows()[places[k]].id
            },
{
    let (asked, reply, told, id, ids) = choose|
        model_id: &str,
        reply: Result<Vec<TrainingSignal>, Failure>,
        told: &mut S,
        id: &str,
        ids: &Vec<String>,
    |
        {
            &&& model_id@ == old(pipeline).id()
            &&& #[trigger] call_ensures(
                S::export_pending,
                (&*old(store), model_id, None),
                reply,
            )
            &&& reply is Ok
            &&& reply->Ok_0@.len() > 0
            &&& RetrainPipeline::cycled(
                *old(pipeline),
                *final(pipeline),
                *old(store),
                *final(store),
                signals_view(reply->Ok_0@),
                registry,
                *tools,
                report,
            )
            &&& #[trigger] call_ensures(
                S::mark_consumed,
                (told, id, ids),
                reply_of(report.consume_failure),
            )
            &&& *told == *old(store)
            &&& *final(told) == *final(store)
            &&& id@ == old(pipeline).id()
            &&& ids@.map_values(|id: String| id@) == batch_ids(
                batch_of(signals_view(reply->Ok_0@), old(pipeline).settings().batch_size),
            )
        };
    let places = lemma_went_through(
        *old(pipeline),
        *final(pipeline),
        *old(store),
        *final(store),
        signals_view(reply->Ok_0@),
        registry,
        *tools,
        report,
    );
    let views = ids@.map_values(|id: String| id@);
    assert(ids@.len() == views.len());
    assert forall|k: int| 0 <= k < places.len() implies (#[trigger] ids@[k])@ == old(
        store,
    ).rows()[places[k]].id by {
        assert(views[k] == ids@[k]@);
    }
    assert(is_batch(
        old(store).rows(),
        old(pipeline).id(),
        old(pipeline).settings().batch_size,
        places,
    ));
}

/// The cycle of a background loop goes through in the same way, where there are
/// signals to learn from and a batch may hold any. Otherwise nothing happens.
pub proof fn a_background_cycle_goes_through<
    M: WeightModel,
    S: SignalStore,
    B: ModelBackend,
    F: Fn(&ModelConfig, &str) -> Result<Option<B>, Failure>,
    K: Fn(u64, u64, usize, usize) -> u64,
    N: Fn(u64) -> u32,
    W: Fn(&RetrainArtifact) -> Result<String, Failure>,
    C: Fn() -> u128,
>(
    pipeline: &mut RetrainPipeline<M>,
    store: &mut S,
    registry: Option<&ModelRegistry<B, F>>,
    tools: &RetrainTools<K, N, W, C>,
    r: Option<RetrainReport>,
)
    requires
        call_ensures(
            RetrainPipeline::<M>::run_background::<S, B, F, K, N, W, C>,
            (pipeline, store, registry, tools),
            r,
        ),
    ensures
        !final(pipeline).in_cycle(),
        r matches Some(report) ==> exists|places: Seq<int>| #[trigger]
            went_through(
                *old(pipeline),
                *final(pipeline),
                *old(store),
                *final(store),
                registry,
                *tools,
                report,
                places,
            ) && places.len() > 0,
        r is None ==> {
            &&& *final(store) == *old(store)
            &&& final(pipeline).model() == old(pipeline).model()
            &&& final(pipeline).artifact() == old(pipeline).artifact()
            &&& final(pipeline).last_result() == old(pipeline).last_result()
            &&& {
                ||| old(pipeline).settings().batch_size == 0
                ||| waiting(old(store).rows(), old(pipeline).id()).len() == 0
                ||| exists|asked: &str, failure: Failure| #[trigger]
                    call_ensures(S::export_pending, (&*old(store), asked, None), Err(failure))
                        && asked@ == old(pipeline).id()
            }
        },
{
    let rows = old(store).rows();
    let id = old(pipeline).id();
    let (asked, reply) = choose|model_id: &str, reply: Result<Vec<TrainingSignal>, Failure>|
        {
            let runs = reply is Ok && reply->Ok_0@.len() > 0 && old(
                pipeline,
            ).settings().batch_size > 0;
            &&& model_id@ == old(pipeline).id()
            &&& #[trigger] call_ensures(
                S::export_pending,
                (&*old(store), model_id, None),
                reply,
            )
            &&& runs ==> r is Some && RetrainPipeline::cycled(
                *old(pipeline),
                *final(pipeline),
                *old(store),
                *final(store),
                signals_view(reply->Ok_0@),
                registry,
                *tools,
                r->0,
            )
            &&& !runs ==> r is None
        };
    let p = |row: StoredSignal| crate::signals::is_pending(row, id);
    lemma_filter_counts(rows, p);
    assert(Set::new(|j: int| 0 <= j < rows.len() && p(rows[j])) =~= waiting(rows, id));
    if reply is Ok {
        let signals = signals_view(reply->Ok_0@);
        crate::signals::laws::export_is_limited_and_of_the_model(rows, id, None, signals);
        if r is Some {
            let places = lemma_went_through(
                *old(pipeline),
                *final(pipeline),
                *old(store),
                *final(store),
                signals,
                registry,
                *tools,
                r->0,
            );
        }
    } else {
        assert(call_ensures(
            S::export_pending,
            (&*old(store), asked, None),
            Err(reply->Err_0),
        ));
    }
}

/// A pass of the background loop runs a cycle exactly where the store counts at
/// least as many waiting signals as the threshold. Otherwise nothing happens.
pub proof fn a_background_pass_waits_for_the_threshold<
    M: WeightModel,
    S: SignalStore,
    B: ModelBackend,
    F: Fn(&ModelConfig, &str) -> Result<Option<B>, Failure>,
    K: Fn(u64, u64, usize, usize) -> u64,
    N: Fn(u64) -> u32,
    W: Fn(&RetrainArtifact) -> Result<String, Failure>,
    C: Fn() -> u128,
>(
    pipeline: &mut RetrainPipeline<M>,
    store: &mut S,
    registry: Option<&ModelRegistry<B, F>>,
    tools: &RetrainTools<K, N, W, C>,
    r: Option<RetrainReport>,
)
    requires
        call_ensures(
            RetrainPipeline::<M>::background_pass::<S, B, F, K, N, W, C>,
            (pipeline, store, registry, tools),
            r,
        ),
    ensures
        r matches Some(report) ==> {
            &&& waiting(old(store).rows(), old(pipeline).id()).len() >= old(
                pipeline,
            ).settings().signal_threshold
            &&& exists|places: Seq<int>| #[trigger]
                went_through(
                    *old(pipeline),
                    *final(pipeline),
                    *old(store),
                    *final(store),
                    registry,
                    *tools,
                    report,
                    places,
                ) && places.len() > 0
        },
        r is None ==> {
            &&& *final(store) == *old(store)
            &&& final(pipeline).model() == old(pipeline).model()
            &&& final(pipeline).artifact() == old(pipeline).artifact()
            &&& final(pipeline).last_result() == old(pipeline).last_result()
            &&& {
                ||| old(pipeline).settings().batch_size == 0
                ||| waiting(old(store).rows(), old(pipeline).id()).len() == 0
                ||| waiting(old(store).rows(), old(pipeline).id()).len() < old(
                    pipeline,
                ).settings().signal_threshold
                ||| exists|asked: &str, failure: Failure| #[trigger]
                    call_ensures(S::count_pending, (&*old(store), asked), Err(failure)) && asked@
                        == old(pipeline).id()
                ||| exists|asked: &str, failure: Failure| #[trigger]
                    call_ensures(S::export_pending, (&*old(store), asked, None), Err(failure))
                        && asked@ == old(pipeline).id()
            }
        },
        old(pipeline).in_cycle() || !final(pipeline).in_cycle(),
{
    let rows = old(store).rows();
    let id = old(pipeline).id();
    let threshold = old(pipeline).settings().signal_threshold;
    let p = |row: StoredSignal| crate::signals::is_pending(row, id);
    lemma_filter_counts(rows, p);
    assert(Set::new(|j: int| 0 <= j < rows.len() && p(rows[j])) =~= waiting(rows, id));
    let (asked, counted) = choose|asked: &str, counted: Result<usize, Failure>|
        {
            let enough = counted is Ok && counted->Ok_0 >= threshold;
            &&& asked@ == id
            &&& #[trigger] call_ensures(S::count_pending, (&*old(store), asked), counted)
            &&& !enough ==> r is None
            &&& enough ==> exists|model_id: &str, reply: Result<Vec<TrainingSignal>, Failure>|
                {
                    let runs = reply is Ok && reply->Ok_0@.len() > 0 && old(
                        pipeline,
                    ).settings().batch_size > 0;
                    &&& model_id@ == id
                    &&& #[trigger] call_ensures(
                        S::export_pending,
                        (&*old(store), model_id, None),
                        reply,
                    )
                    &&& runs ==> r is Some && RetrainPipeline::cycled(
                        *old(pipeline),
                        *final(pipeline),
                        *old(store),
                        *final(store),
                        signals_view(reply->Ok_0@),
                        registry,
                        *tools,
                        r->0,
                    )
                    &&& !runs ==> r is None
                }
        };
    if counted is Ok && counted->Ok_0 >= threshold {
        let (model_id, reply) = choose|
            model_id: &str,
            reply: Result<Vec<TrainingSignal>, Failure>,
        |
            {
                let runs = reply is Ok && reply->Ok_0@.len() > 0 && old(
                    pipeline,
                ).settings().batch_size > 0;
                &&& model_id@ == id
                &&& #[trigger] call_ensures(
                    S::export_pending,
                    (&*old(store), model_id, None),
                    reply,
                )
                &&& runs ==> r is Some && RetrainPipeline::cycled(
                    *old(pipeline),
                    *final(pipeline),
                    *old(store),
                    *final(store),
                    signals_view(reply->Ok_0@),
                    registry,
                    *tools,
                    r->0,
                )
                &&& !runs ==> r is None
            };
        if reply is Ok {
            let signals = signals_view(reply->Ok_0@);
            crate::signals::laws::export_is_limited_and_of_the_model(rows, id, None, signals);
            if r is Some {
                let places = lemma_went_through(
                    *old(pipeline),
                    *final(pipeline),
                    *old(store),
                    *final(store),
                    signals,
                    registry,
                    *tools,
                    r->0,
                );
            }
        } else {
            assert(call_ensures(
                S::export_pending,
                (&*old(store), model_id, None),
                Err(reply->Err_0),
            ));
        }
    } else if counted is Err {
        assert(call_ensures(S::count_pending, (&*old(store), asked), Err(counted->Err_0)));
    }
}

} // verus!
