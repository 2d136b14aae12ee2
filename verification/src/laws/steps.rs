//! What the steps of a cycle are for.

use vstd::prelude::*;

use super::cycles::{lemma_names, lemma_shows, lemma_taught, shows, taught};
use crate::model::Failure;
use crate::retrain::artifact::RetrainArtifact;
use crate::retrain::config::RetrainConfig;
use crate::retrain::pipeline::{
    batch_of, BackgroundStep, CycleTally, RetrainCycle, RetrainPipeline,
};
use crate::retrain::status::{RetrainResult, RetrainStatus};
use crate::retrain::weights::WeightModel;
use crate::signals::{signals_view, TrainingSignal};

verus! {

/// Whether `cycle` is what the first `n` of the exported signals make of a
/// pipeline's model.
pub open spec fn makes<
    M: WeightModel,
    K: Fn(u64, u64, usize, usize) -> u64,
    N: Fn(u64) -> u32,
>(
    pipeline: RetrainPipeline<M>,
    signals: Seq<TrainingSignal>,
    n: int,
    cycle: RetrainCycle<M>,
    step: K,
    narrow: N,
) -> bool {
    let (before, after) = (pipeline.model().weights(), cycle.updated.weights());
    &&& cycle.batch_len == n
    &&& cycle.previous_version == before.version
    &&& after.version == before.version + 1
    &&& after.categories == before.categories
    &&& forall|category: Seq<char>| #![trigger (after.weight)(category)]
        taught(
            before,
            after,
            Set::new(|k: int| 0 <= k < n && signals[k].corrected_label@ == category).len(),
            Set::new(
                |k: int|
                    0 <= k < n && signals[k].predicted_label@ == category
                        && signals[k].corrected_label@ != category,
            ).len(),
            pipeline.settings(),
            step,
            category,
        )
    &&& shows(cycle.artifact, cycle.updated, pipeline.id(), n as nat, narrow)
    &&& (forall|k: int| 0 <= k < n ==> (#[trigger] signals[k]).signal_id is Some)
        ==> cycle.signal_ids@.len() == n && forall|k: int|
        0 <= k < n ==> (#[trigger] cycle.signal_ids@[k])@ == signals[k].signal_id->0@
}

/// What signals make of a model, written out.
proof fn lemma_makes<M: WeightModel, K: Fn(u64, u64, usize, usize) -> u64, N: Fn(u64) -> u32>(
    pipeline: RetrainPipeline<M>,
    signals: Seq<TrainingSignal>,
    n: int,
    cycle: RetrainCycle<M>,
    step: K,
    narrow: N,
)
    requires
        pipeline.learns(signals_view(signals), cycle, step, narrow),
        n == if signals.len() <= pipeline.settings().batch_size {
            signals.len() as int
        } else {
            pipeline.settings().batch_size as int
        },
    ensures
        makes(pipeline, signals, n, cycle, step, narrow),
{
    let (before, after) = (pipeline.model().weights(), cycle.updated.weights());
    let config = pipeline.settings();
    let batch = batch_of(signals_view(signals), config.batch_size);
    assert(batch.len() == n);
    assert forall|k: int| 0 <= k < n implies #[trigger] batch[k] == signals[k]@ by {
    }
    assert forall|category: Seq<char>| #![trigger (after.weight)(category)] taught(
        before,
        after,
        Set::new(|k: int| 0 <= k < n && signals[k].corrected_label@ == category).len(),
        Set::new(
            |k: int|
                0 <= k < n && signals[k].predicted_label@ == category
                    && signals[k].corrected_label@ != category,
        ).len(),
        config,
        step,
        category,
    ) by {
        lemma_taught(before, after, batch, config, step, category);
        assert(Set::new(|k: int| 0 <= k < batch.len() && batch[k].corrected_label == category)
            =~= Set::new(|k: int| 0 <= k < n && signals[k].corrected_label@ == category));
        assert(Set::new(
            |k: int|
                0 <= k < batch.len() && batch[k].predicted_label == category
                    && batch[k].corrected_label != category,
        ) =~= Set::new(
            |k: int|
                0 <= k < n && signals[k].predicted_label@ == category
                    && signals[k].corrected_label@ != category,
        ));
    }
    lemma_shows(cycle.artifact, cycle.updated, pipeline.id(), batch.len() as usize, narrow);
    if forall|k: int| 0 <= k < n ==> (#[trigger] signals[k]).signal_id is Some {
        assert forall|k: int| 0 <= k < batch.len() implies (
        #[trigger] batch[k]).signal_id is Some by {
            assert(batch[k] == signals[k]@);
        }
        lemma_names(batch);
        let views = cycle.signal_ids@.map_values(|id: String| id@);
        assert(views.len() == cycle.signal_ids@.len());
        assert forall|k: int| 0 <= k < n implies (#[trigger] cycle.signal_ids@[k])@
            == signals[k].signal_id->0@ by {
            assert(views[k] == cycle.signal_ids@[k]@);
            assert(batch[k] == signals[k]@);
        }
    }
}

/// An export makes a cycle of its first signals, up to a batch. A failed or empty
/// export ends the cycle, and says why. The pipeline stays as it is either way.
pub proof fn an_export_makes_a_cycle<
    M: WeightModel,
    K: Fn(u64, u64, usize, usize) -> u64,
    N: Fn(u64) -> u32,
>(
    pipeline: &mut RetrainPipeline<M>,
    exported: Result<Vec<TrainingSignal>, Failure>,
    step: &K,
    narrow: &N,
    r: Result<RetrainCycle<M>, String>,
)
    requires
        call_ensures(
            RetrainPipeline::<M>::take_export::<K, N>,
            (pipeline, exported, step, narrow),
            r,
        ),
    ensures
        final(pipeline).model() == old(pipeline).model(),
        final(pipeline).artifact() == old(pipeline).artifact(),
        final(pipeline).last_result() == old(pipeline).last_result(),
        final(pipeline).settings() == old(pipeline).settings(),
        final(pipeline).id() == old(pipeline).id(),
        final(pipeline).in_cycle() <==> r is Ok,
        r is Ok <==> exported is Ok && exported->Ok_0@.len() > 0,
        r matches Ok(cycle) ==> makes(
            *old(pipeline),
            exported->Ok_0@,
            if exported->Ok_0@.len() <= old(pipeline).settings().batch_size {
                exported->Ok_0@.len() as int
            } else {
                old(pipeline).settings().batch_size as int
            },
            cycle,
            *step,
            *narrow,
        ),
        exported matches Err(failure) ==> r is Err && r->Err_0@ == "failed to export signals: "@
            + failure.message@,
        exported is Ok && exported->Ok_0@.len() == 0 ==> r is Err && r->Err_0@
            == "no pending signals"@,
{
    if r is Ok {
        let signals = exported->Ok_0@;
        let n = if signals.len() <= old(pipeline).settings().batch_size {
            signals.len() as int
        } else {
            old(pipeline).settings().batch_size as int
        };
        lemma_makes(*old(pipeline), signals, n, r->Ok_0, *step, *narrow);
    }
}

/// The same for the background loop, which also needs room in a batch, and says
/// nothing where there is no cycle.
pub proof fn a_background_export_makes_a_cycle<
    M: WeightModel,
    K: Fn(u64, u64, usize, usize) -> u64,
    N: Fn(u64) -> u32,
>(
    pipeline: &mut RetrainPipeline<M>,
    exported: Result<Vec<TrainingSignal>, Failure>,
    step: &K,
    narrow: &N,
    r: Option<RetrainCycle<M>>,
)
    requires
        call_ensures(
            RetrainPipeline::<M>::take_background_export::<K, N>,
            (pipeline, exported, step, narrow),
            r,
        ),
    ensures
        final(pipeline).model() == old(pipeline).model(),
        final(pipeline).artifact() == old(pipeline).artifact(),
        final(pipeline).last_result() == old(pipeline).last_result(),
        final(pipeline).settings() == old(pipeline).settings(),
        final(pipeline).id() == old(pipeline).id(),
        final(pipeline).in_cycle() <==> r is Some,
        r is Some <==> exported is Ok && exported->Ok_0@.len() > 0 && old(
            pipeline,
        ).settings().batch_size > 0,
        r matches Some(cycle) ==> makes(
            *old(pipeline),
            exported->Ok_0@,
            if exported->Ok_0@.len() <= old(pipeline).settings().batch_size {
                exported->Ok_0@.len() as int
            } else {
                old(pipeline).settings().batch_size as int
            },
            cycle,
            *step,
            *narrow,
        ),
{
    if r is Some {
        let signals = exported->Ok_0@;
        let n = if signals.len() <= old(pipeline).settings().batch_size {
            signals.len() as int
        } else {
            old(pipeline).settings().batch_size as int
        };
        lemma_makes(*old(pipeline), signals, n, r->0, *step, *narrow);
    }
}

/// The background loop goes on to export exactly where the count is there and
/// reaches the threshold.
pub proof fn a_count_is_held_against_the_threshold<M: WeightModel>(
    pipeline: &mut RetrainPipeline<M>,
    pending: Result<usize, Failure>,
    r: BackgroundStep,
)
    requires
        call_ensures(RetrainPipeline::<M>::after_count, (pipeline, pending), r),
    ensures
        r == BackgroundStep::Export <==> pending is Ok && pending->Ok_0 >= old(
            pipeline,
        ).settings().signal_threshold,
        r == BackgroundStep::Export ==> final(pipeline).in_cycle(),
        r == BackgroundStep::Wait ==> final(pipeline).in_cycle() == old(pipeline).in_cycle(),
        final(pipeline).model() == old(pipeline).model(),
        final(pipeline).artifact() == old(pipeline).artifact(),
        final(pipeline).last_result() == old(pipeline).last_result(),
        final(pipeline).settings() == old(pipeline).settings(),
        final(pipeline).id() == old(pipeline).id(),
{
}

/// A cycle is installed and then finished: the updated model and its artifact are
/// the current ones, and the result tells the versions, the number of signals, the
/// path and the time.
pub proof fn a_cycle_is_installed_and_finished<M: WeightModel>(
    installing: &mut RetrainPipeline<M>,
    cycle: RetrainCycle<M>,
    tally: CycleTally,
    finishing: &mut RetrainPipeline<M>,
    artifact_path: Option<String>,
    elapsed_ms: u128,
    result: RetrainResult,
    model: M,
    category: Seq<char>,
    status: RetrainStatus,
    unconsumed: usize,
)
    requires
        call_ensures(RetrainPipeline::<M>::install, (installing, cycle), tally),
        *old(finishing) == *final(installing),
        call_ensures(
            RetrainPipeline::<M>::finish,
            (finishing, tally, artifact_path, elapsed_ms),
            result,
        ),
        call_ensures(RetrainPipeline::<M>::current_model, (&*final(finishing),), model),
        call_ensures(RetrainPipeline::<M>::status, (&*final(finishing), unconsumed), status),
    ensures
        final(finishing).model() == cycle.updated,
        final(finishing).artifact() == Some(cycle.artifact),
        final(finishing).settings() == old(installing).settings(),
        final(finishing).id() == old(installing).id(),
        model.weights().version == cycle.updated.weights().version,
        (model.weights().weight)(category) == (cycle.updated.weights().weight)(category),
        result.model_id@ == old(installing).id(),
        result.new_version == cycle.updated.weights().version,
        result.previous_version == cycle.previous_version,
        result.signals_consumed == cycle.batch_len,
        result.artifact_path == artifact_path,
        elapsed_ms <= u64::MAX ==> result.duration_ms == elapsed_ms,
        status.model_version == cycle.updated.weights().version,
        status.unconsumed_signals == unconsumed,
        status.threshold_met <==> unconsumed >= old(installing).settings().signal_threshold,
        !status.running,
        status.last_result == Some(result),
{
    assert((final(finishing).model().weights().weight)(category) == (model.weights().weight)(
        category,
    ));
}

/// A new pipeline has its model, and nothing has come of it yet. Starting and
/// giving up tell whether a cycle is running, and change nothing else.
pub proof fn a_new_pipeline_is_idle<M: WeightModel>(
    config: RetrainConfig,
    id: String,
    baseline: M,
    fresh: RetrainPipeline<M>,
    artifact: Option<RetrainArtifact>,
    running: bool,
    starting: &mut RetrainPipeline<M>,
    started: bool,
    ending: &mut RetrainPipeline<M>,
    ended: bool,
    status: RetrainStatus,
    unconsumed: usize,
)
    requires
        call_ensures(RetrainPipeline::<M>::new, (config, id, baseline), fresh),
        call_ensures(RetrainPipeline::<M>::latest_artifact, (&fresh,), artifact),
        call_ensures(RetrainPipeline::<M>::is_running, (&fresh,), running),
        call_ensures(RetrainPipeline::<M>::status, (&fresh, unconsumed), status),
        call_ensures(RetrainPipeline::<M>::start, (starting,), ()),
        call_ensures(RetrainPipeline::<M>::is_running, (&*final(starting),), started),
        call_ensures(RetrainPipeline::<M>::give_up, (ending,), ()),
        call_ensures(RetrainPipeline::<M>::is_running, (&*final(ending),), ended),
    ensures
        fresh.settings() == config,
        fresh.id() == id@,
        fresh.model() == baseline,
        artifact is None,
        !running,
        status.model_version == baseline.weights().version,
        status.unconsumed_signals == unconsumed,
        status.threshold_met <==> unconsumed >= config.signal_threshold,
        !status.running,
        status.last_result is None,
        started,
        !ended,
        final(starting).model() == old(starting).model(),
        final(starting).artifact() == old(starting).artifact(),
        final(starting).last_result() == old(starting).last_result(),
        final(starting).settings() == old(starting).settings(),
        final(starting).id() == old(starting).id(),
        final(ending).model() == old(ending).model(),
        final(ending).artifact() == old(ending).artifact(),
        final(ending).last_result() == old(ending).last_result(),
        final(ending).settings() == old(ending).settings(),
        final(ending).id() == old(ending).id(),
{
}

/// A copy of a pipeline stands where the pipeline stands.
pub proof fn copies_of_a_pipeline_stand_where_it_stands<M: WeightModel>(
    pipeline: &RetrainPipeline<M>,
    copy: RetrainPipeline<M>,
    running: bool,
    copy_running: bool,
)
    requires
        call_ensures(RetrainPipeline::<M>::clone, (pipeline,), copy),
        call_ensures(RetrainPipeline::<M>::is_running, (pipeline,), running),
        call_ensures(RetrainPipeline::<M>::is_running, (&copy,), copy_running),
    ensures
        copy_running == running,
        copy.settings() == pipeline.settings(),
        copy.id() == pipeline.id(),
        copy.last_result() == pipeline.last_result(),
        vstd::pervasive::cloned(pipeline.model(), copy.model()),
        copy.artifact() is Some <==> pipeline.artifact() is Some,
        copy.artifact() is Some ==> copy.artifact()->0.weight_matrix@
            == pipeline.artifact()->0.weight_matrix@ && copy.artifact()->0.version
            == pipeline.artifact()->0.version && copy.artifact()->0.checksum@
            == pipeline.artifact()->0.checksum@,
{
    if copy.artifact() is Some {
        assert(copy.artifact()->0@ == pipeline.artifact()->0@);
    }
}

} // verus!
