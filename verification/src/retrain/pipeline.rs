//! Retrain pipeline: threshold checking, signal consumption, feature
//! extraction, weight learning, artifact, and hot swap.
//!
//! A cycle is made of steps: `start`, `take_export` with the signals that the
//! store exported, `install` for the updated model, and `finish` with what became
//! of the artifact. [`RetrainPipeline::run_retrain`] takes them all in one go.
//! [`RetrainPipeline::background_pass`] is one pass of a background loop: it asks
//! [`RetrainPipeline::after_count`] whether there is anything to do, and leaves
//! the cycle to [`RetrainPipeline::run_background`].

use vstd::prelude::*;
use vstd::pervasive::cloned;
use vstd::string::*;

use super::artifact::{artifact_of, RetrainArtifact};
use super::config::RetrainConfig;
use super::features::{batch_features, extract_features};
use super::status::{RetrainResult, RetrainStatus};
use super::weights::{
    learn_weights, learned, same_categories, same_weights, WeightModel, WeightsView,
};
use crate::config::ModelConfig;
use crate::model::{Failure, ModelBackend};
use crate::registry::{ModelRegistry, RegistryError};
use crate::signals::laws::export_is_limited_and_of_the_model;
use crate::signals::{
    consume, exported, names_of, pending, signals_view, SignalStore, SignalView, TrainingSignal,
};

verus! {

/// The retrain pipeline for a single model.
///
/// Generic over the weight model: consumers define their domain-specific shape.
pub struct RetrainPipeline<M: WeightModel> {
    config: RetrainConfig,
    model_id: String,
    current_model: M,
    latest_artifact: Option<RetrainArtifact>,
    latest_result: Option<RetrainResult>,
    running: bool,
}

/// A cycle whose weights are learned and whose artifact is to be saved.
pub struct RetrainCycle<M: WeightModel> {
    /// The retrained model.
    pub updated: M,
    /// Its artifact.
    pub artifact: RetrainArtifact,
    /// The names of the signals that it was learned from.
    pub signal_ids: Vec<String>,
    /// The number of signals that it was learned from.
    pub batch_len: usize,
    /// The version of the model before.
    pub previous_version: u64,
}

/// What is to be told of a cycle whose model is installed.
#[derive(Debug, Clone, Copy, PartialEq, Eq, Structural)]
pub struct CycleTally {
    /// The version of the model before.
    pub previous_version: u64,
    /// The number of signals that the model was learned from.
    pub signals_consumed: usize,
}

/// What a whole cycle came to, with the failures that do not stop it.
#[derive(Debug)]
pub struct RetrainReport {
    /// What the cycle came to.
    pub result: RetrainResult,
    /// Why the artifact could not be saved.
    pub save_failure: Option<Failure>,
    /// Why the signals could not be marked as consumed.
    pub consume_failure: Option<Failure>,
    /// Why the model could not be reloaded. It will use its new weights when it
    /// is next loaded.
    pub reload_failure: Option<RegistryError>,
}

/// What the background loop does after counting the pending signals.
#[derive(Debug, Clone, Copy, PartialEq, Eq, Structural)]
pub enum BackgroundStep {
    /// Wait for the next tick or trigger.
    Wait,
    /// Export the pending signals: a cycle is running.
    Export,
}

/// What a cycle has from outside the library.
///
/// - `step` moves a weight: it is given the weight, the learning rate, and the
///   correction rate as numerator and denominator.
/// - `narrow` brings a weight from double to single precision.
/// - `save` keeps an artifact, and answers where.
/// - `elapsed_ms` tells how long the cycle has been running.
pub struct RetrainTools<K, N, W, C> {
    pub step: K,
    pub narrow: N,
    pub save: W,
    pub elapsed_ms: C,
}

/// The names of the signals of a batch, in its order. A signal without a name
/// is passed over.
pub open spec fn batch_ids(batch: Seq<SignalView>) -> Seq<Seq<char>>
    decreases batch.len(),
{
    if batch.len() == 0 {
        seq![]
    } else {
        match batch.last().signal_id {
            Some(id) => batch_ids(batch.drop_last()).push(id),
            None => batch_ids(batch.drop_last()),
        }
    }
}

/// The signals that one cycle learns from: the first ones that were exported.
pub open spec fn batch_of(signals: Seq<SignalView>, batch_size: usize) -> Seq<SignalView> {
    if signals.len() <= batch_size {
        signals
    } else {
        signals.take(batch_size as int)
    }
}

/// Whether `step` may be called on every correction rate.
pub open spec fn moves_any_weight<K: Fn(u64, u64, usize, usize) -> u64>(step: K) -> bool {
    forall|weight: u64, rate: u64, wrong: usize, total: usize|
        total > 0 ==> #[trigger] call_requires(step, (weight, rate, wrong, total))
}

/// Whether `narrow` may be called on every weight.
pub open spec fn narrows_any_weight<N: Fn(u64) -> u32>(narrow: N) -> bool {
    forall|weight: u64| #[trigger] call_requires(narrow, (weight,))
}

/// Whether a model has a next version and a weight matrix that fits in memory.
pub open spec fn can_be_retrained(weights: WeightsView) -> bool {
    &&& weights.version < u64::MAX
    &&& weights.listing_len * weights.listing_len <= usize::MAX
}

/// Whether `cycle` is what a batch of signals makes of a model.
pub open spec fn cycle_of<
    M: WeightModel,
    K: Fn(u64, u64, usize, usize) -> u64,
    N: Fn(u64) -> u32,
>(
    cycle: RetrainCycle<M>,
    before: WeightsView,
    batch: Seq<SignalView>,
    model_id: Seq<char>,
    config: RetrainConfig,
    step: K,
    narrow: N,
) -> bool {
    &&& learned(
        before,
        cycle.updated.weights(),
        batch_features(batch),
        config.min_corrections_for_update,
        config.learning_rate,
        step,
    )
    &&& artifact_of(
        cycle.artifact,
        cycle.updated.weights(),
        model_id,
        batch.len() as usize,
        narrow,
    )
    &&& call_ensures(M::categories, (&cycle.updated,), cycle.artifact.categories)
    &&& cycle.artifact.created_at.seconds >= 0
    &&& cycle.artifact.created_at.nanos < 1_000_000_000
    &&& cycle.signal_ids@.map_values(|id: String| id@) == batch_ids(batch)
    &&& cycle.batch_len == batch.len()
    &&& cycle.previous_version == before.version
}

/// The answer of one who failed as given, or did not fail.
pub open spec fn reply_of<E>(failure: Option<E>) -> Result<(), E> {
    match failure {
        None => Ok(()),
        Some(e) => Err(e),
    }
}

/// Lists the names of the signals of a batch.
fn ids_of(batch: &Vec<TrainingSignal>) -> (r: Vec<String>)
    ensures
        r@.map_values(|id: String| id@) == batch_ids(signals_view(batch@)),
{
    let ghost all = signals_view(batch@);
    let mut ids: Vec<String> = Vec::new();
    let mut i: usize = 0;
    assert(ids@.map_values(|id: String| id@) =~= batch_ids(all.take(0)));
    while i < batch.len()
        invariant
            i <= batch@.len(),
            all == signals_view(batch@),
            ids@.map_values(|id: String| id@) == batch_ids(all.take(i as int)),
        decreases batch@.len() - i,
    {
        proof {
            assert(all.take(i + 1).drop_last() =~= all.take(i as int));
            assert(all.take(i + 1).last() == batch@[i as int]@);
        }
        match &batch[i].signal_id {
            Some(id) => {
                let ghost before = ids@;
                ids.push(id.clone());
                assert(ids@.map_values(|id: String| id@) =~= before.map_values(
                    |id: String| id@,
                ).push(id@));
            },
            None => {},
        }
        i = i + 1;
    }
    assert(all.take(i as int) =~= all);
    ids
}

impl<M: WeightModel> RetrainPipeline<M> {
    /// The settings.
    pub closed spec fn settings(&self) -> RetrainConfig {
        self.config
    }

    /// The model ID.
    pub closed spec fn id(&self) -> Seq<char> {
        self.model_id@
    }

    /// The current weight model.
    pub closed spec fn model(&self) -> M {
        self.current_model
    }

    /// The latest artifact.
    pub closed spec fn artifact(&self) -> Option<RetrainArtifact> {
        self.latest_artifact
    }

    /// The result of the last completed cycle.
    pub closed spec fn last_result(&self) -> Option<RetrainResult> {
        self.latest_result
    }

    /// Whether a cycle is running.
    pub closed spec fn in_cycle(&self) -> bool {
        self.running
    }

    /// Whether two states of a pipeline differ at most in whether a cycle is
    /// running.
    pub open spec fn same_but_running(self, other: Self) -> bool {
        &&& self.settings() == other.settings()
        &&& self.id() == other.id()
        &&& self.model() == other.model()
        &&& self.artifact() == other.artifact()
        &&& self.last_result() == other.last_result()
    }

    /// Create a new retrain pipeline.
    pub fn new(config: RetrainConfig, model_id: String, baseline: M) -> (r: Self)
        ensures
            r.settings() == config,
            r.id() == model_id@,
            r.model() == baseline,
            r.artifact() is None,
            r.last_result() is None,
            !r.in_cycle(),
    {
        RetrainPipeline {
            config,
            model_id,
            current_model: baseline,
            latest_artifact: None,
            latest_result: None,
            running: false,
        }
    }

    /// Get the current weight model.
    pub fn current_model(&self) -> (r: M)
        ensures
            cloned(self.model(), r),
            r.weights().version == self.model().weights().version,
            same_categories(self.model().weights(), r.weights()),
            same_weights(self.model().weights(), r.weights()),
    {
        let r = self.current_model.clone();
        proof {
            M::clone_is_faithful(self.current_model, r);
        }
        r
    }

    /// Get the latest artifact (if any retrain has completed).
    pub fn latest_artifact(&self) -> (r: Option<RetrainArtifact>)
        ensures
            match (r, self.artifact()) {
                (Some(copy), Some(artifact)) => copy@ == artifact@,
                (None, None) => true,
                _ => false,
            },
    {
        match &self.latest_artifact {
            Some(artifact) => Some(artifact.clone()),
            None => None,
        }
    }

    /// Get the current status.
    pub fn status(&self, unconsumed_signals: usize) -> (r: RetrainStatus)
        ensures
            r.model_version == self.model().weights().version,
            r.unconsumed_signals == unconsumed_signals,
            r.threshold_met == (unconsumed_signals >= self.settings().signal_threshold),
            r.running == self.in_cycle(),
            r.last_result == self.last_result(),
    {
        RetrainStatus {
            model_version: self.current_model.version(),
            unconsumed_signals,
            threshold_met: unconsumed_signals >= self.config.signal_threshold,
            running: self.running,
            last_result: match &self.latest_result {
                Some(result) => Some(result.clone()),
                None => None,
            },
        }
    }

    /// Whether a cycle is running.
    pub fn is_running(&self) -> (r: bool)
        ensures
            r == self.in_cycle(),
    {
        self.running
    }

    /// Starts a cycle: the store is to export its pending signals.
    pub fn start(&mut self)
        ensures
            final(self).in_cycle(),
            final(self).same_but_running(*old(self)),
    {
        self.running = true;
    }

    /// Gives up a cycle: nothing comes of it.
    pub fn give_up(&mut self)
        ensures
            !final(self).in_cycle(),
            final(self).same_but_running(*old(self)),
    {
        self.running = false;
    }

    /// Learns from the first of the exported signals.
    fn learn<K: Fn(u64, u64, usize, usize) -> u64, N: Fn(u64) -> u32>(
        &self,
        signals: Vec<TrainingSignal>,
        step: &K,
        narrow: &N,
    ) -> (r: RetrainCycle<M>)
        requires
            can_be_retrained(self.model().weights()),
            moves_any_weight(*step),
            narrows_any_weight(*narrow),
        ensures
            cycle_of(
                r,
                self.model().weights(),
                batch_of(signals_view(signals@), self.settings().batch_size),
                self.id(),
                self.settings(),
                *step,
                *narrow,
            ),
    {
        let mut batch = signals;
        if batch.len() > self.config.batch_size {
            batch.truncate(self.config.batch_size);
        }
        assert(signals_view(batch@) =~= batch_of(
            signals_view(signals@),
            self.config.batch_size,
        ));
        let features = extract_features(batch.as_slice());
        let updated = learn_weights(&self.current_model, &features, &self.config, step);
        let artifact = RetrainArtifact::from_model(
            &updated,
            self.model_id.as_str(),
            batch.len(),
            narrow,
        );
        RetrainCycle {
            updated,
            artifact,
            signal_ids: ids_of(&batch),
            batch_len: batch.len(),
            previous_version: self.current_model.version(),
        }
    }

    /// Whether `cycle` is what the exported signals make of the pipeline's
    /// model.
    pub open spec fn learns<K: Fn(u64, u64, usize, usize) -> u64, N: Fn(u64) -> u32>(
        self,
        signals: Seq<SignalView>,
        cycle: RetrainCycle<M>,
        step: K,
        narrow: N,
    ) -> bool {
        cycle_of(
            cycle,
            self.model().weights(),
            batch_of(signals, self.settings().batch_size),
            self.id(),
            self.settings(),
            step,
            narrow,
        )
    }

    /// Takes the signals that the store exported, or why it could not.
    ///
    /// With signals the cycle goes on: its artifact is to be saved. Without, it
    /// is over.
    pub fn take_export<K: Fn(u64, u64, usize, usize) -> u64, N: Fn(u64) -> u32>(
        &mut self,
        exported: Result<Vec<TrainingSignal>, Failure>,
        step: &K,
        narrow: &N,
    ) -> (r: Result<RetrainCycle<M>, String>)
        requires
            exported matches Ok(signals) && signals@.len() > 0 ==> can_be_retrained(
                old(self).model().weights(),
            ),
            moves_any_weight(*step),
            narrows_any_weight(*narrow),
        ensures
            final(self).same_but_running(*old(self)),
            match exported {
                Err(failure) => {
                    &&& r matches Err(text)
                    &&& text@ == "failed to export signals: "@ + failure.message@
                    &&& !final(self).in_cycle()
                },
                Ok(signals) => if signals@.len() == 0 {
                    &&& r matches Err(text)
                    &&& text@ == "no pending signals"@
                    &&& !final(self).in_cycle()
                } else {
                    &&& r matches Ok(cycle)
                    &&& old(self).learns(signals_view(signals@), cycle, *step, *narrow)
                    &&& final(self).in_cycle()
                },
            },
    {
        match exported {
            Err(failure) => {
                self.give_up();
                let mut text = "failed to export signals: ".to_owned();
                text.append(failure.message.as_str());
                Err(text)
            },
            Ok(signals) => {
                if signals.len() == 0 {
                    self.give_up();
                    Err("no pending signals".to_owned())
                } else {
                    self.start();
                    Ok(self.learn(signals, step, narrow))
                }
            },
        }
    }

    /// Decides what the background loop does about the number of pending
    /// signals.
    pub fn after_count(&mut self, pending: Result<usize, Failure>) -> (r: BackgroundStep)
        ensures
            final(self).same_but_running(*old(self)),
            if pending matches Ok(n) && n >= old(self).settings().signal_threshold {
                r == BackgroundStep::Export && final(self).in_cycle()
            } else {
                r == BackgroundStep::Wait && final(self).in_cycle() == old(self).in_cycle()
            },
    {
        match pending {
            Ok(n) => {
                if n >= self.config.signal_threshold {
                    self.start();
                    BackgroundStep::Export
                } else {
                    BackgroundStep::Wait
                }
            },
            Err(_) => BackgroundStep::Wait,
        }
    }

    /// Takes the signals that the store exported for the background loop. With
    /// an empty batch there is no cycle.
    pub fn take_background_export<K: Fn(u64, u64, usize, usize) -> u64, N: Fn(u64) -> u32>(
        &mut self,
        exported: Result<Vec<TrainingSignal>, Failure>,
        step: &K,
        narrow: &N,
    ) -> (r: Option<RetrainCycle<M>>)
        requires
            exported matches Ok(signals) && signals@.len() > 0 && old(self).settings().batch_size
                > 0 ==> can_be_retrained(old(self).model().weights()),
            moves_any_weight(*step),
            narrows_any_weight(*narrow),
        ensures
            final(self).same_but_running(*old(self)),
            if exported matches Ok(signals) && signals@.len() > 0 && old(
                self,
            ).settings().batch_size > 0 {
                &&& r matches Some(cycle)
                &&& old(self).learns(signals_view(exported->Ok_0@), cycle, *step, *narrow)
                &&& final(self).in_cycle()
            } else {
                r is None && !final(self).in_cycle()
            },
    {
        match exported {
            Ok(signals) => {
                if signals.len() == 0 || self.config.batch_size == 0 {
                    self.give_up();
                    None
                } else {
                    self.start();
                    Some(self.learn(signals, step, narrow))
                }
            },
            Err(_) => {
                self.give_up();
                None
            },
        }
    }

    /// Makes the updated model and its artifact the current ones.
    pub fn install(&mut self, cycle: RetrainCycle<M>) -> (r: CycleTally)
        ensures
            final(self).settings() == old(self).settings(),
            final(self).id() == old(self).id(),
            final(self).model() == cycle.updated,
            final(self).artifact() == Some(cycle.artifact),
            final(self).last_result() == old(self).last_result(),
            final(self).in_cycle() == old(self).in_cycle(),
            r.previous_version == cycle.previous_version,
            r.signals_consumed == cycle.batch_len,
    {
        self.current_model = cycle.updated;
        self.latest_artifact = Some(cycle.artifact);
        CycleTally {
            previous_version: cycle.previous_version,
            signals_consumed: cycle.batch_len,
        }
    }

    /// Whether `result` sums up a cycle of a pipeline whose model is the
    /// updated one.
    pub open spec fn summed_up(
        self,
        tally: CycleTally,
        artifact_path: Option<String>,
        elapsed_ms: u128,
        result: RetrainResult,
    ) -> bool {
        &&& result.model_id@ == self.id()
        &&& result.new_version == self.model().weights().version
        &&& result.previous_version == tally.previous_version
        &&& result.signals_consumed == tally.signals_consumed
        &&& result.artifact_path == artifact_path
        &&& result.duration_ms == elapsed_ms as u64
    }

    /// Ends a cycle whose updated model is installed.
    pub fn finish(
        &mut self,
        tally: CycleTally,
        artifact_path: Option<String>,
        elapsed_ms: u128,
    ) -> (r: RetrainResult)
        ensures
            final(self).settings() == old(self).settings(),
            final(self).id() == old(self).id(),
            final(self).model() == old(self).model(),
            final(self).artifact() == old(self).artifact(),
            final(self).last_result() == Some(r),
            !final(self).in_cycle(),
            old(self).summed_up(tally, artifact_path, elapsed_ms, r),
    {
        let duration_ms: u64 = #[verifier::truncate]
        (elapsed_ms as u64);
        let result = RetrainResult {
            model_id: self.model_id.clone(),
            new_version: self.current_model.version(),
            previous_version: tally.previous_version,
            signals_consumed: tally.signals_consumed,
            artifact_path,
            duration_ms,
        };
        self.latest_result = Some(result.clone());
        self.running = false;
        result
    }

    /// Whether the pipeline is where a whole cycle leaves it.
    pub open spec fn completed(
        before: Self,
        after: Self,
        cycle: RetrainCycle<M>,
        result: RetrainResult,
    ) -> bool {
        &&& after.settings() == before.settings()
        &&& after.id() == before.id()
        &&& after.model() == cycle.updated
        &&& after.artifact() == Some(cycle.artifact)
        &&& after.last_result() == Some(result)
        &&& !after.in_cycle()
        &&& result.model_id@ == before.id()
        &&& result.new_version == cycle.updated.weights().version
        &&& result.previous_version == cycle.previous_version
        &&& result.signals_consumed == cycle.batch_len
    }

    /// Whether the store, the artifact and the registry were told of a cycle as
    /// the report says: the signals that it learned from, and no others, are
    /// consumed; the artifact was handed over to be saved; and where it was
    /// saved, the registry was told to reload the model from there.
    pub open spec fn handed_on<
        S: SignalStore,
        B: ModelBackend,
        F: Fn(&ModelConfig, &str) -> Result<Option<B>, Failure>,
        K,
        N,
        W: Fn(&RetrainArtifact) -> Result<String, Failure>,
        C: Fn() -> u128,
    >(
        self,
        cycle: RetrainCycle<M>,
        store: S,
        store_after: S,
        registry: Option<&ModelRegistry<B, F>>,
        tools: RetrainTools<K, N, W, C>,
        report: RetrainReport,
    ) -> bool {
        &&& report.consume_failure is None ==> store_after.rows() == consume(
            store.rows(),
            self.id(),
            names_of(cycle.signal_ids@),
        )
        &&& match (report.result.artifact_path, report.save_failure) {
            (Some(path), None) => call_ensures(tools.save, (&cycle.artifact,), Ok(path)),
            (None, Some(failure)) => call_ensures(tools.save, (&cycle.artifact,), Err(failure)),
            _ => false,
        }
        &&& match (registry, report.result.artifact_path) {
            (Some(registry), Some(path)) => exists|new_path: &str|
                {
                    &&& new_path@ == path@
                    &&& #[trigger] registry.reloaded(
                        self.id(),
                        new_path,
                        reply_of(report.reload_failure),
                    )
                },
            _ => report.reload_failure is None,
        }
        &&& exists|elapsed: u128|
            {
                &&& #[trigger] call_ensures(tools.elapsed_ms, (), elapsed)
                &&& report.result.duration_ms == elapsed as u64
            }
    }

    /// Whether a whole cycle took the pipeline from `before` to `after` on the
    /// signals that the store exported.
    pub open spec fn cycled<
        S: SignalStore,
        B: ModelBackend,
        F: Fn(&ModelConfig, &str) -> Result<Option<B>, Failure>,
        K: Fn(u64, u64, usize, usize) -> u64,
        N: Fn(u64) -> u32,
        W: Fn(&RetrainArtifact) -> Result<String, Failure>,
        C: Fn() -> u128,
    >(
        before: Self,
        after: Self,
        store: S,
        store_after: S,
        signals: Seq<SignalView>,
        registry: Option<&ModelRegistry<B, F>>,
        tools: RetrainTools<K, N, W, C>,
        report: RetrainReport,
    ) -> bool {
        &&& exported(store.rows(), before.id(), None, signals)
        &&& exists|cycle: RetrainCycle<M>|
            {
                &&& #[trigger] before.learns(signals, cycle, tools.step, tools.narrow)
                &&& Self::completed(before, after, cycle, report.result)
                &&& before.handed_on(cycle, store, store_after, registry, tools, report)
            }
    }

    /// What a cycle comes to does not depend on whether it was running already.
    proof fn lemma_cycled_from<
        S: SignalStore,
        B: ModelBackend,
        F: Fn(&ModelConfig, &str) -> Result<Option<B>, Failure>,
        K: Fn(u64, u64, usize, usize) -> u64,
        N: Fn(u64) -> u32,
        W: Fn(&RetrainArtifact) -> Result<String, Failure>,
        C: Fn() -> u128,
    >(
        running: Self,
        before: Self,
        after: Self,
        store: S,
        store_after: S,
        signals: Seq<SignalView>,
        registry: Option<&ModelRegistry<B, F>>,
        tools: RetrainTools<K, N, W, C>,
        report: RetrainReport,
    )
        requires
            running.same_but_running(before),
            Self::cycled(
                running,
                after,
                store,
                store_after,
                signals,
                registry,
                tools,
                report,
            ),
        ensures
            Self::cycled(before, after, store, store_after, signals, registry, tools, report),
    {
        let cycle = choose|cycle: RetrainCycle<M>|
            {
                &&& #[trigger] running.learns(signals, cycle, tools.step, tools.narrow)
                &&& Self::completed(running, after, cycle, report.result)
                &&& running.handed_on(cycle, store, store_after, registry, tools, report)
            };
        assert(before.learns(signals, cycle, tools.step, tools.narrow));
    }

    /// Saves the artifact of a cycle, marks the signals that it learned from as
    /// consumed, installs the updated model, and hot-swaps it in the registry if
    /// there is one.
    fn conclude<
        S: SignalStore,
        B: ModelBackend,
        F: Fn(&ModelConfig, &str) -> Result<Option<B>, Failure>,
        K: Fn(u64, u64, usize, usize) -> u64,
        N: Fn(u64) -> u32,
        W: Fn(&RetrainArtifact) -> Result<String, Failure>,
        C: Fn() -> u128,
    >(
        &mut self,
        cycle: RetrainCycle<M>,
        store: &mut S,
        registry: Option<&ModelRegistry<B, F>>,
        tools: &RetrainTools<K, N, W, C>,
    ) -> (r: RetrainReport)
        requires
            forall|artifact: &RetrainArtifact| #[trigger] call_requires(tools.save, (artifact,)),
            call_requires(tools.elapsed_ms, ()),
        ensures
            Self::completed(*old(self), *final(self), cycle, r.result),
            old(self).handed_on(cycle, *old(store), *final(store), registry, *tools, r),
            exists|told: &mut S, id: &str, ids: &Vec<String>|
                {
                    &&& #[trigger] call_ensures(
                        S::mark_consumed,
                        (told, id, ids),
                        reply_of(r.consume_failure),
                    )
                    &&& *told == *old(store)
                    &&& *final(told) == *final(store)
                    &&& id@ == old(self).id()
                    &&& *ids == cycle.signal_ids
                },
    {
        let model_id = self.model_id.clone();
        let id = model_id.as_str();
        let (artifact_path, save_failure): (Option<String>, Option<Failure>) = match (tools.save)(
            &cycle.artifact,
        ) {
            Ok(path) => (Some(path), None),
            Err(failure) => (None, Some(failure)),
        };
        let reply = store.mark_consumed(id, &cycle.signal_ids);
        let ghost told = reply;
        let consume_failure = match reply {
            Ok(()) => None,
            Err(failure) => Some(failure),
        };
        assert(told == reply_of(consume_failure)) by {
            if told is Ok {
                assert(told->Ok_0 == ());
            }
        }
        let tally = self.install(cycle);
        let reload_failure = match (registry, &artifact_path) {
            (Some(registry), Some(path)) => match registry.reload_model(id, path.as_str()) {
                Ok(()) => None,
                Err(e) => Some(e),
            },
            _ => None,
        };
        let elapsed: u128 = (tools.elapsed_ms)();
        let result = self.finish(tally, artifact_path, elapsed);
        RetrainReport { result, save_failure, consume_failure, reload_failure }
    }

    /// Run a single retrain cycle.
    ///
    /// Exports signals from the store, extracts features, learns new weights,
    /// creates an artifact, saves it, marks the signals that were learned from
    /// as consumed, and hot-swaps the model in the registry if there is one.
    /// Where saving, marking or swapping fails, the cycle goes on, and the
    /// report says so.
    pub fn run_retrain<
        S: SignalStore,
        B: ModelBackend,
        F: Fn(&ModelConfig, &str) -> Result<Option<B>, Failure>,
        K: Fn(u64, u64, usize, usize) -> u64,
        N: Fn(u64) -> u32,
        W: Fn(&RetrainArtifact) -> Result<String, Failure>,
        C: Fn() -> u128,
    >(
        &mut self,
        store: &mut S,
        registry: Option<&ModelRegistry<B, F>>,
        tools: &RetrainTools<K, N, W, C>,
    ) -> (r: Result<RetrainReport, String>)
        requires
            pending(old(store).rows(), old(self).id()).len() > 0 ==> can_be_retrained(
                old(self).model().weights(),
            ),
            moves_any_weight(tools.step),
            narrows_any_weight(tools.narrow),
            forall|artifact: &RetrainArtifact| #[trigger] call_requires(tools.save, (artifact,)),
            call_requires(tools.elapsed_ms, ()),
        ensures
            !final(self).in_cycle(),
            exists|model_id: &str, reply: Result<Vec<TrainingSignal>, Failure>|
                {
                    &&& model_id@ == old(self).id()
                    &&& #[trigger] call_ensures(
                        S::export_pending,
                        (&*old(store), model_id, None),
                        reply,
                    )
                    &&& match reply {
                        Err(failure) => {
                            &&& r matches Err(text)
                            &&& text@ == "failed to export signals: "@ + failure.message@
                            &&& final(self).same_but_running(*old(self))
                            &&& *final(store) == *old(store)
                        },
                        Ok(signals) => if signals@.len() == 0 {
                            &&& r matches Err(text)
                            &&& text@ == "no pending signals"@
                            &&& final(self).same_but_running(*old(self))
                            &&& *final(store) == *old(store)
                        } else {
                            &&& r matches Ok(report)
                            &&& Self::cycled(
                                *old(self),
                                *final(self),
                                *old(store),
                                *final(store),
                                signals_view(signals@),
                                registry,
                                *tools,
                                report,
                            )
                            &&& exists|told: &mut S, id: &str, ids: &Vec<String>|
                                {
                                    &&& #[trigger] call_ensures(
                                        S::mark_consumed,
                                        (told, id, ids),
                                        reply_of(report.consume_failure),
                                    )
                                    &&& *told == *old(store)
                                    &&& *final(told) == *final(store)
                                    &&& id@ == old(self).id()
                                    &&& ids@.map_values(|id: String| id@) == batch_ids(
                                        batch_of(
                                            signals_view(signals@),
                                            old(self).settings().batch_size,
                                        ),
                                    )
                                }
                        },
                    }
                },
    {
        self.start();
        let model_id = self.model_id.clone();
        let reply = store.export_pending(model_id.as_str(), None);
        let ghost told = reply;
        proof {
            if told is Ok {
                export_is_limited_and_of_the_model(
                    store.rows(),
                    model_id@,
                    None,
                    signals_view(told->Ok_0@),
                );
            }
        }
        match self.take_export(reply, &tools.step, &tools.narrow) {
            Ok(cycle) => {
                assert(old(self).learns(
                    signals_view(told->Ok_0@),
                    cycle,
                    tools.step,
                    tools.narrow,
                ));
                Ok(self.conclude(cycle, store, registry, tools))
            },
            Err(text) => Err(text),
        }
    }

    /// Run a cycle of the background loop, once [`Self::after_count`] has asked
    /// for one. Without signals to learn from there is no cycle.
    pub fn run_background<
        S: SignalStore,
        B: ModelBackend,
        F: Fn(&ModelConfig, &str) -> Result<Option<B>, Failure>,
        K: Fn(u64, u64, usize, usize) -> u64,
        N: Fn(u64) -> u32,
        W: Fn(&RetrainArtifact) -> Result<String, Failure>,
        C: Fn() -> u128,
    >(
        &mut self,
        store: &mut S,
        registry: Option<&ModelRegistry<B, F>>,
        tools: &RetrainTools<K, N, W, C>,
    ) -> (r: Option<RetrainReport>)
        requires
            pending(old(store).rows(), old(self).id()).len() > 0 && old(self).settings().batch_size
                > 0 ==> can_be_retrained(old(self).model().weights()),
            moves_any_weight(tools.step),
            narrows_any_weight(tools.narrow),
            forall|artifact: &RetrainArtifact| #[trigger] call_requires(tools.save, (artifact,)),
            call_requires(tools.elapsed_ms, ()),
        ensures
            !final(self).in_cycle(),
            exists|model_id: &str, reply: Result<Vec<TrainingSignal>, Failure>|
                {
                    &&& model_id@ == old(self).id()
                    &&& #[trigger] call_ensures(
                        S::export_pending,
                        (&*old(store), model_id, None),
                        reply,
                    )
                    &&& if reply matches Ok(signals) && signals@.len() > 0 && old(
                        self,
                    ).settings().batch_size > 0 {
                        &&& r matches Some(report)
                        &&& Self::cycled(
                            *old(self),
                            *final(self),
                            *old(store),
                            *final(store),
                            signals_view(reply->Ok_0@),
                            registry,
                            *tools,
                            report,
                        )
                        &&& exists|told: &mut S, id: &str, ids: &Vec<String>|
                            {
                                &&& #[trigger] call_ensures(
                                    S::mark_consumed,
                                    (told, id, ids),
                                    reply_of(report.consume_failure),
                                )
                                &&& *told == *old(store)
                                &&& *final(told) == *final(store)
                                &&& id@ == old(self).id()
                                &&& ids@.map_values(|id: String| id@) == batch_ids(
                                    batch_of(
                                        signals_view(reply->Ok_0@),
                                        old(self).settings().batch_size,
                                    ),
                                )
                            }
                    } else {
                        &&& r is None
                        &&& final(self).same_but_running(*old(self))
                        &&& *final(store) == *old(store)
                    }
                },
    {
        let model_id = self.model_id.clone();
        let reply = store.export_pending(model_id.as_str(), None);
        let ghost told = reply;
        proof {
            if told is Ok {
                export_is_limited_and_of_the_model(
                    store.rows(),
                    model_id@,
                    None,
                    signals_view(told->Ok_0@),
                );
            }
        }
        match self.take_background_export(reply, &tools.step, &tools.narrow) {
            Some(cycle) => {
                assert(old(self).learns(
                    signals_view(told->Ok_0@),
                    cycle,
                    tools.step,
                    tools.narrow,
                ));
                Some(self.conclude(cycle, store, registry, tools))
            },
            None => None,
        }
    }

    /// One pass of the background loop: counts the pending signals, and runs a
    /// cycle where they reach the threshold.
    pub fn background_pass<
        S: SignalStore,
        B: ModelBackend,
        F: Fn(&ModelConfig, &str) -> Result<Option<B>, Failure>,
        K: Fn(u64, u64, usize, usize) -> u64,
        N: Fn(u64) -> u32,
        W: Fn(&RetrainArtifact) -> Result<String, Failure>,
        C: Fn() -> u128,
    >(
        &mut self,
        store: &mut S,
        registry: Option<&ModelRegistry<B, F>>,
        tools: &RetrainTools<K, N, W, C>,
    ) -> (r: Option<RetrainReport>)
        requires
            pending(old(store).rows(), old(self).id()).len() > 0 && old(self).settings().batch_size
                > 0 ==> can_be_retrained(old(self).model().weights()),
            moves_any_weight(tools.step),
            narrows_any_weight(tools.narrow),
            forall|artifact: &RetrainArtifact| #[trigger] call_requires(tools.save, (artifact,)),
            call_requires(tools.elapsed_ms, ()),
        ensures
            exists|asked: &str, counted: Result<usize, Failure>|
                {
                    &&& asked@ == old(self).id()
                    &&& #[trigger] call_ensures(S::count_pending, (&*old(store), asked), counted)
                    &&& if counted matches Ok(n) && n >= old(self).settings().signal_threshold {
                        &&& !final(self).in_cycle()
                        &&& exists|model_id: &str, reply: Result<Vec<TrainingSignal>, Failure>|
                            {
                                &&& model_id@ == old(self).id()
                                &&& #[trigger] call_ensures(
                                    S::export_pending,
                                    (&*old(store), model_id, None),
                                    reply,
                                )
                                &&& if reply matches Ok(signals) && signals@.len() > 0 && old(
                                    self,
                                ).settings().batch_size > 0 {
                                    &&& r matches Some(report)
                                    &&& Self::cycled(
                                        *old(self),
                                        *final(self),
                                        *old(store),
                                        *final(store),
                                        signals_view(reply->Ok_0@),
                                        registry,
                                        *tools,
                                        report,
                                    )
                                    &&& exists|told: &mut S, id: &str, ids: &Vec<String>|
                                        {
                                            &&& #[trigger] call_ensures(
                                                S::mark_consumed,
                                                (told, id, ids),
                                                reply_of(report.consume_failure),
                                            )
                                            &&& *told == *old(store)
                                            &&& *final(told) == *final(store)
                                            &&& id@ == old(self).id()
                                            &&& ids@.map_values(|id: String| id@) == batch_ids(
                                                batch_of(
                                                    signals_view(reply->Ok_0@),
                                                    old(self).settings().batch_size,
                                                ),
                                            )
                                        }
                                } else {
                                    &&& r is None
                                    &&& final(self).same_but_running(*old(self))
                                    &&& *final(store) == *old(store)
                                }
                            }
                    } else {
                        &&& r is None
                        &&& final(self).same_but_running(*old(self))
                        &&& final(self).in_cycle() == old(self).in_cycle()
                        &&& *final(store) == *old(store)
                    }
                },
    {
        let model_id = self.model_id.clone();
        let counted = store.count_pending(model_id.as_str());
        match self.after_count(counted) {
            BackgroundStep::Export => {
                let ghost running = *self;
                let r = self.run_background(store, registry, tools);
                proof {
                    assert forall|signals: Seq<SignalView>, report: RetrainReport| #[trigger]
                        Self::cycled(
                            running,
                            *self,
                            *old(store),
                            *store,
                            signals,
                            registry,
                            *tools,
                            report,
                        ) implies Self::cycled(
                        *old(self),
                        *self,
                        *old(store),
                        *store,
                        signals,
                        registry,
                        *tools,
                        report,
                    ) by {
                        Self::lemma_cycled_from(
                            running,
                            *old(self),
                            *self,
                            *old(store),
                            *store,
                            signals,
                            registry,
                            *tools,
                            report,
                        );
                    }
                }
                r
            },
            BackgroundStep::Wait => None,
        }
    }
}

impl<M: WeightModel> Clone for RetrainPipeline<M> {
    fn clone(&self) -> (r: Self)
        ensures
            r.settings() == self.settings(),
            r.id() == self.id(),
            cloned(self.model(), r.model()),
            match (r.artifact(), self.artifact()) {
                (Some(copy), Some(artifact)) => copy@ == artifact@,
                (None, None) => true,
                _ => false,
            },
            r.last_result() == self.last_result(),
            r.in_cycle() == self.in_cycle(),
    {
        RetrainPipeline {
            config: self.config.clone(),
            model_id: self.model_id.clone(),
            current_model: self.current_model.clone(),
            latest_artifact: self.latest_artifact(),
            latest_result: match &self.latest_result {
                Some(result) => Some(result.clone()),
                None => None,
            },
            running: self.running,
        }
    }
}

} // verus!
