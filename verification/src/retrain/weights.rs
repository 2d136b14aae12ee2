//! Learnable weight models, and what a batch of signals teaches them.

use vstd::prelude::*;
use vstd::pervasive::cloned;

use super::config::RetrainConfig;
use super::features::{CategoryView, SignalFeatures};

verus! {

/// What a weight model holds.
pub struct WeightsView {
    /// The version.
    pub version: u64,
    /// The categories that the model tracks.
    pub categories: Set<Seq<char>>,
    /// How many names the model lists when asked for its categories.
    pub listing_len: nat,
    /// The weight of every category, one that the model tracks or not.
    pub weight: spec_fn(Seq<char>) -> u64,
}

/// Whether two models track the same categories.
pub open spec fn same_categories(a: WeightsView, b: WeightsView) -> bool {
    a.categories == b.categories && a.listing_len == b.listing_len
}

/// Whether two models give every category the same weight.
pub open spec fn same_weights(a: WeightsView, b: WeightsView) -> bool {
    forall|category: Seq<char>| #[trigger] (a.weight)(category) == (b.weight)(category)
}

/// A learnable weight model.
///
/// Consumers implement this for their domain-specific model shape. The retrain
/// pipeline operates on this trait generically. Weights travel as the bits of
/// IEEE 754 doubles.
pub trait WeightModel: Clone + Send + Sync {
    /// What the model holds.
    spec fn weights(&self) -> WeightsView;

    /// A clone holds what its original holds.
    proof fn clone_is_faithful(original: Self, copy: Self)
        requires
            cloned(original, copy),
        ensures
            copy.weights().version == original.weights().version,
            same_categories(original.weights(), copy.weights()),
            same_weights(original.weights(), copy.weights()),
    ;

    /// Model version (monotonically increasing).
    fn version(&self) -> (r: u64)
        ensures
            r == self.weights().version,
    ;

    /// Set the model version.
    fn set_version(&mut self, version: u64)
        ensures
            final(self).weights().version == version,
            same_categories(old(self).weights(), final(self).weights()),
            same_weights(old(self).weights(), final(self).weights()),
    ;

    /// All category names this model tracks.
    fn categories(&self) -> (r: Vec<String>)
        ensures
            r@.len() == self.weights().listing_len,
            forall|category: Seq<char>| #[trigger]
                self.weights().categories.contains(category) <==> listed(r@, category),
    ;

    /// Get the weight adjustment for a category.
    fn adjustment(&self, category: &str) -> (r: u64)
        ensures
            r == (self.weights().weight)(category@),
    ;

    /// Set the weight adjustment for a category.
    fn set_adjustment(&mut self, category: &str, value: u64)
        ensures
            old(self).weights().categories.contains(category@) ==> {
                &&& final(self).weights().version == old(self).weights().version
                &&& same_categories(old(self).weights(), final(self).weights())
                &&& (final(self).weights().weight)(category@) == value
                &&& forall|other: Seq<char>|
                    other != category@ ==> #[trigger] (final(self).weights().weight)(other) == (
                    old(self).weights().weight)(other)
            },
    ;
}

/// Whether a list of names holds `name`.
pub open spec fn listed(names: Seq<String>, name: Seq<char>) -> bool {
    exists|i: int| 0 <= i < names.len() && (#[trigger] names[i])@ == name
}

/// Whether a category has had enough corrections for its weight to move.
pub open spec fn due(
    features: Map<Seq<char>, CategoryView>,
    category: Seq<char>,
    min_corrections: usize,
) -> bool {
    features.contains_key(category) && features[category].corrections >= min_corrections
}

/// The share of wrong predictions of a category, as numerator and denominator.
/// Of a category without signals it is zero.
pub open spec fn correction_rate(f: CategoryView) -> (usize, usize) {
    if f.total > 0 {
        (f.corrections as usize, f.total as usize)
    } else {
        (0, 1)
    }
}

/// Whether `after` is what the features teach `before`: the next version, with
/// one step of `step` taken by the weight of every category of the model that is
/// due, and all other weights as they were.
///
/// `step` is given the weight, the learning rate, and the correction rate as
/// numerator and denominator.
pub open spec fn learned<K: Fn(u64, u64, usize, usize) -> u64>(
    before: WeightsView,
    after: WeightsView,
    features: Map<Seq<char>, CategoryView>,
    min_corrections: usize,
    learning_rate: u64,
    step: K,
) -> bool {
    &&& after.version == before.version + 1
    &&& same_categories(before, after)
    &&& forall|category: Seq<char>|
        if before.categories.contains(category) && due(features, category, min_corrections) {
            call_ensures(
                step,
                (
                    (before.weight)(category),
                    learning_rate,
                    correction_rate(features[category]).0,
                    correction_rate(features[category]).1,
                ),
                #[trigger] (after.weight)(category),
            )
        } else {
            (after.weight)(category) == (before.weight)(category)
        }
}

/// Apply learned weight updates to a model based on extracted features.
///
/// Only categories with enough corrections move (`min_corrections_for_update`).
/// The arithmetic of one move is `step`'s.
pub fn learn_weights<M: WeightModel, K: Fn(u64, u64, usize, usize) -> u64>(
    model: &M,
    features: &SignalFeatures,
    config: &RetrainConfig,
    step: &K,
) -> (r: M)
    requires
        model.weights().version < u64::MAX,
        forall|weight: u64, rate: u64, wrong: usize, total: usize|
            total > 0 ==> call_requires(*step, (weight, rate, wrong, total)),
    ensures
        learned(
            model.weights(),
            r.weights(),
            features@,
            config.min_corrections_for_update,
            config.learning_rate,
            *step,
        ),
{
    let mut updated = model.clone();
    proof {
        M::clone_is_faithful(*model, updated);
    }
    updated.set_version(model.version() + 1);
    let categories = model.categories();
    let ghost map = features@;
    let ghost min = config.min_corrections_for_update;
    let mut i: usize = 0;
    while i < categories.len()
        invariant
            i <= categories@.len(),
            map == features@,
            min == config.min_corrections_for_update,
            forall|weight: u64, rate: u64, wrong: usize, total: usize|
                total > 0 ==> call_requires(*step, (weight, rate, wrong, total)),
            forall|category: Seq<char>| #[trigger]
                model.weights().categories.contains(category) <==> listed(categories@, category),
            updated.weights().version == model.weights().version + 1,
            same_categories(model.weights(), updated.weights()),
            forall|category: Seq<char>|
                if listed(categories@.take(i as int), category) && due(map, category, min) {
                    call_ensures(
                        *step,
                        (
                            (model.weights().weight)(category),
                            config.learning_rate,
                            correction_rate(map[category]).0,
                            correction_rate(map[category]).1,
                        ),
                        #[trigger] (updated.weights().weight)(category),
                    )
                } else {
                    (updated.weights().weight)(category) == (model.weights().weight)(category)
                },
        decreases categories@.len() - i,
    {
        let category = categories[i].as_str();
        let ghost before = updated;
        proof {
            let seen = categories@.take(i as int);
            let more = categories@.take(i + 1);
            assert(listed(categories@, category@)) by {
                assert(categories@[i as int]@ == category@);
            }
            assert(model.weights().categories.contains(category@));
            assert forall|name: Seq<char>| #[trigger] listed(more, name) == (listed(seen, name)
                || name == category@) by {
                if listed(seen, name) {
                    let k = choose|k: int| 0 <= k < seen.len() && (#[trigger] seen[k])@ == name;
                    assert(more[k]@ == name);
                }
                if name == category@ {
                    assert(more[i as int]@ == name);
                }
                if listed(more, name) {
                    let k = choose|k: int| 0 <= k < more.len() && (#[trigger] more[k])@ == name;
                    if k < i {
                        assert(seen[k]@ == name);
                    }
                }
            }
        }
        match features.category_signals.get(category) {
            Some(f) => {
                if f.corrections >= config.min_corrections_for_update {
                    let (wrong, total): (usize, usize) = if f.total > 0 {
                        (f.corrections, f.total)
                    } else {
                        (0, 1)
                    };
                    let current: u64 = model.adjustment(category);
                    let moved: u64 = step(current, config.learning_rate, wrong, total);
                    updated.set_adjustment(category, moved);
                }
            },
            None => {},
        }
        i = i + 1;
    }
    proof {
        assert(categories@.take(i as int) =~= categories@);
        assert forall|category: Seq<char>|
            if model.weights().categories.contains(category) && due(map, category, min) {
                call_ensures(
                    *step,
                    (
                        (model.weights().weight)(category),
                        config.learning_rate,
                        correction_rate(map[category]).0,
                        correction_rate(map[category]).1,
                    ),
                    #[trigger] (updated.weights().weight)(category),
                )
            } else {
                (updated.weights().weight)(category) == (model.weights().weight)(category)
            } by {
            assert(model.weights().categories.contains(category) <==> listed(categories@, category));
        }
    }
    updated
}

} // verus!
