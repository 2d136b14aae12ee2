//! What learning is for.

use vstd::prelude::*;

use crate::retrain::config::RetrainConfig;
use crate::retrain::features::SignalFeatures;
use crate::retrain::table::WeightTable;
use crate::retrain::weights::{learn_weights, WeightModel};

verus! {

/// Every category that the model tracks, and that has at least as many
/// corrections as an update takes, moves: its new weight is what one step gives
/// for its old weight, the learning rate, its corrections and its total. A
/// category without a total has no corrections in one.
pub proof fn corrected_categories_move<M: WeightModel, K: Fn(u64, u64, usize, usize) -> u64>(
    model: &M,
    features: &SignalFeatures,
    config: &RetrainConfig,
    step: &K,
    r: M,
    category: Seq<char>,
)
    requires
        call_ensures(learn_weights::<M, K>, (model, features, config, step), r),
        model.weights().categories.contains(category),
        features.category_signals@.contains_key(category),
        features.category_signals@[category].corrections >= config.min_corrections_for_update,
    ensures
        ({
            let f = features.category_signals@[category];
            let old_weight = (model.weights().weight)(category);
            let new_weight = (r.weights().weight)(category);
            if f.total > 0 {
                call_ensures(
                    *step,
                    (old_weight, config.learning_rate, f.corrections, f.total),
                    new_weight,
                )
            } else {
                call_ensures(*step, (old_weight, config.learning_rate, 0, 1), new_weight)
            }
        }),
{
    assert(features@.contains_key(category));
    assert(features@[category] == features.category_signals@[category]@);
    assert((r.weights().weight)(category) == (r.weights().weight)(category));
}

/// Every other weight stays: that of a category that the model does not track,
/// that no signal of the batch involves, or that has fewer corrections than an
/// update takes.
pub proof fn other_weights_stay<M: WeightModel, K: Fn(u64, u64, usize, usize) -> u64>(
    model: &M,
    features: &SignalFeatures,
    config: &RetrainConfig,
    step: &K,
    r: M,
    category: Seq<char>,
)
    requires
        call_ensures(learn_weights::<M, K>, (model, features, config, step), r),
        !model.weights().categories.contains(category)
            || !features.category_signals@.contains_key(category)
            || features.category_signals@[category].corrections
            < config.min_corrections_for_update,
    ensures
        (r.weights().weight)(category) == (model.weights().weight)(category),
{
    assert(features@.contains_key(category) <==> features.category_signals@.contains_key(
        category,
    ));
    if features@.contains_key(category) {
        assert(features@[category] == features.category_signals@[category]@);
    }
}

/// Learning makes the next version of the same categories.
pub proof fn learning_makes_the_next_version<
    M: WeightModel,
    K: Fn(u64, u64, usize, usize) -> u64,
>(model: &M, features: &SignalFeatures, config: &RetrainConfig, step: &K, r: M)
    requires
        call_ensures(learn_weights::<M, K>, (model, features, config, step), r),
    ensures
        r.weights().version == model.weights().version + 1,
        r.weights().categories == model.weights().categories,
        r.weights().listing_len == model.weights().listing_len,
{
}

/// A table tells the weight that it holds for a category, and one for a category
/// that it does not hold.
pub proof fn a_table_tells_what_it_holds(
    table: &WeightTable,
    category: &str,
    weight: u64,
    version: u64,
    names: Vec<String>,
)
    requires
        call_ensures(WeightTable::adjustment, (table, category), weight),
        call_ensures(WeightTable::version, (table,), version),
        call_ensures(WeightTable::categories, (table,), names),
    ensures
        version == table.version,
        table.adjustments@.contains_key(category@) ==> weight == table.adjustments@[category@],
        !table.adjustments@.contains_key(category@) ==> weight == 0x3ff0_0000_0000_0000,
        table.adjustments@.contains_key(category@) <==> exists|i: int|
            0 <= i < names@.len() && (#[trigger] names@[i])@ == category@,
{
    assert(table.weights().categories.contains(category@) <==> crate::retrain::weights::listed(
        names@,
        category@,
    ));
}

/// A table tells what it was last told, and changes nothing else on that
/// account.
pub proof fn a_table_keeps_what_it_is_told(
    table: &mut WeightTable,
    category: &str,
    value: u64,
    other: &str,
    told: u64,
    versioned: &mut WeightTable,
    version: u64,
)
    requires
        call_ensures(WeightTable::set_adjustment, (table, category, value), ()),
        call_ensures(WeightTable::adjustment, (&*final(table), other), told),
        call_ensures(WeightTable::set_version, (versioned, version), ()),
    ensures
        other@ == category@ ==> told == value,
        other@ != category@ && old(table).adjustments@.contains_key(other@) ==> told == old(
            table,
        ).adjustments@[other@],
        other@ != category@ && !old(table).adjustments@.contains_key(other@) ==> told
            == 0x3ff0_0000_0000_0000,
        final(table).version == old(table).version,
        final(versioned).version == version,
        final(versioned).adjustments@ == old(versioned).adjustments@,
{
}

} // verus!
