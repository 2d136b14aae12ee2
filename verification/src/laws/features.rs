//! What feature extraction is for.

use vstd::prelude::*;

use super::places::{lemma_filter_counts, lemma_filter_listing};
use crate::retrain::features::{extract_features, SignalFeatures};
use crate::signals::{signals_view, SignalView, TrainingSignal};

verus! {

/// Every signal of a batch counts, however long the batch: a category is there
/// if and only if some signal predicts it or is corrected to it; it has as many
/// corrections as there are signals that predict it and are corrected to another,
/// and as many correct ones as there are signals whose corrected label it is.
pub proof fn every_signal_of_a_batch_counts(
    signals: &[TrainingSignal],
    r: SignalFeatures,
    category: Seq<char>,
)
    requires
        call_ensures(extract_features, (signals,), r),
    ensures
        r.total == signals@.len(),
        r.category_signals@.contains_key(category) <==> exists|i: int|
            0 <= i < signals@.len() && ((#[trigger] signals@[i]).predicted_label@ == category
                || signals@[i].corrected_label@ == category),
        r.category_signals@.contains_key(category) ==> {
            let f = r.category_signals@[category];
            &&& f.correct == Set::new(
                |i: int| 0 <= i < signals@.len() && signals@[i].corrected_label@ == category,
            ).len()
            &&& f.corrections == Set::new(
                |i: int|
                    0 <= i < signals@.len() && signals@[i].predicted_label@ == category
                        && signals@[i].corrected_label@ != category,
            ).len()
            &&& f.total == f.correct + f.corrections
        },
{
    let all = signals_view(signals@);
    assert(r@.contains_key(category) <==> r.category_signals@.contains_key(category));
    if exists|i: int|
        0 <= i < signals@.len() && ((#[trigger] signals@[i]).predicted_label@ == category
            || signals@[i].corrected_label@ == category) {
        let i = choose|i: int|
            0 <= i < signals@.len() && ((#[trigger] signals@[i]).predicted_label@ == category
                || signals@[i].corrected_label@ == category);
        assert(all[i] == signals@[i]@);
        assert(crate::retrain::features::involves(all[i], category));
        assert(r@.contains_key(category));
    }
    if r.category_signals@.contains_key(category) {
        let i = choose|i: int|
            0 <= i < all.len() && crate::retrain::features::involves(#[trigger] all[i], category);
        assert(all[i] == signals@[i]@);
        assert(r@[category] == r.category_signals@[category]@);
        let truth = |s: SignalView| s.corrected_label == category;
        let miss = |s: SignalView| s.predicted_label == category && s.corrected_label != category;
        lemma_filter_counts(all, truth);
        lemma_filter_counts(all, miss);
        assert(Set::new(|i: int| 0 <= i < all.len() && truth(all[i])) =~= Set::new(
            |i: int| 0 <= i < signals@.len() && signals@[i].corrected_label@ == category,
        ));
        assert(Set::new(|i: int| 0 <= i < all.len() && miss(all[i])) =~= Set::new(
            |i: int|
                0 <= i < signals@.len() && signals@[i].predicted_label@ == category
                    && signals@[i].corrected_label@ != category,
        ));
    }
}

/// The confidences of a category are those of its predictions, in the order of
/// the batch: the right ones in one list, the wrong ones in the other, and one
/// half for a prediction whose confidence is not known.
pub proof fn confidences_are_those_of_the_predictions(
    signals: &[TrainingSignal],
    r: SignalFeatures,
    category: Seq<char>,
) -> (places: (Seq<int>, Seq<int>))
    requires
        call_ensures(extract_features, (signals,), r),
        r.category_signals@.contains_key(category),
    ensures
        ({
            let (right, wrong) = places;
            let f = r.category_signals@[category];
            let known = |i: int|
                match signals@[i].original_confidence {
                    Some(bits) => bits,
                    None => 0x3f00_0000u32,
                };
            &&& forall|k: int, l: int| 0 <= k < l < right.len() ==> #[trigger] right[k]
                < #[trigger] right[l]
            &&& forall|k: int, l: int| 0 <= k < l < wrong.len() ==> #[trigger] wrong[k]
                < #[trigger] wrong[l]
            &&& forall|i: int| #[trigger]
                right.contains(i) <==> 0 <= i < signals@.len() && signals@[i].predicted_label@
                    == category && signals@[i].corrected_label@ == category
            &&& forall|i: int| #[trigger]
                wrong.contains(i) <==> 0 <= i < signals@.len() && signals@[i].predicted_label@
                    == category && signals@[i].corrected_label@ != category
            &&& f.correct_confidences@ == right.map_values(known)
            &&& f.incorrect_confidences@ == wrong.map_values(known)
        }),
{
    let all = signals_view(signals@);
    assert(r@.contains_key(category));
    assert(r@[category] == r.category_signals@[category]@);
    let hit = |s: SignalView| s.predicted_label == category && s.corrected_label == category;
    let miss = |s: SignalView| s.predicted_label == category && s.corrected_label != category;
    let right = lemma_filter_listing(all, hit);
    let wrong = lemma_filter_listing(all, miss);
    let known = |i: int|
        match signals@[i].original_confidence {
            Some(bits) => bits,
            None => 0x3f00_0000u32,
        };
    let f = r.category_signals@[category];
    assert(f.correct_confidences@ =~= right.map_values(known));
    assert(f.incorrect_confidences@ =~= wrong.map_values(known));
    assert forall|i: int| #[trigger] right.contains(i) implies 0 <= i < signals@.len()
        && signals@[i].predicted_label@ == category && signals@[i].corrected_label@
        == category by {
        let k = choose|k: int| 0 <= k < right.len() && right[k] == i;
        assert(hit(all[right[k]]));
    }
    assert forall|i: int|
        0 <= i < signals@.len() && signals@[i].predicted_label@ == category
            && signals@[i].corrected_label@ == category implies #[trigger] right.contains(i) by {
        assert(hit(all[i]));
    }
    assert forall|i: int| #[trigger] wrong.contains(i) implies 0 <= i < signals@.len()
        && signals@[i].predicted_label@ == category && signals@[i].corrected_label@
        != category by {
        let k = choose|k: int| 0 <= k < wrong.len() && wrong[k] == i;
        assert(miss(all[wrong[k]]));
    }
    assert forall|i: int|
        0 <= i < signals@.len() && signals@[i].predicted_label@ == category
            && signals@[i].corrected_label@ != category implies #[trigger] wrong.contains(i) by {
        assert(miss(all[i]));
    }
    (right, wrong)
}

} // verus!
