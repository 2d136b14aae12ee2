//! What a batch of correction signals says about every category.

use vstd::prelude::*;

use crate::name_map::NameMap;
use crate::signals::{signals_view, SignalView, TrainingSignal};

verus! {

/// The confidence that stands for an unknown one: one half, as the bits of an
/// IEEE 754 single.
pub const UNKNOWN_CONFIDENCE: u32 = 0x3f00_0000;

/// Extracted features from a batch of training signals.
#[derive(Debug, Clone)]
pub struct SignalFeatures {
    /// Total signals in the batch.
    pub total: usize,
    /// Per-category signal counts and confidences.
    pub category_signals: NameMap<CategoryFeatures>,
}

/// Features for a single category.
#[derive(Debug, Clone)]
pub struct CategoryFeatures {
    /// Total signals where this category was involved.
    pub total: usize,
    /// Signals whose true label is this category.
    pub correct: usize,
    /// Signals where the model predicted this category wrongly.
    pub corrections: usize,
    /// Confidences of the correct predictions of this category, in batch order.
    /// A signal whose true label is this category, but which was predicted
    /// otherwise, counts under `correct` and has no confidence here, so that the
    /// list can be shorter than `correct`.
    pub correct_confidences: Vec<u32>,
    /// Confidences of the wrong predictions of this category, in batch order:
    /// one for every signal counted under `corrections`.
    pub incorrect_confidences: Vec<u32>,
}

/// What [`CategoryFeatures`] says.
#[verifier::ext_equal]
pub struct CategoryView {
    pub total: nat,
    pub correct: nat,
    pub corrections: nat,
    pub correct_confidences: Seq<u32>,
    pub incorrect_confidences: Seq<u32>,
}

impl View for CategoryFeatures {
    type V = CategoryView;

    open spec fn view(&self) -> CategoryView {
        CategoryView {
            total: self.total as nat,
            correct: self.correct as nat,
            corrections: self.corrections as nat,
            correct_confidences: self.correct_confidences@,
            incorrect_confidences: self.incorrect_confidences@,
        }
    }
}

/// The confidence of a signal, where an unknown one counts as one half.
pub open spec fn confidence_of(s: SignalView) -> u32 {
    match s.original_confidence {
        Some(c) => c,
        None => UNKNOWN_CONFIDENCE,
    }
}

/// Whether `s` involves `category`, as prediction or as truth.
pub open spec fn involves(s: SignalView, category: Seq<char>) -> bool {
    s.predicted_label == category || s.corrected_label == category
}

/// The signals whose true label is `category`.
pub open spec fn truths(signals: Seq<SignalView>, category: Seq<char>) -> Seq<SignalView> {
    signals.filter(|s: SignalView| s.corrected_label == category)
}

/// The signals in which the model said `category` and was right.
pub open spec fn hits(signals: Seq<SignalView>, category: Seq<char>) -> Seq<SignalView> {
    signals.filter(|s: SignalView| s.predicted_label == category && s.corrected_label == category)
}

/// The signals in which the model said `category` and was wrong.
pub open spec fn misses(signals: Seq<SignalView>, category: Seq<char>) -> Seq<SignalView> {
    signals.filter(|s: SignalView| s.predicted_label == category && s.corrected_label != category)
}

/// The features of `category` in a batch of signals.
pub open spec fn category_features(
    signals: Seq<SignalView>,
    category: Seq<char>,
) -> CategoryView {
    CategoryView {
        total: truths(signals, category).len() + misses(signals, category).len(),
        correct: truths(signals, category).len(),
        corrections: misses(signals, category).len(),
        correct_confidences: hits(signals, category).map_values(
            |s: SignalView| confidence_of(s),
        ),
        incorrect_confidences: misses(signals, category).map_values(
            |s: SignalView| confidence_of(s),
        ),
    }
}

/// Whether some signal of the batch involves `category`.
pub open spec fn mentioned(signals: Seq<SignalView>, category: Seq<char>) -> bool {
    exists|i: int| 0 <= i < signals.len() && involves(#[trigger] signals[i], category)
}

/// The features of every category that a batch mentions.
pub open spec fn batch_features(signals: Seq<SignalView>) -> Map<Seq<char>, CategoryView> {
    Map::new(
        |category: Seq<char>| mentioned(signals, category),
        |category: Seq<char>| category_features(signals, category),
    )
}

impl View for SignalFeatures {
    type V = Map<Seq<char>, CategoryView>;

    open spec fn view(&self) -> Map<Seq<char>, CategoryView> {
        self.category_signals@.map_values(|f: CategoryFeatures| f@)
    }
}

/// Whether `m` holds the features of every category that a batch mentions, and
/// of no other.
spec fn describes(m: Map<Seq<char>, CategoryFeatures>, signals: Seq<SignalView>) -> bool {
    &&& forall|category: Seq<char>| #[trigger]
        m.contains_key(category) <==> mentioned(signals, category)
    &&& forall|category: Seq<char>| #[trigger]
        m.contains_key(category) ==> m[category]@ == category_features(signals, category)
}

/// What one more signal does to the features of a category.
proof fn lemma_features_push(signals: Seq<SignalView>, s: SignalView, category: Seq<char>)
    ensures
        mentioned(signals.push(s), category) == (mentioned(signals, category) || involves(
            s,
            category,
        )),
        category_features(signals.push(s), category) == ({
            let before = category_features(signals, category);
            if s.corrected_label == category {
                CategoryView {
                    total: before.total + 1,
                    correct: before.correct + 1,
                    correct_confidences: if s.predicted_label == category {
                        before.correct_confidences.push(confidence_of(s))
                    } else {
                        before.correct_confidences
                    },
                    ..before
                }
            } else if s.predicted_label == category {
                CategoryView {
                    total: before.total + 1,
                    corrections: before.corrections + 1,
                    incorrect_confidences: before.incorrect_confidences.push(confidence_of(s)),
                    ..before
                }
            } else {
                before
            }
        }),
{
    let more = signals.push(s);
    signals.lemma_filter_push(s, |s: SignalView| s.corrected_label == category);
    signals.lemma_filter_push(
        s,
        |s: SignalView| s.predicted_label == category && s.corrected_label == category,
    );
    signals.lemma_filter_push(
        s,
        |s: SignalView| s.predicted_label == category && s.corrected_label != category,
    );
    if mentioned(signals, category) {
        let i = choose|i: int| 0 <= i < signals.len() && involves(#[trigger] signals[i], category);
        assert(involves(more[i], category));
    }
    if involves(s, category) {
        assert(involves(more[signals.len() as int], category));
    }
    if mentioned(more, category) && !involves(s, category) {
        let i = choose|i: int| 0 <= i < more.len() && involves(#[trigger] more[i], category);
        assert(involves(signals[i], category));
    }
}

/// A category that no signal mentions has nothing counted.
proof fn lemma_unmentioned(signals: Seq<SignalView>, category: Seq<char>)
    requires
        !mentioned(signals, category),
    ensures
        category_features(signals, category) == (CategoryView {
            total: 0,
            correct: 0,
            corrections: 0,
            correct_confidences: seq![],
            incorrect_confidences: seq![],
        }),
    decreases signals.len(),
{
    if signals.len() > 0 {
        let rest = signals.drop_last();
        assert(signals =~= rest.push(signals.last()));
        lemma_features_push(rest, signals.last(), category);
        lemma_unmentioned(rest, category);
    }
}

/// No category counts more signals than the batch has.
proof fn lemma_total_bound(signals: Seq<SignalView>, category: Seq<char>)
    ensures
        category_features(signals, category).total <= signals.len(),
    decreases signals.len(),
{
    if signals.len() > 0 {
        let rest = signals.drop_last();
        assert(signals =~= rest.push(signals.last()));
        lemma_features_push(rest, signals.last(), category);
        lemma_total_bound(rest, category);
    }
}

/// What a signal is to a category that it involves.
#[derive(Clone, Copy, PartialEq, Eq, Structural)]
enum Involvement {
    /// A correct prediction of the category.
    Hit,
    /// The category was true, and another one was predicted.
    Truth,
    /// A wrong prediction of the category.
    Miss,
}

/// Counts one signal for `category`.
fn count_for(
    map: &mut NameMap<CategoryFeatures>,
    category: &String,
    involvement: Involvement,
    confidence: u32,
)
    requires
        old(map)@.contains_key(category@) ==> old(map)@[category@].total < usize::MAX
            && old(map)@[category@].correct < usize::MAX && old(map)@[category@].corrections
            < usize::MAX,
    ensures
        final(map)@.dom() == old(map)@.dom().insert(category@),
        forall|other: Seq<char>|
            other != category@ && #[trigger] old(map)@.contains_key(other) ==> final(map)@[other]
                == old(map)@[other],
        ({
            let before = if old(map)@.contains_key(category@) {
                old(map)@[category@]@
            } else {
                CategoryView {
                    total: 0,
                    correct: 0,
                    corrections: 0,
                    correct_confidences: seq![],
                    incorrect_confidences: seq![],
                }
            };
            final(map)@[category@]@ == match involvement {
                Involvement::Hit => CategoryView {
                    total: before.total + 1,
                    correct: before.correct + 1,
                    correct_confidences: before.correct_confidences.push(confidence),
                    ..before
                },
                Involvement::Truth => CategoryView {
                    total: before.total + 1,
                    correct: before.correct + 1,
                    ..before
                },
                Involvement::Miss => CategoryView {
                    total: before.total + 1,
                    corrections: before.corrections + 1,
                    incorrect_confidences: before.incorrect_confidences.push(confidence),
                    ..before
                },
            }
        }),
{
    let mut entry = match map.remove(category.as_str()) {
        Some(entry) => entry,
        None => CategoryFeatures {
            total: 0,
            correct: 0,
            corrections: 0,
            correct_confidences: Vec::new(),
            incorrect_confidences: Vec::new(),
        },
    };
    entry.total = entry.total + 1;
    match involvement {
        Involvement::Hit => {
            entry.correct = entry.correct + 1;
            entry.correct_confidences.push(confidence);
        },
        Involvement::Truth => {
            entry.correct = entry.correct + 1;
        },
        Involvement::Miss => {
            entry.corrections = entry.corrections + 1;
            entry.incorrect_confidences.push(confidence);
        },
    }
    map.insert(category.clone(), entry);
    assert(map@.dom() =~= old(map)@.dom().insert(category@));
}

/// Extract features from a batch of training signals.
///
/// This is domain-agnostic: it groups by predicted and corrected labels and
/// counts truths and corrections, with the confidences of the predictions.
pub fn extract_features(signals: &[TrainingSignal]) -> (r: SignalFeatures)
    ensures
        r.total == signals@.len(),
        r@ == batch_features(signals_view(signals@)),
{
    let mut map: NameMap<CategoryFeatures> = NameMap::new();
    let mut i: usize = 0;
    let ghost all = signals_view(signals@);
    assert(describes(map@, all.take(0)));
    while i < signals.len()
        invariant
            i <= signals@.len(),
            all == signals_view(signals@),
            describes(map@, all.take(i as int)),
        decreases signals@.len() - i,
    {
        let signal = &signals[i];
        let ghost s = signal@;
        let ghost seen = all.take(i as int);
        let ghost p = s.predicted_label;
        let ghost c = s.corrected_label;
        proof {
            assert(all[i as int] == s);
            assert(all.take(i + 1) =~= seen.push(s));
            lemma_total_bound(seen, p);
            lemma_total_bound(seen, c);
            if !mentioned(seen, p) {
                lemma_unmentioned(seen, p);
            }
            if !mentioned(seen, c) {
                lemma_unmentioned(seen, c);
            }
        }
        let is_correct = signal.predicted_label == signal.corrected_label;
        let confidence: u32 = match signal.original_confidence {
            Some(c) => c,
            None => UNKNOWN_CONFIDENCE,
        };
        let ghost before = map@;
        let said = if is_correct {
            Involvement::Hit
        } else {
            Involvement::Miss
        };
        count_for(&mut map, &signal.predicted_label, said, confidence);
        let ghost between = map@;
        if !is_correct {
            count_for(&mut map, &signal.corrected_label, Involvement::Truth, confidence);
        }
        proof {
            let more = seen.push(s);
            assert forall|k: Seq<char>| #[trigger] map@.contains_key(k) <==> mentioned(
                more,
                k,
            ) by {
                lemma_features_push(seen, s, k);
                assert(before.contains_key(k) <==> mentioned(seen, k));
            }
            assert forall|k: Seq<char>| #[trigger] map@.contains_key(k) implies map@[k]@
                == category_features(more, k) by {
                lemma_features_push(seen, s, k);
                if before.contains_key(k) {
                    assert(before[k]@ == category_features(seen, k));
                }
                if k != p {
                    assert(between.contains_key(k) <==> before.contains_key(k));
                }
            }
        }
        i = i + 1;
    }
    assert(all.take(i as int) =~= all);
    let r = SignalFeatures { total: signals.len(), category_signals: map };
    proof {
        assert forall|k: Seq<char>| #[trigger] r@.contains_key(k) <==> batch_features(
            all,
        ).contains_key(k) by {
            assert(map@.contains_key(k) <==> mentioned(all, k));
        }
        assert(r@ =~= batch_features(all));
    }
    r
}

/// Every signal that involves a category is counted there once, as a truth or
/// as a wrong prediction.
pub proof fn every_involvement_counts_once(signals: Seq<SignalView>, category: Seq<char>)
    ensures
        category_features(signals, category).total == signals.filter(
            |s: SignalView| involves(s, category),
        ).len(),
    decreases signals.len(),
{
    let p = |s: SignalView| involves(s, category);
    if signals.len() == 0 {
        signals.lemma_filter_len(p);
        signals.lemma_filter_len(|s: SignalView| s.corrected_label == category);
        signals.lemma_filter_len(
            |s: SignalView| s.predicted_label == category && s.corrected_label != category,
        );
    } else {
        let rest = signals.drop_last();
        assert(signals =~= rest.push(signals.last()));
        every_involvement_counts_once(rest, category);
        lemma_features_push(rest, signals.last(), category);
        rest.lemma_filter_push(signals.last(), p);
    }
}

/// The counts of two batches add up, and their confidences follow each other,
/// when one batch is put behind the other.
pub proof fn features_of_joined_batches(
    first: Seq<SignalView>,
    second: Seq<SignalView>,
    category: Seq<char>,
)
    ensures
        ({
            let a = category_features(first, category);
            let b = category_features(second, category);
            category_features(first + second, category) == (CategoryView {
                total: a.total + b.total,
                correct: a.correct + b.correct,
                corrections: a.corrections + b.corrections,
                correct_confidences: a.correct_confidences + b.correct_confidences,
                incorrect_confidences: a.incorrect_confidences + b.incorrect_confidences,
            })
        }),
{
    Seq::filter_distributes_over_add(
        first,
        second,
        |s: SignalView| s.corrected_label == category,
    );
    Seq::filter_distributes_over_add(
        first,
        second,
        |s: SignalView| s.predicted_label == category && s.corrected_label == category,
    );
    Seq::filter_distributes_over_add(
        first,
        second,
        |s: SignalView| s.predicted_label == category && s.corrected_label != category,
    );
    let a = category_features(first, category);
    let b = category_features(second, category);
    assert(category_features(first + second, category).correct_confidences
        =~= a.correct_confidences + b.correct_confidences);
    assert(category_features(first + second, category).incorrect_confidences
        =~= a.incorrect_confidences + b.incorrect_confidences);
}

} // verus!
