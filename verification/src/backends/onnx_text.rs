//! Backend for string-input ONNX models.
//!
//! These models accept raw text as a string tensor. Two output formats are
//! understood:
//!
//! - a string label and a map from labels to probabilities;
//! - the index of a label and a tensor of probabilities.
//!
//! Running the model is the caller's part: the backend decides what goes in and
//! reads what comes out.

use std::collections::HashMap;

use vstd::prelude::*;
use vstd::string::*;

use crate::model::{Failure, ModelInput, Verdict};
use crate::name_map::{entries_map, NameMap};
use crate::text::{
    i64_of_text, parse_i64, signed_decimal, signed_decimal_reads_back, signed_decimal_text,
};

verus! {

broadcast use vstd::std_specs::hash::group_hash_axioms;

/// `serde_json::Error`: why a text is not the JSON that was wanted. Nothing is
/// claimed of what is inside.
#[verifier::external_type_specification]
#[verifier::external_body]
pub struct ExJsonError(serde_json::Error);

/// One, as the bits of an IEEE 754 single.
pub const ONE: u32 = 0x3f80_0000;

/// Zero, as the bits of an IEEE 754 single.
pub const ZERO: u32 = 0;

/// Why a label map could not be read.
#[derive(Debug)]
pub enum LabelsError {
    /// The text is not a JSON object of strings.
    Json(serde_json::Error),
}

impl LabelsError {
    /// The error in words.
    pub fn message(&self) -> (r: String)
        ensures
            r@ == "failed to parse label map JSON"@,
    {
        "failed to parse label map JSON".to_owned()
    }
}

/// What the first output of a model holds.
#[derive(Debug)]
pub enum LabelOutput {
    /// Strings.
    Names(Vec<String>),
    /// An integer tensor, by its first element.
    Index(i64),
    /// Anything else.
    Other,
}

/// What the second output of a model holds. Probabilities are the bits of
/// IEEE 754 singles.
#[derive(Debug)]
pub enum ScoreOutput {
    /// A probability for every label of a list. Of several for one label, the
    /// last counts.
    ByName(Vec<(String, u32)>),
    /// A probability for every index.
    ByIndex(Vec<u32>),
    /// Nothing that can be read, or no second output.
    Missing,
}

/// The outputs of a model.
#[derive(Debug)]
pub struct InferenceOutputs {
    /// The first output.
    pub label: LabelOutput,
    /// The second output.
    pub scores: ScoreOutput,
}

/// Backend for text classification models.
///
/// Expects models with a string input tensor. Detects the output format (string
/// labels or label indices).
#[derive(Debug)]
pub struct OnnxTextBackend {
    labels: HashMap<i64, String>,
    min_confidence: u32,
}

/// The object of strings that a JSON text writes, as the crate `serde_json`
/// reads it, if it writes one.
pub uninterp spec fn json_string_map(json: Seq<char>) -> Option<Map<Seq<char>, Seq<char>>>;

/// Whether `pairs` lists every entry of `m` once and nothing else.
pub open spec fn pairs_of(
    pairs: Seq<(String, String)>,
    m: Map<Seq<char>, Seq<char>>,
) -> bool {
    &&& forall|i: int, j: int|
        0 <= i < j < pairs.len() ==> (#[trigger] pairs[i]).0@ != (#[trigger] pairs[j]).0@
    &&& forall|i: int|
        0 <= i < pairs.len() ==> m.contains_pair((#[trigger] pairs[i]).0@, pairs[i].1@)
    &&& forall|key: Seq<char>| #[trigger]
        m.contains_key(key) ==> exists|i: int|
            0 <= i < pairs.len() && (#[trigger] pairs[i]).0@ == key
}

/// `serde_json::from_str` into a hash map from strings to strings, listed in no
/// particular order. What object a text writes is named by
/// [`json_string_map`]: nothing is claimed of it but that it depends on the text
/// alone.
#[verifier::external_body]
fn parse_string_map(json: &str) -> (r: Result<Vec<(String, String)>, serde_json::Error>)
    ensures
        match r {
            Ok(pairs) => json_string_map(json@) matches Some(m) && pairs_of(pairs@, m),
            Err(_) => json_string_map(json@) is None,
        },
{
    let map: HashMap<String, String> = serde_json::from_str(json)?;
    Ok(map.into_iter().collect())
}

/// The labels in a list of entries: those whose key is a decimal integer. Of
/// several for one integer, the last counts.
pub open spec fn labels_of(pairs: Seq<(String, String)>) -> Map<i64, Seq<char>>
    decreases pairs.len(),
{
    if pairs.len() == 0 {
        Map::empty()
    } else {
        match i64_of_text(pairs.last().0@) {
            Some(i) => labels_of(pairs.drop_last()).insert(i, pairs.last().1@),
            None => labels_of(pairs.drop_last()),
        }
    }
}

/// Whether `labels` are the labels that an object of strings writes: those
/// whose key is a decimal integer. Where several keys write one integer, one of
/// them counts.
pub open spec fn labels_from(m: Map<Seq<char>, Seq<char>>, labels: Map<i64, String>) -> bool {
    &&& forall|key: Seq<char>| #[trigger]
        m.contains_key(key) && i64_of_text(key) is Some ==> labels.contains_key(
            i64_of_text(key)->0,
        )
    &&& forall|i: i64| #[trigger]
        labels.contains_key(i) ==> exists|key: Seq<char>| #[trigger]
            m.contains_key(key) && i64_of_text(key) == Some(i) && m[key] == labels[i]@
}

/// The labels in a list of entries are those of the object that it lists.
proof fn lemma_labels_of(pairs: Seq<(String, String)>)
    ensures
        forall|k: int|
            0 <= k < pairs.len() && i64_of_text((#[trigger] pairs[k]).0@) is Some ==> labels_of(
                pairs,
            ).contains_key(i64_of_text(pairs[k].0@)->0),
        forall|i: i64| #[trigger]
            labels_of(pairs).contains_key(i) ==> exists|k: int|
                0 <= k < pairs.len() && i64_of_text((#[trigger] pairs[k]).0@) == Some(i)
                    && pairs[k].1@ == labels_of(pairs)[i],
    decreases pairs.len(),
{
    if pairs.len() > 0 {
        let rest = pairs.drop_last();
        lemma_labels_of(rest);
        assert forall|k: int|
            0 <= k < pairs.len() && i64_of_text((#[trigger] pairs[k]).0@) is Some implies labels_of(
            pairs,
        ).contains_key(i64_of_text(pairs[k].0@)->0) by {
            if k < rest.len() {
                assert(rest[k] == pairs[k]);
            }
        }
        assert forall|i: i64| #[trigger] labels_of(pairs).contains_key(i) implies exists|k: int|
            0 <= k < pairs.len() && i64_of_text((#[trigger] pairs[k]).0@) == Some(i)
                && pairs[k].1@ == labels_of(pairs)[i] by {
            if i64_of_text(pairs.last().0@) == Some(i) {
                assert(pairs[pairs.len() - 1] == pairs.last());
            } else {
                assert(labels_of(rest).contains_key(i));
                let k = choose|k: int|
                    0 <= k < rest.len() && i64_of_text((#[trigger] rest[k]).0@) == Some(i)
                        && rest[k].1@ == labels_of(rest)[i];
                assert(pairs[k] == rest[k]);
            }
        }
    }
}

/// Picks the labels out of a list of entries.
pub fn labels_from_entries(pairs: Vec<(String, String)>) -> (r: HashMap<i64, String>)
    ensures
        r@.map_values(|label: String| label@) == labels_of(pairs@),
{
    let mut labels: HashMap<i64, String> = HashMap::new();
    let mut i: usize = 0;
    assert(labels@.map_values(|label: String| label@) =~= labels_of(pairs@.take(0)));
    while i < pairs.len()
        invariant
            i <= pairs@.len(),
            labels@.map_values(|label: String| label@) == labels_of(pairs@.take(i as int)),
        decreases pairs@.len() - i,
    {
        assert(pairs@.take(i + 1).drop_last() =~= pairs@.take(i as int));
        match parse_i64(pairs[i].0.as_str()) {
            Some(index) => {
                let ghost before = labels@;
                labels.insert(index, pairs[i].1.clone());
                assert(labels@.map_values(|label: String| label@) =~= before.map_values(
                    |label: String| label@,
                ).insert(index, pairs@[i as int].1@));
            },
            None => {},
        }
        i = i + 1;
    }
    assert(pairs@.take(i as int) =~= pairs@);
    labels
}

/// The text of the label with the given index.
pub open spec fn label_of_index(labels: Map<i64, String>, index: i64) -> Seq<char> {
    if labels.contains_key(index) {
        labels[index]@
    } else {
        "class_"@ + signed_decimal(index as int)
    }
}

/// The probabilities of the labels, by the probabilities of their indices.
/// Where several indices have the same label, the highest of them counts.
pub open spec fn scores_by_index(labels: Map<i64, String>, scores: Seq<u32>) -> Map<Seq<char>, u32>
    decreases scores.len(),
{
    if scores.len() == 0 {
        Map::empty()
    } else {
        let rest = scores_by_index(labels, scores.drop_last());
        let i = scores.len() - 1;
        if i <= i64::MAX && labels.contains_key(i as i64) {
            rest.insert(labels[i as i64]@, scores.last())
        } else {
            rest
        }
    }
}

/// `scores`, or certainty about `label` where there are none.
pub open spec fn or_certain(scores: Map<Seq<char>, u32>, label: Seq<char>) -> Map<Seq<char>, u32> {
    if scores == Map::<Seq<char>, u32>::empty() {
        Map::empty().insert(label, ONE)
    } else {
        scores
    }
}

/// The label and the probabilities that the outputs of a model say, if its
/// first output is a label.
pub open spec fn reading(labels: Map<i64, String>, outputs: InferenceOutputs) -> Option<
    (Seq<char>, Map<Seq<char>, u32>),
> {
    match outputs.label {
        LabelOutput::Names(names) => {
            let label = if names@.len() > 0 {
                names@[0]@
            } else {
                seq![]
            };
            let scores = match outputs.scores {
                ScoreOutput::ByName(pairs) => entries_map(pairs@),
                _ => Map::empty(),
            };
            Some((label, or_certain(scores, label)))
        },
        LabelOutput::Index(index) => {
            let label = label_of_index(labels, index);
            let scores = match outputs.scores {
                ScoreOutput::ByIndex(scores) => scores_by_index(labels, scores@),
                _ => Map::empty(),
            };
            Some((label, or_certain(scores, label)))
        },
        LabelOutput::Other => None,
    }
}

/// Puts a list of probabilities in a map.
fn map_of_pairs(pairs: &Vec<(String, u32)>) -> (r: NameMap<u32>)
    ensures
        r@ == entries_map(pairs@),
{
    let mut map: NameMap<u32> = NameMap::new();
    let mut i: usize = 0;
    while i < pairs.len()
        invariant
            i <= pairs@.len(),
            map@ == entries_map(pairs@.take(i as int)),
        decreases pairs@.len() - i,
    {
        assert(pairs@.take(i + 1).drop_last() =~= pairs@.take(i as int));
        map.insert(pairs[i].0.clone(), pairs[i].1);
        i = i + 1;
    }
    assert(pairs@.take(i as int) =~= pairs@);
    map
}

/// Puts the probabilities of indices in a map by their labels.
fn map_of_tensor(labels: &HashMap<i64, String>, scores: &Vec<u32>) -> (r: NameMap<u32>)
    ensures
        r@ == scores_by_index(labels@, scores@),
{
    let mut map: NameMap<u32> = NameMap::new();
    let mut i: usize = 0;
    while i < scores.len()
        invariant
            i <= scores@.len(),
            map@ == scores_by_index(labels@, scores@.take(i as int)),
        decreases scores@.len() - i,
    {
        assert(scores@.take(i + 1).drop_last() =~= scores@.take(i as int));
        assert(scores@.take(i + 1).last() == scores@[i as int]);
        if i as u64 <= 0x7fff_ffff_ffff_ffff {
            match labels.get(&(i as i64)) {
                Some(label) => {
                    map.insert(label.clone(), scores[i]);
                },
                None => {},
            }
        }
        i = i + 1;
    }
    assert(scores@.take(i as int) =~= scores@);
    map
}

/// Adds certainty about `label` where there are no probabilities.
fn add_certainty(scores: NameMap<u32>, label: &String) -> (r: NameMap<u32>)
    ensures
        r@ == or_certain(scores@, label@),
{
    let mut r = scores;
    if r.is_empty() {
        r.insert(label.clone(), ONE);
    }
    r
}

impl OnnxTextBackend {
    /// The label map.
    pub closed spec fn label_map(&self) -> Map<i64, String> {
        self.labels@
    }

    /// The minimum confidence.
    pub closed spec fn threshold(&self) -> u32 {
        self.min_confidence
    }

    /// A backend for a model with the given labels and minimum confidence.
    pub fn new(labels: HashMap<i64, String>, min_confidence: u32) -> (r: Self)
        ensures
            r.label_map() == labels@,
            r.threshold() == min_confidence,
    {
        OnnxTextBackend { labels, min_confidence }
    }

    /// Load labels from JSON: `{"0": "label_a", "1": "label_b", ...}`. Keys
    /// that are not decimal integers are passed over.
    pub fn load_labels(json: &str) -> (r: Result<HashMap<i64, String>, LabelsError>)
        ensures
            match json_string_map(json@) {
                Some(m) => r matches Ok(labels) && labels_from(m, labels@),
                None => r is Err,
            },
    {
        match parse_string_map(json) {
            Ok(pairs) => {
                let ghost listed = pairs@;
                let labels = labels_from_entries(pairs);
                proof {
                    let m = json_string_map(json@)->0;
                    let views = labels@.map_values(|label: String| label@);
                    lemma_labels_of(listed);
                    assert forall|key: Seq<char>| #[trigger]
                        m.contains_key(key) && i64_of_text(key) is Some implies labels@.contains_key(
                        i64_of_text(key)->0,
                    ) by {
                        let k = choose|k: int|
                            0 <= k < listed.len() && (#[trigger] listed[k]).0@ == key;
                        assert(views.contains_key(i64_of_text(listed[k].0@)->0));
                    }
                    assert forall|i: i64| #[trigger] labels@.contains_key(i) implies exists|
                        key: Seq<char>,
                    | #[trigger]
                        m.contains_key(key) && i64_of_text(key) == Some(i) && m[key]
                            == labels@[i]@ by {
                        assert(views.contains_key(i));
                        let k = choose|k: int|
                            0 <= k < listed.len() && i64_of_text((#[trigger] listed[k]).0@)
                                == Some(i) && listed[k].1@ == views[i];
                        assert(m.contains_pair(listed[k].0@, listed[k].1@));
                        assert(m.contains_key(listed[k].0@));
                    }
                }
                Ok(labels)
            },
            Err(e) => Err(LabelsError::Json(e)),
        }
    }

    /// Minimum confidence threshold for this backend.
    pub fn min_confidence(&self) -> (r: u32)
        ensures
            r == self.threshold(),
    {
        self.min_confidence
    }

    /// The text that goes into the model. Only text is accepted.
    pub fn text_of<'a>(&self, input: &'a ModelInput) -> (r: Result<&'a str, Failure>)
        ensures
            match *input {
                ModelInput::Text(text) => r matches Ok(s) && s@ == text@,
                _ => r matches Err(failure) && failure.message@
                    == "OnnxTextBackend requires ModelInput::Text"@,
            },
    {
        match input {
            ModelInput::Text(text) => Ok(text.as_str()),
            _ => Err(
                Failure { message: "OnnxTextBackend requires ModelInput::Text".to_owned() },
            ),
        }
    }

    /// Reads the label and the per-class probabilities out of the outputs of
    /// the model.
    pub fn run_inference(&self, outputs: InferenceOutputs) -> (r: Result<
        (String, NameMap<u32>),
        Failure,
    >)
        ensures
            match reading(self.label_map(), outputs) {
                Some((label, scores)) => r matches Ok(read) && read.0@ == label && read.1@
                    == scores,
                None => r matches Err(failure) && failure.message@
                    == "failed to extract label tensor (neither string nor i64)"@,
            },
    {
        match outputs.label {
            LabelOutput::Names(names) => {
                let label = if names.len() > 0 {
                    names[0].clone()
                } else {
                    String::new()
                };
                let scores = match &outputs.scores {
                    ScoreOutput::ByName(pairs) => map_of_pairs(pairs),
                    _ => NameMap::new(),
                };
                let scores = add_certainty(scores, &label);
                Ok((label, scores))
            },
            LabelOutput::Index(index) => {
                let label = match self.labels.get(&index) {
                    Some(label) => label.clone(),
                    None => {
                        let mut label = "class_".to_owned();
                        label.append(signed_decimal_text(index).as_str());
                        label
                    },
                };
                let scores = match &outputs.scores {
                    ScoreOutput::ByIndex(scores) => map_of_tensor(&self.labels, scores),
                    _ => NameMap::new(),
                };
                let scores = add_certainty(scores, &label);
                Ok((label, scores))
            },
            LabelOutput::Other => Err(
                Failure {
                    message: "failed to extract label tensor (neither string nor i64)".to_owned(),
                },
            ),
        }
    }

    /// The verdict that the outputs of the model say. The confidence is the
    /// probability of the label, or zero where it has none.
    pub fn classify(&self, outputs: InferenceOutputs) -> (r: Result<Verdict, Failure>)
        ensures
            match reading(self.label_map(), outputs) {
                Some((label, scores)) => {
                    &&& r matches Ok(verdict)
                    &&& verdict.label@ == label
                    &&& verdict.all_scores@ == scores
                    &&& verdict.confidence == if scores.contains_key(label) {
                        scores[label]
                    } else {
                        ZERO
                    }
                },
                None => r matches Err(failure) && failure.message@
                    == "failed to extract label tensor (neither string nor i64)"@,
            },
    {
        match self.run_inference(outputs) {
            Ok((label, all_scores)) => {
                let confidence: u32 = match all_scores.get(label.as_str()) {
                    Some(score) => *score,
                    None => ZERO,
                };
                Ok(Verdict { label, confidence, all_scores })
            },
            Err(failure) => Err(failure),
        }
    }

    /// Human-readable backend name.
    pub fn backend_name(&self) -> (r: &'static str)
        ensures
            r@ == "onnx-text"@,
    {
        "onnx-text"
    }
}

/// A reading always has probabilities, and where the outputs give none, the
/// label is certain.
pub proof fn a_reading_has_scores(labels: Map<i64, String>, outputs: InferenceOutputs)
    ensures
        reading(labels, outputs) matches Some((label, scores)) ==> {
            &&& scores != Map::<Seq<char>, u32>::empty()
            &&& outputs.scores is Missing ==> scores == Map::<Seq<char>, u32>::empty().insert(
                label,
                ONE,
            )
        },
{
    match reading(labels, outputs) {
        Some((label, scores)) => {
            assert(Map::<Seq<char>, u32>::empty().insert(label, ONE).contains_key(label));
        },
        None => {},
    }
}

/// A label under the decimal text of an index is a label of that index.
pub proof fn a_label_under_its_number_is_found(
    m: Map<Seq<char>, Seq<char>>,
    labels: Map<i64, String>,
    index: i64,
)
    requires
        labels_from(m, labels),
        m.contains_key(signed_decimal(index as int)),
    ensures
        labels.contains_key(index),
        (forall|key: Seq<char>| #[trigger]
            m.contains_key(key) && i64_of_text(key) == Some(index) ==> key == signed_decimal(
                index as int,
            )) ==> label_of_index(labels, index) == m[signed_decimal(index as int)],
{
    signed_decimal_reads_back(index);
}

} // verus!
