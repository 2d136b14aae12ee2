//! What reading the outputs of a text model is for.

use std::collections::HashMap;

use vstd::prelude::*;

use super::numbers::{are_digits, lemma_signed_decimal, lemma_writes, writes};
use crate::backends::onnx_text::{
    json_string_map, labels_from_entries, labels_of, scores_by_index, InferenceOutputs,
    LabelOutput, LabelsError, OnnxTextBackend, ScoreOutput,
};
use crate::model::{Failure, ModelInput, Verdict};
use crate::name_map::entries_map;
use crate::text::{digits_value, i64_of_text};

verus! {

/// Whether the place `i` of a tensor has a label.
pub open spec fn has_label(labels: Map<i64, String>, tensor: Seq<u32>, i: int) -> bool {
    0 <= i < tensor.len() && i <= i64::MAX && labels.contains_key(i as i64)
}

/// What a tensor gives the labels, place by place.
#[verifier::spinoff_prover]
#[verifier::rlimit(60)]
proof fn lemma_scores(labels: Map<i64, String>, tensor: Seq<u32>)
    ensures
        forall|name: Seq<char>| #[trigger]
            scores_by_index(labels, tensor).contains_key(name) <==> exists|i: int| #[trigger]
                has_label(labels, tensor, i) && labels[i as i64]@ == name,
        forall|i: int| #[trigger]
            has_label(labels, tensor, i) && (forall|j: int|
                i < j && #[trigger] has_label(labels, tensor, j) ==> labels[j as i64]@
                    != labels[i as i64]@) ==> scores_by_index(labels, tensor)[labels[i as i64]@]
                == tensor[i],
    decreases tensor.len(),
{
    let scores = scores_by_index(labels, tensor);
    if tensor.len() > 0 {
        let rest = tensor.drop_last();
        let n = rest.len() as int;
        let before = scores_by_index(labels, rest);
        lemma_scores(labels, rest);
        assert forall|i: int| i != n implies #[trigger] has_label(labels, tensor, i) == has_label(
            labels,
            rest,
            i,
        ) by {
        }
        assert forall|name: Seq<char>| #[trigger] scores.contains_key(name) <==> exists|i: int|
            #[trigger] has_label(labels, tensor, i) && labels[i as i64]@ == name by {
            if scores.contains_key(name) {
                if has_label(labels, tensor, n) && labels[n as i64]@ == name {
                } else {
                    assert(before.contains_key(name));
                    let i = choose|i: int| #[trigger]
                        has_label(labels, rest, i) && labels[i as i64]@ == name;
                    assert(has_label(labels, tensor, i));
                }
            }
            if exists|i: int| #[trigger]
                has_label(labels, tensor, i) && labels[i as i64]@ == name {
                let i = choose|i: int| #[trigger]
                    has_label(labels, tensor, i) && labels[i as i64]@ == name;
                if i != n {
                    assert(has_label(labels, rest, i));
                    assert(before.contains_key(name));
                }
            }
        }
        assert forall|i: int| #[trigger]
            has_label(labels, tensor, i) && (forall|j: int|
                i < j && #[trigger] has_label(labels, tensor, j) ==> labels[j as i64]@
                    != labels[i as i64]@) implies scores[labels[i as i64]@] == tensor[i] by {
            if i != n {
                assert(has_label(labels, rest, i));
                assert forall|j: int| i < j && #[trigger] has_label(labels, rest, j) implies labels[
                    j as i64]@ != labels[i as i64]@ by {
                    assert(has_label(labels, tensor, j));
                }
                assert(before[labels[i as i64]@] == rest[i]);
                if has_label(labels, tensor, n) {
                    assert(labels[n as i64]@ != labels[i as i64]@);
                }
            }
        }
    }
}

/// What a list of entries gives the names, entry by entry.
#[verifier::spinoff_prover]
#[verifier::rlimit(60)]
proof fn lemma_entries(pairs: Seq<(String, u32)>)
    ensures
        forall|name: Seq<char>| #[trigger]
            entries_map(pairs).contains_key(name) <==> exists|k: int|
                0 <= k < pairs.len() && (#[trigger] pairs[k]).0@ == name,
        forall|k: int|
            0 <= k < pairs.len() && (forall|l: int|
                k < l < pairs.len() ==> (#[trigger] pairs[l]).0@ != pairs[k].0@)
                ==> entries_map(pairs)[(#[trigger] pairs[k]).0@] == pairs[k].1,
    decreases pairs.len(),
{
    if pairs.len() > 0 {
        let rest = pairs.drop_last();
        let n = rest.len() as int;
        lemma_entries(rest);
        assert forall|name: Seq<char>| #[trigger]
            entries_map(pairs).contains_key(name) <==> exists|k: int|
            0 <= k < pairs.len() && (#[trigger] pairs[k]).0@ == name by {
            if entries_map(pairs).contains_key(name) {
                if pairs[n].0@ != name {
                    assert(entries_map(rest).contains_key(name));
                    let k = choose|k: int| 0 <= k < rest.len() && (#[trigger] rest[k]).0@ == name;
                    assert(pairs[k].0@ == name);
                }
            }
            if exists|k: int| 0 <= k < pairs.len() && (#[trigger] pairs[k]).0@ == name {
                let k = choose|k: int| 0 <= k < pairs.len() && (#[trigger] pairs[k]).0@ == name;
                if k < n {
                    assert(rest[k].0@ == name);
                    assert(entries_map(rest).contains_key(name));
                }
            }
        }
        assert forall|k: int|
            0 <= k < pairs.len() && (forall|l: int|
                k < l < pairs.len() ==> (#[trigger] pairs[l]).0@
                    != pairs[k].0@) implies entries_map(pairs)[(#[trigger] pairs[k]).0@]
            == pairs[k].1 by {
            if k < n {
                assert(rest[k] == pairs[k]);
                assert forall|l: int| k < l < rest.len() implies (#[trigger] rest[l]).0@
                    != rest[k].0@ by {
                    assert(pairs[l].0@ != pairs[k].0@);
                }
                assert(pairs[n].0@ != pairs[k].0@);
            }
        }
    }
}

/// A model that answers with the index of a label and a tensor: the label is the
/// one of that index, and every place of the tensor that has a label gives that
/// label its probability. Of several places with one label the last counts, and
/// nothing else has a probability. Without any, the label is certain. The
/// confidence is the probability of the label, or zero.
pub proof fn a_tensor_gives_every_label_its_probability(
    labels: HashMap<i64, String>,
    min_confidence: u32,
    backend: OnnxTextBackend,
    outputs: InferenceOutputs,
    index: i64,
    tensor: Vec<u32>,
    r: Result<Verdict, Failure>,
    i: int,
    name: Seq<char>,
)
    requires
        call_ensures(OnnxTextBackend::new, (labels, min_confidence), backend),
        call_ensures(OnnxTextBackend::classify, (&backend, outputs), r),
        outputs.label == LabelOutput::Index(index),
        outputs.scores == ScoreOutput::ByIndex(tensor),
    ensures
        r is Ok,
        ({
            let v = r->Ok_0;
            let scored = exists|j: int| #[trigger] has_label(labels@, tensor@, j);
            &&& labels@.contains_key(index) ==> v.label@ == labels@[index]@
            &&& has_label(labels@, tensor@, i) ==> v.all_scores@.contains_key(labels@[i as i64]@)
            &&& has_label(labels@, tensor@, i) && (forall|j: int|
                i < j && #[trigger] has_label(labels@, tensor@, j) ==> labels@[j as i64]@
                    != labels@[i as i64]@) ==> v.all_scores@[labels@[i as i64]@] == tensor@[i]
            &&& has_label(labels@, tensor@, i) && i == index && (forall|j: int|
                i < j && #[trigger] has_label(labels@, tensor@, j) ==> labels@[j as i64]@
                    != labels@[i as i64]@) ==> v.confidence == tensor@[i]
            &&& scored && v.all_scores@.contains_key(name) ==> exists|j: int| #[trigger]
                has_label(labels@, tensor@, j) && labels@[j as i64]@ == name
            &&& !scored ==> v.confidence == 0x3f80_0000 && v.all_scores@.contains_key(v.label@)
                && (v.all_scores@.contains_key(name) ==> name == v.label@)
            &&& v.all_scores@.contains_key(v.label@) ==> v.confidence == v.all_scores@[v.label@]
            &&& !v.all_scores@.contains_key(v.label@) ==> v.confidence == 0
        }),
{
    let map = scores_by_index(labels@, tensor@);
    lemma_scores(labels@, tensor@);
    let v = r->Ok_0;
    if exists|j: int| #[trigger] has_label(labels@, tensor@, j) {
        let j = choose|j: int| #[trigger] has_label(labels@, tensor@, j);
        assert(map.contains_key(labels@[j as i64]@));
        assert(v.all_scores@ == map);
    } else {
        assert(map =~= Map::<Seq<char>, u32>::empty()) by {
            assert forall|n: Seq<char>| !#[trigger] map.contains_key(n) by {
            }
        }
    }
}

/// An index without a label is called a class, by the index in decimal.
pub proof fn an_index_without_label_is_a_class(
    labels: HashMap<i64, String>,
    min_confidence: u32,
    backend: OnnxTextBackend,
    outputs: InferenceOutputs,
    index: i64,
    r: Result<Verdict, Failure>,
) -> (digits: Seq<char>)
    requires
        call_ensures(OnnxTextBackend::new, (labels, min_confidence), backend),
        call_ensures(OnnxTextBackend::classify, (&backend, outputs), r),
        outputs.label == LabelOutput::Index(index),
        !labels@.contains_key(index),
    ensures
        r is Ok,
        are_digits(digits),
        digits.len() > 1 ==> digits[0] != '0',
        index >= 0 ==> r->Ok_0.label@ == "class_"@ + digits && digits_value(digits) == index,
        index < 0 ==> r->Ok_0.label@ == "class_"@ + (seq!['-'] + digits) && -(digits_value(
            digits,
        ) as int) == index,
{
    lemma_signed_decimal(index)
}

/// A model that answers with strings and a list of probabilities: the label is
/// the first string, or empty where there is none, and every label of the list has
/// its probability. Of several for one label the last counts, and nothing else has
/// a probability. Without any, the label is certain. The confidence is the
/// probability of the label, or zero.
pub proof fn a_list_gives_every_label_its_probability(
    backend: &OnnxTextBackend,
    outputs: InferenceOutputs,
    names: Vec<String>,
    pairs: Vec<(String, u32)>,
    r: Result<Verdict, Failure>,
    k: int,
    name: Seq<char>,
)
    requires
        call_ensures(OnnxTextBackend::classify, (backend, outputs), r),
        outputs.label == LabelOutput::Names(names),
        outputs.scores == ScoreOutput::ByName(pairs),
    ensures
        r is Ok,
        ({
            let v = r->Ok_0;
            &&& names@.len() > 0 ==> v.label@ == names@[0]@
            &&& names@.len() == 0 ==> v.label@.len() == 0
            &&& 0 <= k < pairs@.len() ==> v.all_scores@.contains_key(pairs@[k].0@)
            &&& 0 <= k < pairs@.len() && (forall|l: int|
                k < l < pairs@.len() ==> (#[trigger] pairs@[l]).0@ != pairs@[k].0@)
                ==> v.all_scores@[pairs@[k].0@] == pairs@[k].1
            &&& pairs@.len() > 0 && v.all_scores@.contains_key(name) ==> exists|l: int|
                0 <= l < pairs@.len() && (#[trigger] pairs@[l]).0@ == name
            &&& pairs@.len() == 0 ==> v.confidence == 0x3f80_0000 && v.all_scores@.contains_key(
                v.label@,
            ) && (v.all_scores@.contains_key(name) ==> name == v.label@)
            &&& v.all_scores@.contains_key(v.label@) ==> v.confidence == v.all_scores@[v.label@]
            &&& !v.all_scores@.contains_key(v.label@) ==> v.confidence == 0
        }),
{
    let map = entries_map(pairs@);
    lemma_entries(pairs@);
    if pairs@.len() > 0 {
        assert(map.contains_key(pairs@[0].0@));
    } else {
        assert(map =~= Map::<Seq<char>, u32>::empty());
    }
    if 0 <= k < pairs@.len() {
        assert(map.contains_key(pairs@[k].0@));
    }
}

/// Where the second output does not go with the first, or is not there, the label
/// is certain, and nothing else has a probability.
pub proof fn without_probabilities_the_label_is_certain(
    backend: &OnnxTextBackend,
    outputs: InferenceOutputs,
    r: Result<Verdict, Failure>,
    name: Seq<char>,
)
    requires
        call_ensures(OnnxTextBackend::classify, (backend, outputs), r),
        outputs.scores is Missing || (outputs.label is Names && outputs.scores is ByIndex) || (
        outputs.label is Index && outputs.scores is ByName),
        outputs.label !is Other,
    ensures
        r is Ok,
        r->Ok_0.confidence == 0x3f80_0000,
        r->Ok_0.all_scores@.contains_key(r->Ok_0.label@),
        r->Ok_0.all_scores@[r->Ok_0.label@] == 0x3f80_0000,
        r->Ok_0.all_scores@.contains_key(name) ==> name == r->Ok_0.label@,
        outputs.label matches LabelOutput::Names(names) ==> r->Ok_0.label@ == if names@.len() > 0 {
            names@[0]@
        } else {
            Seq::<char>::empty()
        },
{
}

/// A first output that is no label is refused, with the reason in words. Any
/// other is read.
pub proof fn only_labels_are_read(
    backend: &OnnxTextBackend,
    outputs: InferenceOutputs,
    r: Result<Verdict, Failure>,
)
    requires
        call_ensures(OnnxTextBackend::classify, (backend, outputs), r),
    ensures
        r is Err <==> outputs.label is Other,
        r matches Err(failure) ==> failure.message@
            == "failed to extract label tensor (neither string nor i64)"@,
{
}

/// Reading the outputs and judging them go together: the verdict has the label
/// and the probabilities that were read.
pub proof fn a_verdict_has_what_was_read(
    backend: &OnnxTextBackend,
    outputs: InferenceOutputs,
    r: Result<Verdict, Failure>,
    read: Result<(String, crate::name_map::NameMap<u32>), Failure>,
)
    requires
        call_ensures(OnnxTextBackend::classify, (backend, outputs), r),
        call_ensures(OnnxTextBackend::run_inference, (backend, outputs), read),
    ensures
        r is Ok <==> read is Ok,
        r is Ok ==> r->Ok_0.label@ == read->Ok_0.0@ && r->Ok_0.all_scores@ == read->Ok_0.1@,
        r is Err ==> r->Err_0.message@ == read->Err_0.message@,
{
}

/// Text goes into the model as it is, and nothing else does.
pub proof fn only_text_goes_into_the_model(
    backend: &OnnxTextBackend,
    input: &ModelInput,
    r: Result<&str, Failure>,
)
    requires
        call_ensures(OnnxTextBackend::text_of, (backend, input), r),
    ensures
        *input matches ModelInput::Text(text) ==> r is Ok && r->Ok_0@ == text@,
        *input !is Text ==> r is Err && r->Err_0.message@
            == "OnnxTextBackend requires ModelInput::Text"@,
{
}

/// A backend tells the minimum confidence that it was made with, and its name.
pub proof fn a_backend_tells_what_it_was_made_with(
    labels: HashMap<i64, String>,
    min_confidence: u32,
    backend: OnnxTextBackend,
    told: u32,
    name: &'static str,
)
    requires
        call_ensures(OnnxTextBackend::new, (labels, min_confidence), backend),
        call_ensures(OnnxTextBackend::min_confidence, (&backend,), told),
        call_ensures(OnnxTextBackend::backend_name, (&backend,), name),
    ensures
        told == min_confidence,
        name@ == "onnx-text"@,
{
}

/// What a list of entries gives the indices, entry by entry.
#[verifier::spinoff_prover]
#[verifier::rlimit(60)]
proof fn lemma_labels_of(pairs: Seq<(String, String)>)
    ensures
        forall|n: i64| #[trigger]
            labels_of(pairs).contains_key(n) <==> exists|k: int|
                0 <= k < pairs.len() && i64_of_text((#[trigger] pairs[k]).0@) == Some(n),
        forall|k: int|
            0 <= k < pairs.len() && i64_of_text((#[trigger] pairs[k]).0@) is Some && (forall|l: int|
                k < l < pairs.len() ==> i64_of_text((#[trigger] pairs[l]).0@) != i64_of_text(
                    pairs[k].0@,
                )) ==> labels_of(pairs)[i64_of_text(pairs[k].0@)->0] == pairs[k].1@,
    decreases pairs.len(),
{
    if pairs.len() > 0 {
        let rest = pairs.drop_last();
        let n = rest.len() as int;
        lemma_labels_of(rest);
        assert forall|i: i64| #[trigger] labels_of(pairs).contains_key(i) <==> exists|k: int|
            0 <= k < pairs.len() && i64_of_text((#[trigger] pairs[k]).0@) == Some(i) by {
            if labels_of(pairs).contains_key(i) {
                if i64_of_text(pairs[n].0@) != Some(i) {
                    assert(labels_of(rest).contains_key(i));
                    let k = choose|k: int|
                        0 <= k < rest.len() && i64_of_text((#[trigger] rest[k]).0@) == Some(i);
                    assert(pairs[k] == rest[k]);
                }
            }
            if exists|k: int|
                0 <= k < pairs.len() && i64_of_text((#[trigger] pairs[k]).0@) == Some(i) {
                let k = choose|k: int|
                    0 <= k < pairs.len() && i64_of_text((#[trigger] pairs[k]).0@) == Some(i);
                if k < n {
                    assert(rest[k] == pairs[k]);
                    assert(labels_of(rest).contains_key(i));
                }
            }
        }
        assert forall|k: int|
            0 <= k < pairs.len() && i64_of_text((#[trigger] pairs[k]).0@) is Some && (forall|l: int|
                k < l < pairs.len() ==> i64_of_text((#[trigger] pairs[l]).0@) != i64_of_text(
                    pairs[k].0@,
                )) implies labels_of(pairs)[i64_of_text(pairs[k].0@)->0] == pairs[k].1@ by {
            if k < n {
                assert(rest[k] == pairs[k]);
                assert forall|l: int| k < l < rest.len() implies i64_of_text(
                    (#[trigger] rest[l]).0@,
                ) != i64_of_text(rest[k].0@) by {
                    assert(rest[l] == pairs[l]);
                }
                assert(i64_of_text(pairs[n].0@) != i64_of_text(pairs[k].0@));
            }
        }
    }
}

/// An index has a label if and only if the key of some entry writes the index, and
/// its label is that of the last such entry.
pub proof fn entries_label_the_indices_that_their_keys_write(
    entries: Vec<(String, String)>,
    labels: HashMap<i64, String>,
    n: i64,
    k: int,
)
    requires
        call_ensures(labels_from_entries, (entries,), labels),
    ensures
        labels@.contains_key(n) <==> exists|l: int|
            0 <= l < entries@.len() && writes((#[trigger] entries@[l]).0@, n as int),
        0 <= k < entries@.len() && writes(entries@[k].0@, n as int) && (forall|l: int|
            k < l < entries@.len() ==> !writes((#[trigger] entries@[l]).0@, n as int))
            ==> labels@[n]@ == entries@[k].1@,
{
    lemma_labels_of(entries@);
    let views = labels@.map_values(|label: String| label@);
    assert(views == labels_of(entries@));
    assert(labels@.contains_key(n) <==> views.contains_key(n));
    assert forall|l: int| 0 <= l < entries@.len() implies (i64_of_text(
        (#[trigger] entries@[l]).0@,
    ) == Some(n) <==> writes(entries@[l].0@, n as int)) by {
        lemma_writes(entries@[l].0@, n);
    }
    if 0 <= k < entries@.len() && writes(entries@[k].0@, n as int) && (forall|l: int|
        k < l < entries@.len() ==> !writes((#[trigger] entries@[l]).0@, n as int)) {
        assert(i64_of_text(entries@[k].0@) == Some(n));
        assert(labels_of(entries@)[n] == entries@[k].1@);
        assert(views.contains_key(n));
        assert(views[n] == labels@[n]@);
    }
}

/// Labels are read from a JSON object of strings: an index has a label if and only
/// if some key of the object writes the index, and its label stands under such a
/// key. Anything else is refused.
pub proof fn labels_are_those_of_the_object(
    json: &str,
    r: Result<HashMap<i64, String>, LabelsError>,
    n: i64,
)
    requires
        call_ensures(OnnxTextBackend::load_labels, (json,), r),
    ensures
        r is Ok <==> json_string_map(json@) is Some,
        r is Ok ==> {
            let object = json_string_map(json@)->0;
            let labels = r->Ok_0@;
            &&& labels.contains_key(n) <==> exists|key: Seq<char>| #[trigger]
                object.contains_key(key) && writes(key, n as int)
            &&& labels.contains_key(n) ==> exists|key: Seq<char>| #[trigger]
                object.contains_key(key) && writes(key, n as int) && object[key] == labels[n]@
        },
{
    if r is Ok {
        let object = json_string_map(json@)->0;
        let labels = r->Ok_0@;
        assert forall|key: Seq<char>| #[trigger] object.contains_key(key) implies (i64_of_text(key)
            == Some(n) <==> writes(key, n as int)) by {
            lemma_writes(key, n);
        }
        if labels.contains_key(n) {
            let key = choose|key: Seq<char>| #[trigger]
                object.contains_key(key) && i64_of_text(key) == Some(n) && object[key]
                    == labels[n]@;
            assert(object.contains_key(key) && writes(key, n as int));
        }
    }
}

/// A label map that cannot be read is an error in words.
pub proof fn unreadable_labels_in_words(error: &LabelsError, text: String)
    requires
        call_ensures(LabelsError::message, (error,), text),
    ensures
        text@ == "failed to parse label map JSON"@,
{
}

} // verus!
