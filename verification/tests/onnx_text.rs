//! The backend for string-input ONNX models.

use std::collections::HashMap;

use multimind::backends::onnx_text::{
    labels_from_entries, InferenceOutputs, LabelOutput, LabelsError, OnnxTextBackend, ScoreOutput,
    ONE, ZERO,
};
use multimind::name_map::NameMap;
use multimind::ModelInput;

fn labels(pairs: &[(i64, &str)]) -> HashMap<i64, String> {
    pairs.iter().map(|(i, s)| (*i, s.to_string())).collect()
}

fn backend(pairs: &[(i64, &str)]) -> OnnxTextBackend {
    OnnxTextBackend::new(labels(pairs), 0.5f32.to_bits())
}

fn bits(scores: &[f32]) -> Vec<u32> {
    scores.iter().map(|p| p.to_bits()).collect()
}

fn by_name(pairs: &[(&str, f32)]) -> ScoreOutput {
    ScoreOutput::ByName(pairs.iter().map(|(s, p)| (s.to_string(), p.to_bits())).collect())
}

fn names(list: &[&str]) -> LabelOutput {
    LabelOutput::Names(list.iter().map(|s| s.to_string()).collect())
}

fn sorted(map: &NameMap<u32>) -> Vec<(String, f32)> {
    let mut entries: Vec<(String, f32)> = (0..map.len())
        .map(|i| {
            let (name, value) = map.entry(i);
            (name.to_string(), f32::from_bits(*value))
        })
        .collect();
    entries.sort_by(|a, b| a.0.cmp(&b.0));
    entries
}

#[test]
fn constants_are_one_and_zero() {
    assert_eq!(f32::from_bits(ONE), 1.0);
    assert_eq!(f32::from_bits(ZERO), 0.0);
}

#[test]
fn labels_are_read_from_json() {
    let read = OnnxTextBackend::load_labels(r#"{"0": "label_a", "1": "label_b"}"#).unwrap();
    assert_eq!(read, labels(&[(0, "label_a"), (1, "label_b")]));
    assert!(OnnxTextBackend::load_labels("{}").unwrap().is_empty());
}

#[test]
fn keys_that_are_no_integers_are_passed_over() {
    let json = r#"{
        "-3": "minus", "+4": "plus", "007": "bond",
        "": "empty", "-": "sign", "1.5": "float", " 2": "space", "x": "letter", "0x1": "hex",
        "9223372036854775807": "max", "-9223372036854775808": "min",
        "9223372036854775808": "above", "-9223372036854775809": "below",
        "١": "arabic digit"
    }"#;
    let read = OnnxTextBackend::load_labels(json).unwrap();
    assert_eq!(
        read,
        labels(&[(-3, "minus"), (4, "plus"), (7, "bond"), (i64::MAX, "max"), (i64::MIN, "min")])
    );
}

#[test]
fn json_that_is_no_object_of_strings_is_refused() {
    for json in ["", "[]", "null", r#"{"0": 1}"#, r#"{"0": "a""#, r#"{0: "a"}"#] {
        let error = OnnxTextBackend::load_labels(json).unwrap_err();
        assert_eq!(error.message(), "failed to parse label map JSON");
        assert!(matches!(error, LabelsError::Json(_)));
    }
}

#[test]
fn integer_keys_agree_with_std() {
    for key in ["0", "-0", "+0", "12", "-12", "+-1", "--1", "1-", "99999999999999999999", "1_0"] {
        let picked = labels_from_entries(vec![(key.to_string(), "v".to_string())]);
        let expected: HashMap<i64, String> =
            key.parse::<i64>().ok().map(|i| (i, "v".to_string())).into_iter().collect();
        assert_eq!(picked, expected);
    }
}

#[test]
fn of_several_entries_for_one_integer_the_last_counts() {
    let picked = labels_from_entries(vec![
        ("1".to_string(), "first".to_string()),
        ("+1".to_string(), "second".to_string()),
    ]);
    assert_eq!(picked, labels(&[(1, "second")]));
}

#[test]
fn only_text_goes_in() {
    let b = backend(&[]);
    assert_eq!(b.text_of(&ModelInput::Text("hello".to_string())).unwrap(), "hello");
    let error = b.text_of(&ModelInput::Embedding(vec![1])).unwrap_err();
    assert_eq!(error.message, "OnnxTextBackend requires ModelInput::Text");
    let json = ModelInput::Structured(serde_json::Value::Null);
    assert!(b.text_of(&json).is_err());
}

#[test]
fn backends_tell_their_settings() {
    let b = OnnxTextBackend::new(HashMap::new(), 0.7f32.to_bits());
    assert_eq!(f32::from_bits(b.min_confidence()), 0.7);
    assert_eq!(b.backend_name(), "onnx-text");
}

#[test]
fn string_labels_with_probabilities() {
    let outputs = InferenceOutputs {
        label: names(&["store", "ignored"]),
        scores: by_name(&[("store", 0.8), ("reject", 0.2)]),
    };
    let verdict = backend(&[]).classify(outputs).unwrap();
    assert_eq!(verdict.label, "store");
    assert_eq!(f32::from_bits(verdict.confidence), 0.8);
    assert_eq!(
        sorted(&verdict.all_scores),
        vec![("reject".to_string(), 0.2), ("store".to_string(), 0.8)]
    );
}

#[test]
fn a_label_without_probability_has_confidence_zero() {
    let outputs = InferenceOutputs { label: names(&["store"]), scores: by_name(&[("reject", 0.2)]) };
    let verdict = backend(&[]).classify(outputs).unwrap();
    assert_eq!(verdict.label, "store");
    assert_eq!(f32::from_bits(verdict.confidence), 0.0);
}

#[test]
fn without_probabilities_the_label_is_certain() {
    for scores in [ScoreOutput::Missing, by_name(&[]), ScoreOutput::ByIndex(bits(&[0.5]))] {
        let outputs = InferenceOutputs { label: names(&["store"]), scores };
        let verdict = backend(&[(0, "reject")]).classify(outputs).unwrap();
        assert_eq!(f32::from_bits(verdict.confidence), 1.0);
        assert_eq!(sorted(&verdict.all_scores), vec![("store".to_string(), 1.0)]);
    }
}

#[test]
fn an_empty_string_tensor_is_the_empty_label() {
    let outputs = InferenceOutputs { label: names(&[]), scores: ScoreOutput::Missing };
    let (label, scores) = backend(&[]).run_inference(outputs).unwrap();
    assert_eq!(label, "");
    assert_eq!(sorted(&scores), vec![("".to_string(), 1.0)]);
}

#[test]
fn of_several_probabilities_for_one_label_the_last_counts() {
    let outputs = InferenceOutputs {
        label: names(&["a"]),
        scores: by_name(&[("a", 0.25), ("b", 0.5), ("a", 0.75)]),
    };
    let verdict = backend(&[]).classify(outputs).unwrap();
    assert_eq!(f32::from_bits(verdict.confidence), 0.75);
    assert_eq!(verdict.all_scores.len(), 2);
}

#[test]
fn label_indices_with_a_tensor() {
    let outputs = InferenceOutputs {
        label: LabelOutput::Index(1),
        scores: ScoreOutput::ByIndex(bits(&[0.1, 0.6, 0.3])),
    };
    // Labels beyond the tensor, and negative ones, have no probability. Places
    // of the tensor without a label are passed over.
    let b = backend(&[(0, "SAFE"), (1, "UNSAFE"), (7, "NEVER"), (-1, "NOWHERE")]);
    let verdict = b.classify(outputs).unwrap();
    assert_eq!(verdict.label, "UNSAFE");
    assert_eq!(f32::from_bits(verdict.confidence), 0.6);
    assert_eq!(
        sorted(&verdict.all_scores),
        vec![("SAFE".to_string(), 0.1), ("UNSAFE".to_string(), 0.6)]
    );
}

#[test]
fn an_index_without_label_is_a_class() {
    for (index, expected) in [(3, "class_3"), (-3, "class_-3"), (i64::MIN, "class_-9223372036854775808")] {
        let outputs =
            InferenceOutputs { label: LabelOutput::Index(index), scores: ScoreOutput::Missing };
        let verdict = backend(&[]).classify(outputs).unwrap();
        assert_eq!(verdict.label, expected);
        assert_eq!(f32::from_bits(verdict.confidence), 1.0);
    }
}

#[test]
fn an_index_does_not_read_probabilities_by_name() {
    let outputs =
        InferenceOutputs { label: LabelOutput::Index(0), scores: by_name(&[("SAFE", 0.25)]) };
    let verdict = backend(&[(0, "SAFE")]).classify(outputs).unwrap();
    assert_eq!(f32::from_bits(verdict.confidence), 1.0);
}

#[test]
fn any_other_output_is_refused() {
    let outputs = InferenceOutputs { label: LabelOutput::Other, scores: by_name(&[("a", 1.0)]) };
    let failure = backend(&[]).classify(outputs).unwrap_err();
    assert_eq!(failure.message, "failed to extract label tensor (neither string nor i64)");
    let outputs = InferenceOutputs { label: LabelOutput::Other, scores: ScoreOutput::Missing };
    assert!(backend(&[]).run_inference(outputs).is_err());
}
