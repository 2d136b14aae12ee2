//! The model registry and its configuration.

use std::sync::atomic::{AtomicUsize, Ordering};
use std::sync::{Arc, Mutex};

use multimind::config::{
    default_min_confidence, default_min_sessions, default_min_signals, ModelConfig,
    ModelRetrainConfig,
};
use multimind::name_map::NameMap;
use multimind::paths::PathStyle;
use multimind::registry::{
    plan_builtin, BuiltinKind, BuiltinPlan, ClassifyStep, LoadStep, OpenError, RegistryError,
};
use multimind::{Failure, ModelBackend, ModelInput, ModelRegistry, MultimindConfig, Verdict};

struct Stub {
    name: &'static str,
    fails: bool,
    reloaded_from: Arc<Mutex<Vec<String>>>,
}

fn stub(name: &'static str) -> Stub {
    Stub { name, fails: false, reloaded_from: Arc::new(Mutex::new(Vec::new())) }
}

impl ModelBackend for Stub {
    fn classify(&self, input: &ModelInput) -> Result<Verdict, Failure> {
        if self.fails {
            return Err(Failure { message: format!("{} is out of order", self.name) });
        }
        let text = match input {
            ModelInput::Text(text) => text.clone(),
            ModelInput::Embedding(v) => format!("{} numbers", v.len()),
            ModelInput::Structured(value) => value.to_string(),
        };
        Ok(Verdict {
            label: format!("{}: {}", self.name, text),
            confidence: 1.0f32.to_bits(),
            all_scores: NameMap::new(),
        })
    }
    fn reload(&self, path: &str) -> Result<(), Failure> {
        if self.fails {
            return Err(Failure { message: "bad file".to_string() });
        }
        self.reloaded_from.lock().unwrap().push(path.to_string());
        Ok(())
    }
    fn backend_name(&self) -> &'static str {
        self.name
    }
}

type Factory = Box<dyn Fn(&ModelConfig, &str) -> Result<Option<Stub>, Failure>>;

fn model(id: &str, backend: &str) -> ModelConfig {
    ModelConfig {
        id: id.to_string(),
        backend: backend.to_string(),
        path: format!("models/{id}.onnx"),
        labels: None,
        classes: None,
        min_confidence: default_min_confidence(),
        embedding_dim: None,
        retrain: None,
    }
}

fn registry(models: Vec<ModelConfig>) -> ModelRegistry<Stub, Factory> {
    ModelRegistry::new(MultimindConfig { models }, "/srv".to_string(), PathStyle::Slash)
}

fn text(s: &str) -> ModelInput {
    ModelInput::Text(s.to_string())
}

fn plan_of(step: LoadStep) -> BuiltinPlan {
    match step {
        LoadStep::Open(plan) => plan,
        LoadStep::Loaded => panic!("already loaded"),
    }
}

#[test]
fn config_finds_models_by_id() {
    let mut sicu = model("sicu", "onnx-embed");
    sicu.embedding_dim = Some(384);
    let mut again = model("sivu", "custom");
    again.path = "elsewhere".to_string();
    let config = MultimindConfig { models: vec![model("sivu", "onnx-text"), sicu, again] };
    assert_eq!(config.get_model("sivu").unwrap().backend, "onnx-text");
    assert_eq!(config.get_model("sicu").unwrap().embedding_dim, Some(384));
    assert!(config.get_model("nonexistent").is_none());
}

#[test]
fn config_defaults() {
    assert_eq!(f32::from_bits(default_min_confidence()), 0.5);
    assert_eq!(default_min_signals(), 10);
    assert_eq!(default_min_sessions(), 20);
}

#[test]
fn registry_lists_configured_models() {
    let mut r = registry(vec![model("a", "onnx-text"), model("b", "x")]);
    assert_eq!(r.model_ids(), vec!["a".to_string(), "b".to_string()]);
    assert!(!r.is_loaded("a"));
    r.register_model("c".to_string(), stub("c"));
    // Loaded, but not configured.
    assert!(r.is_loaded("c"));
    assert_eq!(r.model_ids().len(), 2);
}

#[test]
fn model_configs_are_copied_out() {
    let mut m = model("a", "onnx-text");
    m.labels = Some("labels.json".to_string());
    m.classes = Some(vec!["SAFE".to_string(), "UNSAFE".to_string(), "REVIEW".to_string()]);
    m.min_confidence = 0.7f32.to_bits();
    m.retrain = Some(ModelRetrainConfig { min_signals: 50, min_sessions: 100 });
    let r = registry(vec![m]);
    let copy = r.get_model_config("a").unwrap();
    assert_eq!(copy.id, "a");
    assert_eq!(copy.path, "models/a.onnx");
    assert_eq!(copy.labels.unwrap(), "labels.json");
    assert_eq!(copy.classes.as_ref().unwrap().len(), 3);
    assert_eq!(copy.classes.unwrap()[1], "UNSAFE");
    assert_eq!(f32::from_bits(copy.min_confidence), 0.7);
    assert_eq!(copy.retrain.unwrap().min_signals, 50);
    assert!(r.get_model_config("b").is_none());
}

#[test]
fn builtin_models_are_planned() {
    let mut m = model("a", "onnx-text");
    m.labels = Some("labels.json".to_string());
    m.min_confidence = 0.7f32.to_bits();
    let mut r = registry(vec![m]);
    let plan = plan_of(r.load_model("a").unwrap());
    assert_eq!(plan.kind, BuiltinKind::OnnxText);
    assert_eq!(plan.model_path, "/srv/models/a.onnx");
    assert_eq!(plan.labels_path.unwrap(), "/srv/labels.json");
    assert_eq!(plan.min_confidence, 0.7f32.to_bits());
    // A plan alone loads nothing.
    assert!(!r.is_loaded("a"));

    r.finish_load("a", Ok(stub("opened"))).unwrap();
    assert!(r.is_loaded("a"));
    assert!(matches!(r.load_model("a"), Ok(LoadStep::Loaded)));
}

#[test]
fn embedding_models_have_a_default_dimension() {
    let mut m = model("a", "onnx-embed");
    let plan = plan_builtin(&m, "/srv", PathStyle::Slash).unwrap();
    assert_eq!(plan.kind, BuiltinKind::OnnxEmbed { embedding_dim: 384 });
    assert!(plan.labels_path.is_none());
    m.embedding_dim = Some(768);
    let plan = plan_builtin(&m, "/srv", PathStyle::Slash).unwrap();
    assert_eq!(plan.kind, BuiltinKind::OnnxEmbed { embedding_dim: 768 });
    m.backend = "onnx".to_string();
    assert!(plan_builtin(&m, "/srv", PathStyle::Slash).is_none());
}

#[test]
fn paths_are_seen_from_the_root() {
    let mut m = model("a", "onnx-text");
    m.path = "/abs/model.onnx".to_string();
    m.labels = Some("l.json".to_string());
    assert_eq!(plan_builtin(&m, "/srv", PathStyle::Slash).unwrap().model_path, "/abs/model.onnx");
    assert_eq!(plan_builtin(&m, "/srv/", PathStyle::Slash).unwrap().labels_path.unwrap(), "/srv/l.json");
    assert_eq!(plan_builtin(&m, ".", PathStyle::Slash).unwrap().labels_path.unwrap(), "./l.json");
    assert_eq!(plan_builtin(&m, "", PathStyle::Slash).unwrap().labels_path.unwrap(), "l.json");
    m.path = "".to_string();
    assert_eq!(plan_builtin(&m, "/srv", PathStyle::Slash).unwrap().model_path, "/srv/");
}

#[test]
fn joined_paths_agree_with_std() {
    // With slashes alone, the machine that runs this joins as the library does.
    let slashes_alone = !std::path::is_separator('\\');
    for root in ["/srv", "/srv/", ".", "", "a/b"] {
        for path in ["m.onnx", "/m.onnx", "x/y", "", "../z"] {
            let mut m = model("a", "onnx-text");
            m.path = path.to_string();
            let expected = std::path::Path::new(root).join(path);
            let native = plan_builtin(&m, root, PathStyle::Native).unwrap();
            assert_eq!(native.model_path, expected.to_str().unwrap());
            let plan = plan_builtin(&m, root, PathStyle::Slash).unwrap();
            assert!(!slashes_alone || plan.model_path == expected.to_str().unwrap());
        }
    }
}

#[test]
fn loading_errors_in_words() {
    let mut r = registry(vec![model("a", "tarot")]);
    assert_eq!(
        r.load_model("b").unwrap_err().message(),
        "no model with id 'b' in config"
    );
    let error = r.load_model("a").unwrap_err();
    assert!(matches!(error, RegistryError::UnsupportedBackend { .. }));
    assert_eq!(
        error.message(),
        "unsupported backend type 'tarot' for model 'a'. Register a custom BackendFactory for \
         non-built-in backends."
    );
    assert_eq!(
        r.classify_loaded("a", &text("x")).unwrap_err().message(),
        "model 'a' failed to load"
    );
    assert!(!r.is_loaded("a"));
}

#[test]
fn failures_to_open_leave_the_model_unloaded() {
    let mut r = registry(vec![model("a", "onnx-text")]);
    let labels = Failure { message: "no such file".to_string() };
    let error = r.finish_load("a", Err(OpenError::Labels(labels))).unwrap_err();
    assert_eq!(error.message(), "failed to load labels for model 'a'");
    assert!(matches!(error, RegistryError::Labels { source, .. } if source.message == "no such file"));
    let broken = Failure { message: "failed to load ONNX model at x".to_string() };
    let error = r.finish_load("a", Err(OpenError::Model(broken))).unwrap_err();
    assert_eq!(error.message(), "failed to load ONNX model at x");
    assert!(!r.is_loaded("a"));
}

#[test]
fn factories_are_asked_in_order() {
    let asked = Arc::new(AtomicUsize::new(0));
    let mut r = registry(vec![model("a", "onnx-text"), model("b", "mine"), model("c", "x")]);
    let count = asked.clone();
    r.register_backend_factory(Box::new(move |config, root| {
        count.fetch_add(1, Ordering::SeqCst);
        assert_eq!(root, "/srv");
        Ok(if config.backend == "mine" { Some(stub("first")) } else { None })
    }));
    let count = asked.clone();
    r.register_backend_factory(Box::new(move |config, _| {
        count.fetch_add(10, Ordering::SeqCst);
        if config.id == "c" {
            Err(Failure { message: "cannot make c".to_string() })
        } else {
            Ok(Some(stub("second")))
        }
    }));

    // The first factory that takes a model wins.
    assert!(matches!(r.load_model("b"), Ok(LoadStep::Loaded)));
    assert_eq!(asked.load(Ordering::SeqCst), 1);
    assert_eq!(r.classify_loaded("b", &text("x")).unwrap().label, "first: x");

    // It does so even for a built-in backend.
    assert!(matches!(r.load_model("a"), Ok(LoadStep::Loaded)));
    assert_eq!(asked.load(Ordering::SeqCst), 12);
    assert_eq!(r.classify_loaded("a", &text("x")).unwrap().label, "second: x");

    // The first that fails settles the matter too.
    let error = r.load_model("c").unwrap_err();
    assert!(matches!(error, RegistryError::Backend(_)));
    assert_eq!(error.message(), "cannot make c");
    assert!(!r.is_loaded("c"));

    // A loaded model needs no factory.
    assert!(matches!(r.load_model("b"), Ok(LoadStep::Loaded)));
    assert_eq!(asked.load(Ordering::SeqCst), 23);
}

#[test]
fn factories_that_pass_leave_the_builtins() {
    let mut r = registry(vec![model("a", "onnx-text")]);
    r.register_backend_factory(Box::new(|_, _| Ok(None)));
    let plan = plan_of(r.load_model("a").unwrap());
    assert_eq!(plan.kind, BuiltinKind::OnnxText);
}

#[test]
fn factory_replies_are_taken_one_by_one() {
    let mut r = registry(vec![]);
    assert!(r.take_factory_reply("a", Ok(None)).is_none());
    let refused = r.take_factory_reply("a", Err(Failure { message: "no".to_string() }));
    assert_eq!(refused.unwrap().unwrap_err().message(), "no");
    assert!(!r.is_loaded("a"));
    assert!(matches!(r.take_factory_reply("a", Ok(Some(stub("s")))), Some(Ok(LoadStep::Loaded))));
    assert!(r.is_loaded("a"));
}

#[test]
fn models_load_lazily_on_first_use() {
    let mut r = registry(vec![model("a", "mine"), model("b", "onnx-text")]);
    r.register_backend_factory(Box::new(|config, _| {
        Ok(if config.backend == "mine" { Some(stub("mine")) } else { None })
    }));
    assert!(!r.is_loaded("a"));
    match r.classify("a", &text("hello world")).unwrap() {
        ClassifyStep::Answer(verdict) => assert_eq!(verdict.label, "mine: hello world"),
        ClassifyStep::Open(_) => panic!("not a built-in model"),
    }
    assert!(r.is_loaded("a"));

    match r.classify("b", &text("x")).unwrap() {
        ClassifyStep::Answer(_) => panic!("not opened yet"),
        ClassifyStep::Open(plan) => assert_eq!(plan.model_path, "/srv/models/b.onnx"),
    }
    r.finish_load("b", Ok(stub("onnx"))).unwrap();
    match r.classify("b", &ModelInput::Embedding(vec![1, 2, 3])).unwrap() {
        ClassifyStep::Answer(verdict) => assert_eq!(verdict.label, "onnx: 3 numbers"),
        ClassifyStep::Open(_) => panic!("already opened"),
    }
    let json = ModelInput::Structured(serde_json::Value::Bool(true));
    match r.classify("b", &json).unwrap() {
        ClassifyStep::Answer(verdict) => assert_eq!(verdict.label, "onnx: true"),
        ClassifyStep::Open(_) => panic!("already opened"),
    }
    assert_eq!(
        r.classify("c", &text("x")).unwrap_err().message(),
        "no model with id 'c' in config"
    );
}

#[test]
fn failures_of_a_backend_are_passed_on() {
    let mut r = registry(vec![]);
    let mut broken = stub("broken");
    broken.fails = true;
    r.register_model("a".to_string(), broken);
    let error = r.classify("a", &text("x")).unwrap_err();
    assert!(matches!(error, RegistryError::Backend(_)));
    assert_eq!(error.message(), "broken is out of order");
    assert_eq!(r.reload_model("a", "/new").unwrap_err().message(), "bad file");
    assert!(r.is_loaded("a"));
}

#[test]
fn reloading_needs_a_loaded_model() {
    let mut r = registry(vec![model("a", "onnx-text")]);
    assert_eq!(
        r.reload_model("a", "/new").unwrap_err().message(),
        "model 'a' not loaded, can't reload"
    );
    let backend = stub("s");
    let paths = backend.reloaded_from.clone();
    r.register_model("a".to_string(), backend);
    r.reload_model("a", "/new").unwrap();
    assert_eq!(*paths.lock().unwrap(), vec!["/new".to_string()]);
}

#[test]
fn unloading_frees_one_model() {
    let mut r = registry(vec![]);
    r.register_model("a".to_string(), stub("a"));
    r.register_model("b".to_string(), stub("b"));
    assert!(r.unload_model("a"));
    assert!(!r.unload_model("a"));
    assert!(!r.is_loaded("a"));
    assert!(r.is_loaded("b"));
}

#[test]
fn registering_replaces_a_model() {
    let mut r = registry(vec![]);
    r.register_model("a".to_string(), stub("old"));
    r.register_model("a".to_string(), stub("new"));
    assert_eq!(r.classify_loaded("a", &text("x")).unwrap().label, "new: x");
    assert!(r.unload_model("a"));
    assert!(!r.is_loaded("a"));
}

#[test]
fn a_new_config_keeps_models_loaded() {
    let mut r = registry(vec![model("a", "onnx-text")]);
    r.finish_load("a", Ok(stub("a"))).unwrap();
    r.update_config(MultimindConfig { models: vec![model("b", "onnx-text")] });
    assert_eq!(r.model_ids(), vec!["b".to_string()]);
    assert!(r.get_model_config("a").is_none());
    assert!(r.is_loaded("a"));
    assert!(matches!(r.load_model("a"), Ok(LoadStep::Loaded)));
    assert_eq!(r.classify_loaded("a", &text("x")).unwrap().label, "a: x");
}

#[test]
fn name_maps_hold_one_value_per_name() {
    let mut map: NameMap<u32> = NameMap::new();
    assert!(map.is_empty());
    map.insert("a".to_string(), 1);
    map.insert("b".to_string(), 2);
    map.insert("a".to_string(), 3);
    assert_eq!(map.len(), 2);
    assert_eq!(map.get("a"), Some(&3));
    assert!(map.contains_key("b") && !map.contains_key("c"));
    let names: Vec<&str> = (0..map.len()).map(|i| map.entry(i).0).collect();
    assert!(names.contains(&"a") && names.contains(&"b"));
    let copy = map.clone();
    assert_eq!(map.remove("a"), Some(3));
    assert_eq!(map.remove("a"), None);
    assert_eq!(map.get("a"), None);
    assert_eq!((copy.get("a"), copy.get("b")), (Some(&3), Some(&2)));
}

#[test]
fn native_paths_are_joined_by_the_machine() {
    let mut m = model("a", "onnx-text");
    m.labels = Some("labels.json".to_string());
    let config = MultimindConfig { models: vec![m] };
    let mut r: ModelRegistry<Stub, Factory> =
        ModelRegistry::new(config, "root".to_string(), PathStyle::Native);
    let plan = plan_of(r.load_model("a").unwrap());
    let root = std::path::Path::new("root");
    assert_eq!(plan.model_path, root.join("models/a.onnx").to_str().unwrap());
    assert_eq!(plan.labels_path.unwrap(), root.join("labels.json").to_str().unwrap());
}
