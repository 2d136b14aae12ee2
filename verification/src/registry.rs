//! Model registry: load, manage, and query models by ID.
//!
//! Models are loaded lazily on first `classify()` call and cached. Hot-reload
//! replaces the model in place without dropping the registry. Custom backends
//! can be registered alongside the built-in ones.
//!
//! The registry decides; opening the files of a built-in backend is its
//! caller's part. Where a built-in backend is wanted, the registry answers with
//! a [`BuiltinPlan`], and the caller hands what came of it to
//! [`ModelRegistry::finish_load`].

use vstd::prelude::*;
use vstd::string::*;

use crate::config::{find_model, ModelConfig, MultimindConfig};
use crate::model::{Failure, ModelBackend, ModelInput, Verdict};
use crate::name_map::NameMap;
use crate::paths::{join_path, seen_from, PathStyle};

verus! {

/// Why the registry could not do what it was asked for.
#[derive(Debug)]
pub enum RegistryError {
    /// The configuration has no model with this ID.
    NotConfigured { model_id: String },
    /// No factory took the model, and its backend is not a built-in one.
    UnsupportedBackend { backend: String, model_id: String },
    /// The label map of the model could not be read.
    Labels { model_id: String, source: Failure },
    /// The model is not loaded, so that there is nothing to reload.
    NotLoaded { model_id: String },
    /// The model was to be loaded by now and is not.
    FailedToLoad { model_id: String },
    /// A factory or a backend failed.
    Backend(Failure),
}

/// The words of a [`RegistryError`].
pub open spec fn error_text(e: RegistryError) -> Seq<char> {
    match e {
        RegistryError::NotConfigured { model_id } => {
            "no model with id '"@ + model_id@ + "' in config"@
        },
        RegistryError::UnsupportedBackend { backend, model_id } => {
            "unsupported backend type '"@ + backend@ + "' for model '"@ + model_id@
                + "'. Register a custom BackendFactory for non-built-in backends."@
        },
        RegistryError::Labels { model_id, source } => {
            "failed to load labels for model '"@ + model_id@ + "'"@
        },
        RegistryError::NotLoaded { model_id } => {
            "model '"@ + model_id@ + "' not loaded, can't reload"@
        },
        RegistryError::FailedToLoad { model_id } => {
            "model '"@ + model_id@ + "' failed to load"@
        },
        RegistryError::Backend(failure) => failure.message@,
    }
}

impl RegistryError {
    /// The error in words.
    pub fn message(&self) -> (r: String)
        ensures
            r@ == error_text(*self),
    {
        match self {
            RegistryError::NotConfigured { model_id } => {
                let mut text = "no model with id '".to_owned();
                text.append(model_id.as_str());
                text.append("' in config");
                text
            },
            RegistryError::UnsupportedBackend { backend, model_id } => {
                let mut text = "unsupported backend type '".to_owned();
                text.append(backend.as_str());
                text.append("' for model '");
                text.append(model_id.as_str());
                text.append("'. Register a custom BackendFactory for non-built-in backends.");
                text
            },
            RegistryError::Labels { model_id, source } => {
                let mut text = "failed to load labels for model '".to_owned();
                text.append(model_id.as_str());
                text.append("'");
                text
            },
            RegistryError::NotLoaded { model_id } => {
                let mut text = "model '".to_owned();
                text.append(model_id.as_str());
                text.append("' not loaded, can't reload");
                text
            },
            RegistryError::FailedToLoad { model_id } => {
                let mut text = "model '".to_owned();
                text.append(model_id.as_str());
                text.append("' failed to load");
                text
            },
            RegistryError::Backend(failure) => failure.message.clone(),
        }
    }
}

/// The built-in backends.
#[derive(Debug, Clone, Copy, PartialEq, Eq, Structural)]
pub enum BuiltinKind {
    /// String-input ONNX models.
    OnnxText,
    /// Embedding-input ONNX models, with the number of dimensions.
    OnnxEmbed { embedding_dim: usize },
}

/// How to open a built-in backend.
#[derive(Debug)]
pub struct BuiltinPlan {
    /// Which backend.
    pub kind: BuiltinKind,
    /// The model file.
    pub model_path: String,
    /// The label map, where there is one. Without it the map is empty.
    pub labels_path: Option<String>,
    /// Minimum confidence to accept a classification: the bits of an IEEE 754
    /// single.
    pub min_confidence: u32,
}

/// Why a built-in backend could not be opened.
#[derive(Debug)]
pub enum OpenError {
    /// Its label map could not be read.
    Labels(Failure),
    /// The model itself could not be loaded.
    Model(Failure),
}

/// The number of embedding dimensions of a model that sets none.
pub const DEFAULT_EMBEDDING_DIM: usize = 384;

/// What a call of `load_model` came to.
#[derive(Debug)]
pub enum LoadStep {
    /// The model is loaded.
    Loaded,
    /// A built-in backend is to be opened first.
    Open(BuiltinPlan),
}

/// What a call of `classify` came to.
#[derive(Debug)]
pub enum ClassifyStep {
    /// The answer of the model.
    Answer(Verdict),
    /// A built-in backend is to be opened first.
    Open(BuiltinPlan),
}

/// The kind of built-in backend that a configuration asks for.
pub open spec fn builtin_kind(c: ModelConfig) -> Option<BuiltinKind> {
    if c.backend@ == "onnx-text"@ {
        Some(BuiltinKind::OnnxText)
    } else if c.backend@ == "onnx-embed"@ {
        Some(
            BuiltinKind::OnnxEmbed {
                embedding_dim: match c.embedding_dim {
                    Some(dim) => dim,
                    None => DEFAULT_EMBEDDING_DIM,
                },
            },
        )
    } else {
        None
    }
}

/// Whether `plan` opens the backend of kind `kind` as `c` says, with the paths
/// of `c` seen from `root`.
pub open spec fn plan_for(
    plan: BuiltinPlan,
    kind: BuiltinKind,
    c: ModelConfig,
    root: Seq<char>,
    style: PathStyle,
) -> bool {
    &&& plan.kind == kind
    &&& seen_from(style, root, c.path@, plan.model_path@)
    &&& plan.min_confidence == c.min_confidence
    &&& match (c.labels, plan.labels_path) {
        (Some(labels), Some(path)) => seen_from(style, root, labels@, path@),
        (None, None) => true,
        _ => false,
    }
}

/// Decides how to open the built-in backend that a configuration asks for.
pub fn plan_builtin(c: &ModelConfig, model_root: &str, path_style: PathStyle) -> (r: Option<
    BuiltinPlan,
>)
    ensures
        match (r, builtin_kind(*c)) {
            (Some(plan), Some(kind)) => plan_for(plan, kind, *c, model_root@, path_style),
            (None, None) => true,
            _ => false,
        },
{
    let kind = if c.backend == "onnx-text".to_owned() {
        BuiltinKind::OnnxText
    } else if c.backend == "onnx-embed".to_owned() {
        let dim: usize = match c.embedding_dim {
            Some(dim) => dim,
            None => DEFAULT_EMBEDDING_DIM,
        };
        BuiltinKind::OnnxEmbed { embedding_dim: dim }
    } else {
        return None;
    };
    let labels_path = match &c.labels {
        Some(labels) => Some(join_path(path_style, model_root, labels.as_str())),
        None => None,
    };
    Some(
        BuiltinPlan {
            kind,
            model_path: join_path(path_style, model_root, c.path.as_str()),
            labels_path,
            min_confidence: c.min_confidence,
        },
    )
}

/// The model registry. Supports lazy loading and hot-reload.
///
/// A factory is given the model config and the model root. It answers `None` to
/// leave the model to the next factory, or to the built-in backends.
#[verifier::reject_recursive_types(B)]
pub struct ModelRegistry<
    B: ModelBackend,
    F: Fn(&ModelConfig, &str) -> Result<Option<B>, Failure>,
> {
    config: MultimindConfig,
    model_root: String,
    path_style: PathStyle,
    models: NameMap<B>,
    custom_factories: Vec<F>,
}

/// Whether a factory may be called on every model.
pub open spec fn takes_any_model<B, F: Fn(&ModelConfig, &str) -> Result<Option<B>, Failure>>(
    factory: F,
) -> bool {
    forall|c: &ModelConfig, root: &str| #[trigger] call_requires(factory, (c, root))
}

/// Whether `replies` are answers of the first factories, asked in turn about
/// `c`, all but the last of which left the model to the next one.
pub open spec fn asked_in_turn<B, F: Fn(&ModelConfig, &str) -> Result<Option<B>, Failure>>(
    factories: Seq<F>,
    c: ModelConfig,
    root: &str,
    replies: Seq<Result<Option<B>, Failure>>,
) -> bool {
    &&& replies.len() <= factories.len()
    &&& forall|i: int|
        0 <= i < replies.len() ==> call_ensures(factories[i], (&c, root), #[trigger] replies[i])
    &&& forall|i: int| 0 <= i < replies.len() - 1 ==> #[trigger] replies[i] == Ok::<
        Option<B>,
        Failure,
    >(None)
}

impl<B: ModelBackend, F: Fn(&ModelConfig, &str) -> Result<Option<B>, Failure>> ModelRegistry<
    B,
    F,
> {
    /// Every factory may be called on every model.
    #[verifier::type_invariant]
    spec fn factories_are_ready(self) -> bool {
        forall|i: int|
            0 <= i < self.custom_factories@.len() ==> takes_any_model::<B, F>(
                #[trigger] self.custom_factories@[i],
            )
    }

    /// The configured models.
    pub closed spec fn configured(&self) -> Seq<ModelConfig> {
        self.config.models@
    }

    /// The directory that relative paths start from.
    pub closed spec fn root(&self) -> Seq<char> {
        self.model_root@
    }

    /// How paths are written.
    pub closed spec fn style(&self) -> PathStyle {
        self.path_style
    }

    /// The loaded models, by ID.
    pub closed spec fn loaded(&self) -> Map<Seq<char>, B> {
        self.models@
    }

    /// The custom factories, in the order of their registration.
    pub closed spec fn factories(&self) -> Seq<F> {
        self.custom_factories@
    }

    /// Whether two states of a registry differ at most in the loaded models.
    pub open spec fn same_setup(self, other: Self) -> bool {
        &&& self.configured() == other.configured()
        &&& self.root() == other.root()
        &&& self.style() == other.style()
        &&& self.factories() == other.factories()
    }

    /// Create a new registry from config. Models are not loaded yet: they load
    /// lazily on first `classify()` call.
    ///
    /// Relative paths start from `model_root`. What makes a path relative, and
    /// how it is put behind the root, is a matter of `path_style`.
    pub fn new(config: MultimindConfig, model_root: String, path_style: PathStyle) -> (r: Self)
        ensures
            r.configured() == config.models@,
            r.root() == model_root@,
            r.style() == path_style,
            r.loaded() == Map::<Seq<char>, B>::empty(),
            r.factories() == Seq::<F>::empty(),
    {
        ModelRegistry {
            config,
            model_root,
            path_style,
            models: NameMap::new(),
            custom_factories: Vec::new(),
        }
    }

    /// Register a custom backend factory.
    ///
    /// Factories are tried in registration order before the built-in backends.
    pub fn register_backend_factory(&mut self, factory: F)
        requires
            takes_any_model::<B, F>(factory),
        ensures
            final(self).factories() == old(self).factories().push(factory),
            final(self).configured() == old(self).configured(),
            final(self).root() == old(self).root(),
            final(self).style() == old(self).style(),
            final(self).loaded() == old(self).loaded(),
    {
        proof {
            use_type_invariant(&*self);
        }
        let mut factories: Vec<F> = Vec::new();
        core::mem::swap(&mut factories, &mut self.custom_factories);
        factories.push(factory);
        self.custom_factories = factories;
    }

    /// List all registered model IDs (from config, whether loaded or not).
    pub fn model_ids(&self) -> (r: Vec<String>)
        ensures
            r@.len() == self.configured().len(),
            forall|i: int|
                0 <= i < r@.len() ==> (#[trigger] r@[i])@ == self.configured()[i].id@,
    {
        let mut ids: Vec<String> = Vec::new();
        let mut i: usize = 0;
        while i < self.config.models.len()
            invariant
                i <= self.config.models@.len(),
                ids@.len() == i,
                forall|k: int|
                    0 <= k < i ==> (#[trigger] ids@[k])@ == self.config.models@[k].id@,
            decreases self.config.models@.len() - i,
        {
            ids.push(self.config.models[i].id.clone());
            i = i + 1;
        }
        ids
    }

    /// Check if a model is currently loaded (vs. just configured).
    pub fn is_loaded(&self, model_id: &str) -> (r: bool)
        ensures
            r == self.loaded().contains_key(model_id@),
    {
        self.models.contains_key(model_id)
    }

    /// Get the config for a model.
    pub fn get_model_config(&self, model_id: &str) -> (r: Option<ModelConfig>)
        ensures
            match (r, find_model(self.configured(), model_id@)) {
                (Some(copy), Some(found)) => copy@ == found@,
                (None, None) => true,
                _ => false,
            },
    {
        match self.config.get_model(model_id) {
            Some(found) => Some(found.clone()),
            None => None,
        }
    }

    /// Replace the entire config (e.g. on hot-reload of the config file).
    ///
    /// Does not unload existing models: they stay loaded until explicitly
    /// unloaded or the registry is dropped.
    pub fn update_config(&mut self, config: MultimindConfig)
        ensures
            final(self).configured() == config.models@,
            final(self).root() == old(self).root(),
            final(self).style() == old(self).style(),
            final(self).loaded() == old(self).loaded(),
            final(self).factories() == old(self).factories(),
    {
        proof {
            use_type_invariant(&*self);
        }
        self.config = config;
    }

    /// Puts a backend under a model ID.
    fn put(&mut self, model_id: String, backend: B)
        ensures
            final(self).loaded() == old(self).loaded().insert(model_id@, backend),
            final(self).same_setup(*old(self)),
    {
        proof {
            use_type_invariant(&*self);
        }
        let mut models: NameMap<B> = NameMap::new();
        core::mem::swap(&mut models, &mut self.models);
        models.insert(model_id, backend);
        self.models = models;
    }

    /// Register an already-constructed backend under the given model ID.
    ///
    /// Useful for programmatic registration without going through the config.
    pub fn register_model(&mut self, model_id: String, backend: B)
        ensures
            final(self).loaded() == old(self).loaded().insert(model_id@, backend),
            final(self).same_setup(*old(self)),
    {
        self.put(model_id, backend);
    }

    /// Unload a model, freeing its memory. Tells whether it was loaded.
    pub fn unload_model(&mut self, model_id: &str) -> (r: bool)
        ensures
            r == old(self).loaded().contains_key(model_id@),
            final(self).loaded() == old(self).loaded().remove(model_id@),
            final(self).same_setup(*old(self)),
    {
        proof {
            use_type_invariant(&*self);
        }
        let mut models: NameMap<B> = NameMap::new();
        core::mem::swap(&mut models, &mut self.models);
        let removed = models.remove(model_id).is_some();
        self.models = models;
        removed
    }

    /// What a factory's answer about a model comes to: `None` to go on with the
    /// next factory.
    pub open spec fn after_reply(
        before: Self,
        after: Self,
        model_id: Seq<char>,
        reply: Result<Option<B>, Failure>,
        r: Option<Result<LoadStep, RegistryError>>,
    ) -> bool {
        &&& after.same_setup(before)
        &&& match reply {
            Ok(Some(backend)) => {
                &&& r == Some(Ok::<LoadStep, RegistryError>(LoadStep::Loaded))
                &&& after.loaded() == before.loaded().insert(model_id, backend)
            },
            Ok(None) => r is None && after.loaded() == before.loaded(),
            Err(failure) => {
                &&& r == Some(Err::<LoadStep, RegistryError>(RegistryError::Backend(failure)))
                &&& after.loaded() == before.loaded()
            },
        }
    }

    /// Takes a factory's answer about a model. `None` is to go on with the next
    /// factory.
    pub fn take_factory_reply(
        &mut self,
        model_id: &str,
        reply: Result<Option<B>, Failure>,
    ) -> (r: Option<Result<LoadStep, RegistryError>>)
        ensures
            Self::after_reply(*old(self), *final(self), model_id@, reply, r),
    {
        match reply {
            Ok(Some(backend)) => {
                self.put(model_id.to_owned(), backend);
                Some(Ok(LoadStep::Loaded))
            },
            Ok(None) => None,
            Err(failure) => Some(Err(RegistryError::Backend(failure))),
        }
    }

    /// What is left to do for a model that every factory has passed over.
    pub open spec fn builtin_step(
        c: ModelConfig,
        root: Seq<char>,
        style: PathStyle,
        model_id: Seq<char>,
        r: Result<LoadStep, RegistryError>,
    ) -> bool {
        match builtin_kind(c) {
            Some(kind) => r matches Ok(LoadStep::Open(plan)) && plan_for(
                plan,
                kind,
                c,
                root,
                style,
            ),
            None => r matches Err(RegistryError::UnsupportedBackend { backend, model_id: id })
                && backend@ == c.backend@ && id@ == model_id,
        }
    }

    /// Whether `r` and the state `after` are what loading a model comes to:
    ///
    /// - nothing to do for a loaded model;
    /// - an error for a model that is not configured;
    /// - otherwise the factories are asked in the order of registration, and
    ///   the first that takes the model, or fails, settles the matter;
    /// - where all of them pass, the built-in backends decide.
    pub open spec fn load_outcome(
        before: Self,
        after: Self,
        model_id: Seq<char>,
        root: &str,
        replies: Seq<Result<Option<B>, Failure>>,
        r: Result<LoadStep, RegistryError>,
    ) -> bool {
        &&& after.same_setup(before)
        &&& if before.loaded().contains_key(model_id) {
            after.loaded() == before.loaded() && r == Ok::<LoadStep, RegistryError>(
                LoadStep::Loaded,
            )
        } else {
            match find_model(before.configured(), model_id) {
                None => {
                    &&& after.loaded() == before.loaded()
                    &&& r matches Err(RegistryError::NotConfigured { model_id: id })
                    &&& id@ == model_id
                },
                Some(c) => {
                    &&& root@ == before.root()
                    &&& asked_in_turn(before.factories(), c, root, replies)
                    &&& if replies.len() > 0 && !(replies.last() matches Ok(None)) {
                        Self::after_reply(before, after, model_id, replies.last(), Some(r))
                    } else {
                        &&& replies.len() == before.factories().len()
                        &&& after.loaded() == before.loaded()
                        &&& Self::builtin_step(c, before.root(), before.style(), model_id, r)
                    }
                },
            }
        }
    }

    /// Explicitly load a model by ID. No-op if already loaded.
    ///
    /// Where a built-in backend is to be opened, the answer is a plan, and the
    /// model is loaded once [`Self::finish_load`] has taken what came of it.
    pub fn load_model(&mut self, model_id: &str) -> (r: Result<LoadStep, RegistryError>)
        ensures
            exists|root: &str, replies: Seq<Result<Option<B>, Failure>>| #[trigger]
                Self::load_outcome(*old(self), *final(self), model_id@, root, replies, r),
    {
        proof {
            use_type_invariant(&*self);
        }
        let ghost mut replies: Seq<Result<Option<B>, Failure>> = Seq::empty();
        let root = self.model_root.as_str();
        let ghost told = root;
        if self.models.contains_key(model_id) {
            let r = Ok(LoadStep::Loaded);
            assert(Self::load_outcome(*old(self), *self, model_id@, told, replies, r));
            return r;
        }
        let c = match self.config.get_model(model_id) {
            Some(c) => c,
            None => {
                let r = Err(RegistryError::NotConfigured { model_id: model_id.to_owned() });
                assert(Self::load_outcome(*old(self), *self, model_id@, told, replies, r));
                return r;
            },
        };
        let mut i: usize = 0;
        let mut settled: Option<Result<Option<B>, Failure>> = None;
        while i < self.custom_factories.len() && settled.is_none()
            invariant
                *self == *old(self),
                self.factories_are_ready(),
                i <= self.custom_factories@.len(),
                replies.len() == i,
                asked_in_turn(self.custom_factories@, *c, root, replies),
                match settled {
                    Some(reply) => i > 0 && reply == replies.last() && !(reply matches Ok(None)),
                    None => forall|k: int|
                        0 <= k < i ==> #[trigger] replies[k] == Ok::<Option<B>, Failure>(None),
                },
            decreases self.custom_factories@.len() - i,
        {
            let factory = &self.custom_factories[i];
            let reply = factory(c, root);
            proof {
                replies = replies.push(reply);
            }
            match reply {
                Ok(None) => {},
                other => {
                    settled = Some(other);
                },
            }
            i = i + 1;
        }
        match settled {
            Some(reply) => {
                match self.take_factory_reply(model_id, reply) {
                    Some(r) => {
                        assert(Self::load_outcome(*old(self), *self, model_id@, told, replies, r));
                        r
                    },
                    None => Ok(LoadStep::Loaded),
                }
            },
            None => {
                let r = match plan_builtin(c, root, self.path_style) {
                    Some(plan) => Ok(LoadStep::Open(plan)),
                    None => Err(
                        RegistryError::UnsupportedBackend {
                            backend: c.backend.clone(),
                            model_id: model_id.to_owned(),
                        },
                    ),
                };
                assert(Self::load_outcome(*old(self), *self, model_id@, told, replies, r));
                r
            },
        }
    }

    /// Takes what came of opening a built-in backend for a model. On failure
    /// nothing changes.
    pub fn finish_load(&mut self, model_id: &str, opened: Result<B, OpenError>) -> (r: Result<
        (),
        RegistryError,
    >)
        ensures
            final(self).same_setup(*old(self)),
            match opened {
                Ok(backend) => {
                    &&& r is Ok
                    &&& final(self).loaded() == old(self).loaded().insert(model_id@, backend)
                },
                Err(OpenError::Labels(failure)) => {
                    &&& r matches Err(RegistryError::Labels { model_id: id, source })
                    &&& id@ == model_id@
                    &&& source == failure
                    &&& final(self).loaded() == old(self).loaded()
                },
                Err(OpenError::Model(failure)) => {
                    &&& r == Err::<(), RegistryError>(RegistryError::Backend(failure))
                    &&& final(self).loaded() == old(self).loaded()
                },
            },
    {
        match opened {
            Ok(backend) => {
                self.put(model_id.to_owned(), backend);
                Ok(())
            },
            Err(OpenError::Labels(failure)) => Err(
                RegistryError::Labels { model_id: model_id.to_owned(), source: failure },
            ),
            Err(OpenError::Model(failure)) => Err(RegistryError::Backend(failure)),
        }
    }

    /// Whether `r` is an answer of `backend` to `input`.
    pub open spec fn answered(
        backend: B,
        input: &ModelInput,
        r: Result<Verdict, RegistryError>,
    ) -> bool {
        exists|reply: Result<Verdict, Failure>|
            {
                &&& #[trigger] call_ensures(B::classify, (&backend, input), reply)
                &&& r == match reply {
                    Ok(verdict) => Ok::<Verdict, RegistryError>(verdict),
                    Err(failure) => Err(RegistryError::Backend(failure)),
                }
            }
    }

    /// Classify input using a model that is loaded.
    pub fn classify_loaded(&self, model_id: &str, input: &ModelInput) -> (r: Result<
        Verdict,
        RegistryError,
    >)
        ensures
            if self.loaded().contains_key(model_id@) {
                Self::answered(self.loaded()[model_id@], input, r)
            } else {
                r matches Err(RegistryError::FailedToLoad { model_id: id }) && id@ == model_id@
            },
    {
        match self.models.get(model_id) {
            Some(backend) => {
                let reply = backend.classify(input);
                match reply {
                    Ok(verdict) => Ok(verdict),
                    Err(failure) => Err(RegistryError::Backend(failure)),
                }
            },
            None => Err(RegistryError::FailedToLoad { model_id: model_id.to_owned() }),
        }
    }

    /// Classify input using a specific model. Loads the model lazily if needed.
    ///
    /// Where a built-in backend is to be opened first, the answer is a plan, as
    /// it is for [`Self::load_model`].
    pub fn classify(&mut self, model_id: &str, input: &ModelInput) -> (r: Result<
        ClassifyStep,
        RegistryError,
    >)
        ensures
            exists|
                root: &str,
                replies: Seq<Result<Option<B>, Failure>>,
                step: Result<LoadStep, RegistryError>,
            |
                {
                    &&& #[trigger] Self::load_outcome(
                        *old(self),
                        *final(self),
                        model_id@,
                        root,
                        replies,
                        step,
                    )
                    &&& match step {
                        Ok(LoadStep::Loaded) => match r {
                            Ok(ClassifyStep::Answer(verdict)) => Self::answered(
                                final(self).loaded()[model_id@],
                                input,
                                Ok(verdict),
                            ),
                            Ok(ClassifyStep::Open(_)) => false,
                            Err(e) => Self::answered(
                                final(self).loaded()[model_id@],
                                input,
                                Err(e),
                            ),
                        },
                        Ok(LoadStep::Open(plan)) => r == Ok::<ClassifyStep, RegistryError>(
                            ClassifyStep::Open(plan),
                        ),
                        Err(e) => r == Err::<ClassifyStep, RegistryError>(e),
                    }
                },
    {
        match self.load_model(model_id) {
            Ok(LoadStep::Loaded) => match self.classify_loaded(model_id, input) {
                Ok(verdict) => Ok(ClassifyStep::Answer(verdict)),
                Err(e) => Err(e),
            },
            Ok(LoadStep::Open(plan)) => Ok(ClassifyStep::Open(plan)),
            Err(e) => Err(e),
        }
    }

    /// Whether `r` is what reloading a model comes to: the answer of its
    /// backend, or an error where the model is not loaded.
    pub open spec fn reloaded(
        &self,
        model_id: Seq<char>,
        new_path: &str,
        r: Result<(), RegistryError>,
    ) -> bool {
        if self.loaded().contains_key(model_id) {
            exists|reply: Result<(), Failure>|
                {
                    &&& #[trigger] call_ensures(
                        B::reload,
                        (&self.loaded()[model_id], new_path),
                        reply,
                    )
                    &&& r == match reply {
                        Ok(()) => Ok::<(), RegistryError>(()),
                        Err(failure) => Err(RegistryError::Backend(failure)),
                    }
                }
        } else {
            r matches Err(RegistryError::NotLoaded { model_id: id }) && id@ == model_id
        }
    }

    /// Hot-reload a model from a new path. The model must already be loaded.
    pub fn reload_model(&self, model_id: &str, new_path: &str) -> (r: Result<(), RegistryError>)
        ensures
            self.reloaded(model_id@, new_path, r),
    {
        match self.models.get(model_id) {
            Some(backend) => {
                let reply = backend.reload(new_path);
                match reply {
                    Ok(()) => Ok(()),
                    Err(failure) => Err(RegistryError::Backend(failure)),
                }
            },
            None => Err(RegistryError::NotLoaded { model_id: model_id.to_owned() }),
        }
    }
}

/// What holds of every registry.
impl<B: ModelBackend, F: Fn(&ModelConfig, &str) -> Result<Option<B>, Failure>> ModelRegistry<
    B,
    F,
> {
    /// Loading a model leaves every other model as it was, and an attempt that
    /// does not load the model leaves all of them.
    pub proof fn loading_touches_one_model(
        before: Self,
        after: Self,
        model_id: Seq<char>,
        root: &str,
        replies: Seq<Result<Option<B>, Failure>>,
        r: Result<LoadStep, RegistryError>,
        other: Seq<char>,
    )
        requires
            Self::load_outcome(before, after, model_id, root, replies, r),
        ensures
            other != model_id ==> {
                &&& after.loaded().contains_key(other) == before.loaded().contains_key(other)
                &&& after.loaded()[other] == before.loaded()[other]
            },
            r != Ok::<LoadStep, RegistryError>(LoadStep::Loaded) ==> after.loaded()
                == before.loaded(),
            r == Ok::<LoadStep, RegistryError>(LoadStep::Loaded) ==> after.loaded().contains_key(
                model_id,
            ),
    {
    }

    /// Loading a loaded model does nothing, whatever the configuration says of
    /// it by then.
    pub proof fn loading_again_does_nothing(
        before: Self,
        after: Self,
        model_id: Seq<char>,
        root: &str,
        replies: Seq<Result<Option<B>, Failure>>,
        r: Result<LoadStep, RegistryError>,
    )
        requires
            before.loaded().contains_key(model_id),
            Self::load_outcome(before, after, model_id, root, replies, r),
        ensures
            r == Ok::<LoadStep, RegistryError>(LoadStep::Loaded),
            after.loaded() == before.loaded(),
            after.same_setup(before),
    {
    }

    /// A model that is neither loaded nor configured cannot be loaded.
    pub proof fn an_unknown_model_is_refused(
        before: Self,
        after: Self,
        model_id: Seq<char>,
        root: &str,
        replies: Seq<Result<Option<B>, Failure>>,
        r: Result<LoadStep, RegistryError>,
    )
        requires
            !before.loaded().contains_key(model_id),
            find_model(before.configured(), model_id) is None,
            Self::load_outcome(before, after, model_id, root, replies, r),
        ensures
            r matches Err(e) && error_text(e) == "no model with id '"@ + model_id
                + "' in config"@,
            after.loaded() == before.loaded(),
    {
    }

    /// Without factories, a configured model of a built-in kind is opened as its
    /// configuration says, and any other is refused.
    pub proof fn without_factories_the_builtins_decide(
        before: Self,
        after: Self,
        model_id: Seq<char>,
        root: &str,
        replies: Seq<Result<Option<B>, Failure>>,
        r: Result<LoadStep, RegistryError>,
        c: ModelConfig,
    )
        requires
            !before.loaded().contains_key(model_id),
            find_model(before.configured(), model_id) == Some(c),
            before.factories().len() == 0,
            Self::load_outcome(before, after, model_id, root, replies, r),
        ensures
            Self::builtin_step(c, before.root(), before.style(), model_id, r),
            after.loaded() == before.loaded(),
    {
    }

    /// The first factory that takes a model wins: the built-in backends are not
    /// asked, even for a backend of theirs, and neither are later factories.
    pub proof fn the_first_factory_that_takes_a_model_wins(
        before: Self,
        after: Self,
        model_id: Seq<char>,
        root: &str,
        replies: Seq<Result<Option<B>, Failure>>,
        r: Result<LoadStep, RegistryError>,
        c: ModelConfig,
        k: int,
    )
        requires
            !before.loaded().contains_key(model_id),
            find_model(before.configured(), model_id) == Some(c),
            Self::load_outcome(before, after, model_id, root, replies, r),
            0 <= k < before.factories().len(),
            forall|i: int, reply: Result<Option<B>, Failure>|
                0 <= i < k && #[trigger] call_ensures(before.factories()[i], (&c, root), reply)
                    ==> reply == Ok::<Option<B>, Failure>(None),
            forall|reply: Result<Option<B>, Failure>| #[trigger]
                call_ensures(before.factories()[k], (&c, root), reply) ==> reply matches Ok(
                    Some(_),
                ),
        ensures
            r == Ok::<LoadStep, RegistryError>(LoadStep::Loaded),
            replies.len() == k + 1,
            replies[k] matches Ok(Some(backend)) && after.loaded() == before.loaded().insert(
                model_id,
                backend,
            ),
    {
        if replies.len() > k {
            assert(call_ensures(before.factories()[k], (&c, root), replies[k]));
            if replies.len() > k + 1 {
                assert(replies[k] == Ok::<Option<B>, Failure>(None));
            }
        } else if replies.len() > 0 {
            let last = replies.len() - 1;
            assert(call_ensures(before.factories()[last], (&c, root), replies[last]));
        }
    }
}

} // verus!
