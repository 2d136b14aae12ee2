//! What the registry is for.

use vstd::prelude::*;

use crate::config::{find_model, model_place, ModelConfig, MultimindConfig};
use crate::model::{Failure, ModelBackend, ModelInput, Verdict};
use crate::paths::PathStyle;
use crate::registry::{
    plan_builtin, BuiltinKind, BuiltinPlan, ClassifyStep, LoadStep, ModelRegistry, OpenError,
    RegistryError,
};

verus! {

/// Whether `path` is `relative` put behind `root`, where paths have slashes:
/// what starts with a slash stands for itself.
pub open spec fn is_behind(path: Seq<char>, root: Seq<char>, relative: Seq<char>) -> bool {
    &&& relative.len() > 0 && relative[0] == '/' ==> path == relative
    &&& !(relative.len() > 0 && relative[0] == '/') && (root.len() == 0 || root.last() == '/')
        ==> path == root + relative
    &&& !(relative.len() > 0 && relative[0] == '/') && root.len() > 0 && root.last() != '/'
        ==> path == root + seq!['/'] + relative
}

/// Whether `place` is the place of the first model with the given ID.
pub open spec fn is_first(models: Seq<ModelConfig>, id: Seq<char>, place: int) -> bool {
    &&& 0 <= place < models.len()
    &&& models[place].id@ == id
    &&& forall|k: int| 0 <= k < place ==> (#[trigger] models[k]).id@ != id
}

/// Whether a plan opens what a configuration asks for.
pub open spec fn opens(plan: BuiltinPlan, c: ModelConfig, root: Seq<char>, style: PathStyle) -> bool {
    &&& plan.min_confidence == c.min_confidence
    &&& c.backend@ == "onnx-text"@ ==> plan.kind == BuiltinKind::OnnxText
    &&& c.backend@ == "onnx-embed"@ ==> plan.kind == (BuiltinKind::OnnxEmbed {
        embedding_dim: match c.embedding_dim {
            Some(dim) => dim,
            None => 384,
        },
    })
    &&& style == PathStyle::Slash ==> is_behind(plan.model_path@, root, c.path@)
    &&& plan.labels_path is Some <==> c.labels is Some
    &&& style == PathStyle::Slash && c.labels is Some ==> is_behind(
        plan.labels_path->0@,
        root,
        c.labels->0@,
    )
}

/// The two built-in backends have different names.
proof fn lemma_literals()
    ensures
        "onnx-text"@ != "onnx-embed"@,
{
    reveal_strlit("onnx-text");
    reveal_strlit("onnx-embed");
    assert("onnx-text"@.len() != "onnx-embed"@.len());
}

/// The first place of an ID, if it has one.
proof fn lemma_place(models: Seq<ModelConfig>, id: Seq<char>)
    ensures
        0 <= model_place(models, id) <= models.len(),
        model_place(models, id) < models.len() ==> is_first(models, id, model_place(models, id)),
        model_place(models, id) == models.len() ==> forall|k: int|
            0 <= k < models.len() ==> (#[trigger] models[k]).id@ != id,
    decreases models.len(),
{
    if models.len() > 0 && models[0].id@ != id {
        let rest = models.drop_first();
        let p = model_place(rest, id);
        lemma_place(rest, id);
        if p < rest.len() {
            assert forall|k: int| 0 <= k < p + 1 implies (#[trigger] models[k]).id@ != id by {
                if k > 0 {
                    assert(rest[k - 1].id@ != id);
                }
            }
        } else {
            assert forall|k: int| 0 <= k < models.len() implies (#[trigger] models[k]).id@
                != id by {
                if k > 0 {
                    assert(rest[k - 1].id@ != id);
                }
            }
        }
    }
}

/// A configuration is found by its ID: the first one that has it, if any has.
pub proof fn models_are_found_by_id(config: &MultimindConfig, id: &str, r: Option<&ModelConfig>)
    requires
        call_ensures(MultimindConfig::get_model, (config, id), r),
    ensures
        r is None <==> forall|k: int|
            0 <= k < config.models@.len() ==> (#[trigger] config.models@[k]).id@ != id@,
        r matches Some(found) ==> exists|place: int| #[trigger]
            is_first(config.models@, id@, place) && config.models@[place] == *found,
{
    lemma_place(config.models@, id@);
    let place = model_place(config.models@, id@);
    if place < config.models@.len() {
        assert(is_first(config.models@, id@, place));
        assert(config.models@[place].id@ == id@);
    }
}

/// A built-in backend is planned for the two built-in kinds and for no other.
pub proof fn builtin_backends_are_planned(
    c: &ModelConfig,
    root: &str,
    style: PathStyle,
    r: Option<BuiltinPlan>,
)
    requires
        call_ensures(plan_builtin, (c, root, style), r),
    ensures
        r is Some <==> c.backend@ == "onnx-text"@ || c.backend@ == "onnx-embed"@,
        r matches Some(plan) ==> opens(plan, *c, root@, style),
{
    lemma_literals();
    lemma_joined(root@, c.path@);
    if c.labels is Some {
        lemma_joined(root@, c.labels->0@);
    }
}

/// A joined path is behind its root.
pub proof fn lemma_joined(root: Seq<char>, relative: Seq<char>)
    ensures
        is_behind(crate::paths::joined(root, relative), root, relative),
{
    assert(root.push('/') =~= root + seq!['/']);
}

/// The errors in words.
pub proof fn errors_in_words(error: &RegistryError, text: String)
    requires
        call_ensures(RegistryError::message, (error,), text),
    ensures
        *error matches RegistryError::NotConfigured { model_id } ==> text@ == "no model with id '"@
            + model_id@ + "' in config"@,
        *error matches RegistryError::UnsupportedBackend { backend, model_id } ==> text@
            == "unsupported backend type '"@ + backend@ + "' for model '"@ + model_id@
            + "'. Register a custom BackendFactory for non-built-in backends."@,
        *error matches RegistryError::Labels { model_id, source } ==> text@
            == "failed to load labels for model '"@ + model_id@ + "'"@,
        *error matches RegistryError::NotLoaded { model_id } ==> text@ == "model '"@ + model_id@
            + "' not loaded, can't reload"@,
        *error matches RegistryError::FailedToLoad { model_id } ==> text@ == "model '"@ + model_id@
            + "' failed to load"@,
        *error matches RegistryError::Backend(failure) ==> text@ == failure.message@,
{
}

/// Whether a registry went from `before` to `after` by loading a model, and
/// answered `step`. `replies` are those of the factories that were asked.
pub open spec fn loads<
    B: ModelBackend,
    F: Fn(&ModelConfig, &str) -> Result<Option<B>, Failure>,
>(
    before: ModelRegistry<B, F>,
    after: ModelRegistry<B, F>,
    id: Seq<char>,
    root: &str,
    replies: Seq<Result<Option<B>, Failure>>,
    step: Result<LoadStep, RegistryError>,
) -> bool {
    let unknown = forall|k: int|
        0 <= k < before.configured().len() ==> (#[trigger] before.configured()[k]).id@ != id;
    &&& after.configured() == before.configured()
    &&& after.root() == before.root()
    &&& after.style() == before.style()
    &&& after.factories() == before.factories()
    &&& before.loaded().contains_key(id) ==> after.loaded() == before.loaded() && step == Ok::<
        LoadStep,
        RegistryError,
    >(LoadStep::Loaded)
    &&& !before.loaded().contains_key(id) && unknown ==> {
        &&& after.loaded() == before.loaded()
        &&& step matches Err(RegistryError::NotConfigured { model_id })
        &&& model_id@ == id
    }
    &&& forall|place: int|
        !before.loaded().contains_key(id) && #[trigger] is_first(before.configured(), id, place)
            ==> {
            let c = before.configured()[place];
            let n = replies.len() as int;
            &&& root@ == before.root()
            &&& n <= before.factories().len()
            &&& forall|i: int|
                0 <= i < n ==> call_ensures(
                    before.factories()[i],
                    (&c, root),
                    #[trigger] replies[i],
                )
            &&& forall|i: int|
                0 <= i < n - 1 ==> (#[trigger] replies[i]) == Ok::<Option<B>, Failure>(None)
            &&& n < before.factories().len() ==> n > 0 && replies[n - 1] != Ok::<
                Option<B>,
                Failure,
            >(None)
            &&& n > 0 && replies[n - 1] is Err ==> after.loaded() == before.loaded() && step
                == Err::<LoadStep, RegistryError>(RegistryError::Backend(replies[n - 1]->Err_0))
            &&& n > 0 && replies[n - 1] is Ok && replies[n - 1]->Ok_0 is Some ==> after.loaded()
                == before.loaded().insert(id, replies[n - 1]->Ok_0->0) && step == Ok::<
                LoadStep,
                RegistryError,
            >(LoadStep::Loaded)
            &&& (n == 0 || replies[n - 1] == Ok::<Option<B>, Failure>(None)) ==> {
                &&& after.loaded() == before.loaded()
                &&& c.backend@ == "onnx-text"@ || c.backend@ == "onnx-embed"@ ==> (step matches Ok(
                    LoadStep::Open(plan),
                ) && opens(plan, c, before.root(), before.style()))
                &&& c.backend@ != "onnx-text"@ && c.backend@ != "onnx-embed"@ ==> (
                step matches Err(RegistryError::UnsupportedBackend { backend, model_id })
                    && backend@ == c.backend@ && model_id@ == id)
            }
        }
}

/// What loading comes to, written out.
proof fn lemma_loads<B: ModelBackend, F: Fn(&ModelConfig, &str) -> Result<Option<B>, Failure>>(
    before: ModelRegistry<B, F>,
    after: ModelRegistry<B, F>,
    id: Seq<char>,
    root: &str,
    replies: Seq<Result<Option<B>, Failure>>,
    step: Result<LoadStep, RegistryError>,
)
    requires
        ModelRegistry::<B, F>::load_outcome(before, after, id, root, replies, step),
    ensures
        loads(before, after, id, root, replies, step),
{
    let models = before.configured();
    lemma_literals();
    lemma_place(models, id);
    if !before.loaded().contains_key(id) {
        let p = model_place(models, id);
        if p < models.len() {
            assert(models[p].id@ == id);
            assert(find_model(models, id) == Some(models[p]));
            assert forall|place: int| #[trigger] is_first(models, id, place) implies place == p by {
                if place < p {
                    assert(models[place].id@ != id);
                } else if p < place {
                    assert(models[p].id@ != id);
                }
            }
            lemma_joined(before.root(), models[p].path@);
            if models[p].labels is Some {
                lemma_joined(before.root(), models[p].labels->0@);
            }
        } else {
            assert forall|place: int| !#[trigger] is_first(models, id, place) by {
                if is_first(models, id, place) {
                    assert(models[place].id@ != id);
                }
            }
        }
    }
}

/// Loading a model: nothing to do for a loaded one, an error for one that is not
/// configured. Otherwise the factories are asked about its first configuration, in
/// order, until one takes the model or fails, and that one settles the matter. Where
/// all of them pass, the built-in backends decide.
pub proof fn loading_asks_the_factories_then_the_builtins<
    B: ModelBackend,
    F: Fn(&ModelConfig, &str) -> Result<Option<B>, Failure>,
>(registry: &mut ModelRegistry<B, F>, id: &str, r: Result<LoadStep, RegistryError>)
    requires
        call_ensures(ModelRegistry::<B, F>::load_model, (registry, id), r),
    ensures
        exists|root: &str, replies: Seq<Result<Option<B>, Failure>>| #[trigger]
            loads(*old(registry), *final(registry), id@, root, replies, r),
{
    let (root, replies) = choose|root: &str, replies: Seq<Result<Option<B>, Failure>>| #[trigger]
        ModelRegistry::<B, F>::load_outcome(
            *old(registry),
            *final(registry),
            id@,
            root,
            replies,
            r,
        );
    lemma_loads(*old(registry), *final(registry), id@, root, replies, r);
}

/// A loaded model answers for itself: the verdict is the backend's own, label,
/// confidence, scores and all, and so is a failure. A model that is not loaded is
/// an error.
pub proof fn a_loaded_model_answers_for_itself<
    B: ModelBackend,
    F: Fn(&ModelConfig, &str) -> Result<Option<B>, Failure>,
>(
    registry: &ModelRegistry<B, F>,
    id: &str,
    input: &ModelInput,
    r: Result<Verdict, RegistryError>,
)
    requires
        call_ensures(ModelRegistry::<B, F>::classify_loaded, (registry, id, input), r),
    ensures
        registry.loaded().contains_key(id@) ==> {
            let backend = registry.loaded()[id@];
            &&& r matches Ok(verdict) ==> call_ensures(B::classify, (&backend, input), Ok(verdict))
            &&& r matches Err(e) ==> e matches RegistryError::Backend(failure) && call_ensures(
                B::classify,
                (&backend, input),
                Err(failure),
            )
        },
        !registry.loaded().contains_key(id@) ==> (r matches Err(
            RegistryError::FailedToLoad { model_id },
        ) && model_id@ == id@),
{
}

/// Classifying loads the model where it is not loaded yet, and then hands on what
/// its backend answers, as it is.
pub proof fn classifying_loads_and_answers<
    B: ModelBackend,
    F: Fn(&ModelConfig, &str) -> Result<Option<B>, Failure>,
>(
    registry: &mut ModelRegistry<B, F>,
    id: &str,
    input: &ModelInput,
    r: Result<ClassifyStep, RegistryError>,
)
    requires
        call_ensures(ModelRegistry::<B, F>::classify, (registry, id, input), r),
    ensures
        exists|
            root: &str,
            replies: Seq<Result<Option<B>, Failure>>,
            step: Result<LoadStep, RegistryError>,
        |
            {
                let backend = final(registry).loaded()[id@];
                &&& #[trigger] loads(*old(registry), *final(registry), id@, root, replies, step)
                &&& step == Ok::<LoadStep, RegistryError>(LoadStep::Loaded) ==> {
                    &&& final(registry).loaded().contains_key(id@)
                    &&& r !is Err ==> r->Ok_0 is Answer
                    &&& r matches Ok(ClassifyStep::Answer(verdict)) ==> call_ensures(
                        B::classify,
                        (&backend, input),
                        Ok(verdict),
                    )
                    &&& r matches Err(e) ==> e matches RegistryError::Backend(failure)
                        && call_ensures(B::classify, (&backend, input), Err(failure))
                }
                &&& step matches Ok(LoadStep::Open(plan)) ==> r == Ok::<
                    ClassifyStep,
                    RegistryError,
                >(ClassifyStep::Open(plan))
                &&& step matches Err(e) ==> r == Err::<ClassifyStep, RegistryError>(e)
            },
        old(registry).loaded().contains_key(id@) ==> final(registry).loaded() == old(
            registry,
        ).loaded() && (r matches Ok(ClassifyStep::Answer(verdict)) ==> call_ensures(
            B::classify,
            (&old(registry).loaded()[id@], input),
            Ok(verdict),
        )) && !(r matches Ok(ClassifyStep::Open(_))),
{
    let (root, replies, step) = choose|
        root: &str,
        replies: Seq<Result<Option<B>, Failure>>,
        step: Result<LoadStep, RegistryError>,
    |
        {
            &&& #[trigger] ModelRegistry::<B, F>::load_outcome(
                *old(registry),
                *final(registry),
                id@,
                root,
                replies,
                step,
            )
            &&& match step {
                Ok(LoadStep::Loaded) => match r {
                    Ok(ClassifyStep::Answer(verdict)) => ModelRegistry::<B, F>::answered(
                        final(registry).loaded()[id@],
                        input,
                        Ok(verdict),
                    ),
                    Ok(ClassifyStep::Open(_)) => false,
                    Err(e) => ModelRegistry::<B, F>::answered(
                        final(registry).loaded()[id@],
                        input,
                        Err(e),
                    ),
                },
                Ok(LoadStep::Open(plan)) => r == Ok::<ClassifyStep, RegistryError>(
                    ClassifyStep::Open(plan),
                ),
                Err(e) => r == Err::<ClassifyStep, RegistryError>(e),
            }
        };
    lemma_loads(*old(registry), *final(registry), id@, root, replies, step);
    ModelRegistry::<B, F>::loading_touches_one_model(
        *old(registry),
        *final(registry),
        id@,
        root,
        replies,
        step,
        id@,
    );
}

/// A backend that was registered under an ID, or opened for it, is the one that
/// answers under that ID, and leaves every other ID as it was.
pub proof fn registered_backends_answer<
    B: ModelBackend,
    F: Fn(&ModelConfig, &str) -> Result<Option<B>, Failure>,
>(
    registry: &mut ModelRegistry<B, F>,
    name: String,
    backend: B,
    id: &str,
    input: &ModelInput,
    r: Result<Verdict, RegistryError>,
    other: &str,
    was_loaded: bool,
    is_loaded: bool,
)
    requires
        call_ensures(ModelRegistry::<B, F>::register_model, (registry, name, backend), ()),
        id@ == name@,
        call_ensures(ModelRegistry::<B, F>::classify_loaded, (&*final(registry), id, input), r),
        call_ensures(ModelRegistry::<B, F>::is_loaded, (&*old(registry), other), was_loaded),
        call_ensures(ModelRegistry::<B, F>::is_loaded, (&*final(registry), other), is_loaded),
    ensures
        r matches Ok(verdict) ==> call_ensures(B::classify, (&backend, input), Ok(verdict)),
        r matches Err(e) ==> e matches RegistryError::Backend(failure) && call_ensures(
            B::classify,
            (&backend, input),
            Err(failure),
        ),
        is_loaded == (was_loaded || other@ == name@),
        other@ != name@ ==> final(registry).loaded()[other@] == old(registry).loaded()[other@],
        final(registry).configured() == old(registry).configured(),
        final(registry).factories() == old(registry).factories(),
        final(registry).root() == old(registry).root(),
{
}

/// What came of opening a built-in backend: an open one answers from then on, and
/// a failure is passed on and leaves everything as it was.
pub proof fn opened_backends_answer<
    B: ModelBackend,
    F: Fn(&ModelConfig, &str) -> Result<Option<B>, Failure>,
>(
    registry: &mut ModelRegistry<B, F>,
    id: &str,
    opened: Result<B, OpenError>,
    r: Result<(), RegistryError>,
    input: &ModelInput,
    answer: Result<Verdict, RegistryError>,
)
    requires
        call_ensures(ModelRegistry::<B, F>::finish_load, (registry, id, opened), r),
        call_ensures(
            ModelRegistry::<B, F>::classify_loaded,
            (&*final(registry), id, input),
            answer,
        ),
    ensures
        final(registry).configured() == old(registry).configured(),
        final(registry).factories() == old(registry).factories(),
        final(registry).root() == old(registry).root(),
        opened matches Ok(backend) ==> {
            &&& r is Ok
            &&& final(registry).loaded() == old(registry).loaded().insert(id@, backend)
            &&& answer matches Ok(verdict) ==> call_ensures(
                B::classify,
                (&backend, input),
                Ok(verdict),
            )
        },
        opened matches Err(OpenError::Labels(failure)) ==> {
            &&& r matches Err(RegistryError::Labels { model_id, source })
            &&& model_id@ == id@
            &&& source == failure
            &&& final(registry).loaded() == old(registry).loaded()
        },
        opened matches Err(OpenError::Model(failure)) ==> {
            &&& r == Err::<(), RegistryError>(RegistryError::Backend(failure))
            &&& final(registry).loaded() == old(registry).loaded()
        },
{
}

/// A loaded model is reloaded by its own backend from the given path, and its
/// answer is passed on. A model that is not loaded is an error.
pub proof fn reloading_is_the_backends_own<
    B: ModelBackend,
    F: Fn(&ModelConfig, &str) -> Result<Option<B>, Failure>,
>(
    registry: &ModelRegistry<B, F>,
    id: &str,
    path: &str,
    r: Result<(), RegistryError>,
)
    requires
        call_ensures(ModelRegistry::<B, F>::reload_model, (registry, id, path), r),
    ensures
        registry.loaded().contains_key(id@) ==> {
            let backend = registry.loaded()[id@];
            &&& r is Ok ==> call_ensures(B::reload, (&backend, path), Ok(()))
            &&& r matches Err(e) ==> e matches RegistryError::Backend(failure) && call_ensures(
                B::reload,
                (&backend, path),
                Err(failure),
            )
        },
        !registry.loaded().contains_key(id@) ==> (r matches Err(
            RegistryError::NotLoaded { model_id },
        ) && model_id@ == id@),
{
    if registry.loaded().contains_key(id@) {
        let reply = choose|reply: Result<(), Failure>|
            {
                &&& #[trigger] call_ensures(B::reload, (&registry.loaded()[id@], path), reply)
                &&& r == match reply {
                    Ok(()) => Ok::<(), RegistryError>(()),
                    Err(failure) => Err(RegistryError::Backend(failure)),
                }
            };
        if reply is Ok {
            assert(reply->Ok_0 == ());
        }
    }
}

/// Unloading takes out one model and tells whether it was there.
pub proof fn unloading_takes_out_one_model<
    B: ModelBackend,
    F: Fn(&ModelConfig, &str) -> Result<Option<B>, Failure>,
>(
    registry: &mut ModelRegistry<B, F>,
    id: &str,
    r: bool,
    other: &str,
    was_loaded: bool,
    is_loaded: bool,
)
    requires
        call_ensures(ModelRegistry::<B, F>::unload_model, (registry, id), r),
        call_ensures(ModelRegistry::<B, F>::is_loaded, (&*old(registry), other), was_loaded),
        call_ensures(ModelRegistry::<B, F>::is_loaded, (&*final(registry), other), is_loaded),
    ensures
        other@ == id@ ==> r == was_loaded && !is_loaded,
        other@ != id@ ==> is_loaded == was_loaded && final(registry).loaded()[other@] == old(
            registry,
        ).loaded()[other@],
        final(registry).configured() == old(registry).configured(),
        final(registry).factories() == old(registry).factories(),
        final(registry).root() == old(registry).root(),
{
}

/// A new registry has the configured models, in order, and has loaded none. It
/// asks nobody: the built-in backends decide.
pub proof fn a_new_registry_has_loaded_nothing<
    B: ModelBackend,
    F: Fn(&ModelConfig, &str) -> Result<Option<B>, Failure>,
>(
    config: MultimindConfig,
    model_root: String,
    style: PathStyle,
    registry: ModelRegistry<B, F>,
    ids: Vec<String>,
    id: &str,
    loaded: bool,
    found: Option<ModelConfig>,
    i: int,
)
    requires
        call_ensures(ModelRegistry::<B, F>::new, (config, model_root, style), registry),
        call_ensures(ModelRegistry::<B, F>::model_ids, (&registry,), ids),
        call_ensures(ModelRegistry::<B, F>::is_loaded, (&registry, id), loaded),
        call_ensures(ModelRegistry::<B, F>::get_model_config, (&registry, id), found),
    ensures
        !loaded,
        ids@.len() == config.models@.len(),
        0 <= i < ids@.len() ==> ids@[i]@ == config.models@[i].id@,
        found is None <==> forall|k: int|
            0 <= k < config.models@.len() ==> (#[trigger] config.models@[k]).id@ != id@,
        found matches Some(c) ==> exists|place: int| #[trigger]
            is_first(config.models@, id@, place) && says_the_same(c, config.models@[place]),
        registry.configured() == config.models@,
        registry.root() == model_root@,
        registry.style() == style,
        registry.factories().len() == 0,
{
    lemma_place(config.models@, id@);
    let place = model_place(config.models@, id@);
    if place < config.models@.len() {
        assert(is_first(config.models@, id@, place));
        assert(config.models@[place].id@ == id@);
        assert(found is Some);
        lemma_same_config(found->0, config.models@[place]);
    }
}

/// Whether two configurations say the same.
pub open spec fn says_the_same(a: ModelConfig, b: ModelConfig) -> bool {
    &&& a.id@ == b.id@
    &&& a.backend@ == b.backend@
    &&& a.path@ == b.path@
    &&& a.labels is Some <==> b.labels is Some
    &&& a.labels is Some ==> a.labels->0@ == b.labels->0@
    &&& a.classes is Some <==> b.classes is Some
    &&& a.classes is Some ==> a.classes->0@.len() == b.classes->0@.len() && forall|k: int|
        0 <= k < a.classes->0@.len() ==> (#[trigger] a.classes->0@[k])@ == b.classes->0@[k]@
    &&& a.min_confidence == b.min_confidence
    &&& a.embedding_dim == b.embedding_dim
    &&& a.retrain == b.retrain
}

/// Configurations with the same view say the same.
proof fn lemma_same_config(a: ModelConfig, b: ModelConfig)
    requires
        a@ == b@,
    ensures
        says_the_same(a, b),
{
    assert(a@.labels == b@.labels);
    assert(a@.classes == b@.classes);
    if a.classes is Some {
        let (x, y) = (a@.classes->0, b@.classes->0);
        assert(x.len() == a.classes->0@.len());
        assert forall|k: int| 0 <= k < a.classes->0@.len() implies (#[trigger] a.classes->0@[k])@
            == b.classes->0@[k]@ by {
            assert(x[k] == y[k]);
        }
    }
}

/// A new config replaces the old one, and leaves loaded models, factories and the
/// root as they were.
pub proof fn a_new_config_leaves_models_loaded<
    B: ModelBackend,
    F: Fn(&ModelConfig, &str) -> Result<Option<B>, Failure>,
>(registry: &mut ModelRegistry<B, F>, config: MultimindConfig, ids: Vec<String>, i: int)
    requires
        call_ensures(ModelRegistry::<B, F>::update_config, (registry, config), ()),
        call_ensures(ModelRegistry::<B, F>::model_ids, (&*final(registry),), ids),
    ensures
        ids@.len() == config.models@.len(),
        0 <= i < ids@.len() ==> ids@[i]@ == config.models@[i].id@,
        final(registry).configured() == config.models@,
        final(registry).loaded() == old(registry).loaded(),
        final(registry).factories() == old(registry).factories(),
        final(registry).root() == old(registry).root(),
        final(registry).style() == old(registry).style(),
{
}

/// A factory is asked about a model's first configuration and the root that the
/// registry was made with, before the built-in backends. Where it takes the model,
/// its backend answers.
pub proof fn a_factory_is_asked_before_the_builtins<
    B: ModelBackend,
    F: Fn(&ModelConfig, &str) -> Result<Option<B>, Failure>,
>(
    config: MultimindConfig,
    model_root: String,
    style: PathStyle,
    fresh: ModelRegistry<B, F>,
    registering: &mut ModelRegistry<B, F>,
    factory: F,
    loading: &mut ModelRegistry<B, F>,
    id: &str,
    place: int,
    r: Result<LoadStep, RegistryError>,
)
    requires
        call_ensures(ModelRegistry::<B, F>::new, (config, model_root, style), fresh),
        *old(registering) == fresh,
        call_ensures(ModelRegistry::<B, F>::register_backend_factory, (registering, factory), ()),
        *old(loading) == *final(registering),
        call_ensures(ModelRegistry::<B, F>::load_model, (loading, id), r),
        is_first(config.models@, id@, place),
    ensures
        exists|root: &str, reply: Result<Option<B>, Failure>|
            {
                &&& root@ == model_root@
                &&& #[trigger] call_ensures(factory, (&config.models@[place], root), reply)
                &&& reply matches Ok(Some(backend)) ==> r == Ok::<LoadStep, RegistryError>(
                    LoadStep::Loaded,
                ) && final(loading).loaded().contains_key(id@) && final(loading).loaded()[id@]
                    == backend
                &&& reply matches Err(failure) ==> r == Err::<LoadStep, RegistryError>(
                    RegistryError::Backend(failure),
                )
                &&& reply == Ok::<Option<B>, Failure>(None) ==> !(r matches Ok(LoadStep::Loaded))
            },
{
    loading_asks_the_factories_then_the_builtins(loading, id, r);
    let (root, replies) = choose|root: &str, replies: Seq<Result<Option<B>, Failure>>| #[trigger]
        loads(*old(loading), *final(loading), id@, root, replies, r);
    let c = config.models@[place];
    assert(is_first(old(loading).configured(), id@, place));
    assert(old(loading).factories().len() == 1);
    assert(replies.len() == 1);
    assert(call_ensures(old(loading).factories()[0], (&c, root), replies[0]));
    assert(old(loading).factories()[0] == factory);
}

/// The answer of one factory about a model: a backend is loaded, a failure is
/// passed on, and to pass is to go on with the next.
pub proof fn factory_replies_are_taken_as_they_are<
    B: ModelBackend,
    F: Fn(&ModelConfig, &str) -> Result<Option<B>, Failure>,
>(
    registry: &mut ModelRegistry<B, F>,
    id: &str,
    reply: Result<Option<B>, Failure>,
    r: Option<Result<LoadStep, RegistryError>>,
)
    requires
        call_ensures(ModelRegistry::<B, F>::take_factory_reply, (registry, id, reply), r),
    ensures
        reply matches Ok(Some(backend)) ==> r == Some(
            Ok::<LoadStep, RegistryError>(LoadStep::Loaded),
        ) && final(registry).loaded() == old(registry).loaded().insert(id@, backend),
        reply == Ok::<Option<B>, Failure>(None) ==> r is None && final(registry).loaded() == old(
            registry,
        ).loaded(),
        reply matches Err(failure) ==> r == Some(
            Err::<LoadStep, RegistryError>(RegistryError::Backend(failure)),
        ) && final(registry).loaded() == old(registry).loaded(),
        final(registry).configured() == old(registry).configured(),
        final(registry).factories() == old(registry).factories(),
        final(registry).root() == old(registry).root(),
{
}

/// A registry tells of its configuration and of what it has loaded as they are.
pub proof fn a_registry_tells_what_it_has<
    B: ModelBackend,
    F: Fn(&ModelConfig, &str) -> Result<Option<B>, Failure>,
>(
    registry: &ModelRegistry<B, F>,
    ids: Vec<String>,
    id: &str,
    loaded: bool,
    found: Option<ModelConfig>,
    i: int,
)
    requires
        call_ensures(ModelRegistry::<B, F>::model_ids, (registry,), ids),
        call_ensures(ModelRegistry::<B, F>::is_loaded, (registry, id), loaded),
        call_ensures(ModelRegistry::<B, F>::get_model_config, (registry, id), found),
    ensures
        loaded <==> registry.loaded().contains_key(id@),
        ids@.len() == registry.configured().len(),
        0 <= i < ids@.len() ==> ids@[i]@ == registry.configured()[i].id@,
        found is None <==> forall|k: int|
            0 <= k < registry.configured().len() ==> (#[trigger] registry.configured()[k]).id@
                != id@,
        found matches Some(c) ==> exists|place: int| #[trigger]
            is_first(registry.configured(), id@, place) && says_the_same(
                c,
                registry.configured()[place],
            ),
{
    let models = registry.configured();
    lemma_place(models, id@);
    let place = model_place(models, id@);
    if place < models.len() {
        assert(is_first(models, id@, place));
        assert(models[place].id@ == id@);
        lemma_same_config(found->0, models[place]);
    }
}

/// A factory is put behind the others, and nothing else changes.
pub proof fn factories_are_kept_in_order<
    B: ModelBackend,
    F: Fn(&ModelConfig, &str) -> Result<Option<B>, Failure>,
>(registry: &mut ModelRegistry<B, F>, factory: F, i: int)
    requires
        call_ensures(ModelRegistry::<B, F>::register_backend_factory, (registry, factory), ()),
    ensures
        final(registry).factories().len() == old(registry).factories().len() + 1,
        final(registry).factories().last() == factory,
        0 <= i < old(registry).factories().len() ==> final(registry).factories()[i] == old(
            registry,
        ).factories()[i],
        final(registry).configured() == old(registry).configured(),
        final(registry).loaded() == old(registry).loaded(),
        final(registry).root() == old(registry).root(),
        final(registry).style() == old(registry).style(),
{
}

} // verus!
