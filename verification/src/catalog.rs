//! The models of a provider: those that its plugin declares, and those that its accounts have.

use vstd::prelude::*;

use crate::fault::{
    refused, unsent_error, AdminError, AdminReason, ProviderError, ProviderErrorKind,
};
use crate::manifest::{Capability, Manifest, Stage};
use crate::sorted::SortedTable;
use crate::text::same;

pub mod account;
pub mod cache;
pub mod directory;
pub mod discovery;

verus! {

/// The most models of a catalog.
pub const MAX_MODELS: usize = 4096;

/// The longest time for which the models of an account are kept, in seconds.
pub const MAX_CACHE_TTL_SECONDS: u32 = 3600;

/// What is asked of a model.
#[derive(Clone, Copy, Debug, PartialEq, Eq, Structural)]
pub enum OperationKind {
    Generate,
    GenerateImage,
    Search,
    CountTokens,
    ProviderHttp,
}

/// What a model can do besides.
#[derive(Clone, Copy, Debug, PartialEq, Eq, Structural)]
pub enum ModelFeature {
    Tools,
    Vision,
    Reasoning,
    JsonSchema,
    NativeContinuation,
}

/// A model, as a plugin declares it.
pub struct ModelDescriptor {
    pub id: String,
    /// The name can be that of a model.
    pub is_model: bool,
    pub operations: Vec<OperationKind>,
    pub features: Vec<ModelFeature>,
    pub maximum_output_tokens: Option<u64>,
}

/// What is said of a model.
#[verifier::ext_equal]
pub struct ModelView {
    pub id: Seq<char>,
    pub is_model: bool,
    pub operations: Seq<OperationKind>,
    pub features: Seq<ModelFeature>,
    pub maximum_output_tokens: Option<u64>,
}

impl View for ModelDescriptor {
    type V = ModelView;

    open spec fn view(&self) -> ModelView {
        ModelView {
            id: self.id@,
            is_model: self.is_model,
            operations: self.operations@,
            features: self.features@,
            maximum_output_tokens: self.maximum_output_tokens,
        }
    }
}

/// What is said of several models.
pub open spec fn model_views(models: Seq<ModelDescriptor>) -> Seq<ModelView> {
    Seq::new(models.len(), |i: int| models[i]@)
}

/// Whether a list of operations holds an operation.
pub fn has_operation(operations: &Vec<OperationKind>, operation: OperationKind) -> (r: bool)
    ensures
        r == operations@.contains(operation),
{
    for i in 0..operations.len()
        invariant
            forall|j: int| 0 <= j < i ==> operations@[j] != operation,
    {
        if operations[i] == operation {
            return true;
        }
    }
    false
}

/// Whether a list of features holds a feature.
pub fn has_feature(features: &Vec<ModelFeature>, feature: ModelFeature) -> (r: bool)
    ensures
        r == features@.contains(feature),
{
    for i in 0..features.len()
        invariant
            forall|j: int| 0 <= j < i ==> features@[j] != feature,
    {
        if features[i] == feature {
            return true;
        }
    }
    false
}

fn distinct_operations(operations: &Vec<OperationKind>) -> (r: bool)
    ensures
        r == operations@.no_duplicates(),
{
    for i in 0..operations.len()
        invariant
            forall|j: int, k: int| 0 <= j < k < i ==> operations@[j] != operations@[k],
    {
        for j in 0..i
            invariant
                i < operations@.len(),
                forall|k: int| 0 <= k < j ==> operations@[k] != operations@[i as int],
        {
            if operations[j] == operations[i] {
                return false;
            }
        }
    }
    true
}

fn distinct_features(features: &Vec<ModelFeature>) -> (r: bool)
    ensures
        r == features@.no_duplicates(),
{
    for i in 0..features.len()
        invariant
            forall|j: int, k: int| 0 <= j < k < i ==> features@[j] != features@[k],
    {
        for j in 0..i
            invariant
                i < features@.len(),
                forall|k: int| 0 <= k < j ==> features@[k] != features@[i as int],
        {
            if features[j] == features[i] {
                return false;
            }
        }
    }
    true
}

/// What a model can do is spelled out once, and is something.
pub open spec fn is_capable(model: ModelDescriptor) -> bool {
    &&& model.operations@.len() > 0
    &&& model.operations@.no_duplicates()
    &&& !model.operations@.contains(OperationKind::ProviderHttp)
    &&& model.features@.no_duplicates()
    &&& model.maximum_output_tokens != Some(0u64)
}

/// A model before a place has the same name as the one there.
pub open spec fn is_repeated(models: Seq<ModelDescriptor>, k: int) -> bool {
    exists|j: int| 0 <= j < k && (#[trigger] models[j]).id@ == models[k].id@
}

/// What is wrong with the model at a place.
pub open spec fn model_fault(models: Seq<ModelDescriptor>, k: int) -> Option<AdminReason> {
    if !models[k].is_model {
        Some(AdminReason::ModelId)
    } else if is_repeated(models, k) || !is_capable(models[k]) {
        Some(AdminReason::ModelCapabilities)
    } else {
        None
    }
}

/// The first thing that is wrong with the models before a place.
pub open spec fn first_fault(models: Seq<ModelDescriptor>, n: int) -> Option<AdminReason>
    decreases n,
{
    if n <= 0 {
        None
    } else if first_fault(models, n - 1) is Some {
        first_fault(models, n - 1)
    } else {
        model_fault(models, n - 1)
    }
}

/// What is wrong with a catalog.
pub open spec fn models_fault(models: Seq<ModelDescriptor>) -> Option<AdminReason> {
    if models.len() > MAX_MODELS {
        Some(AdminReason::TooManyModels)
    } else {
        first_fault(models, models.len() as int)
    }
}

/// A fault of the first models is that of all of them.
proof fn lemma_fault_stays(models: Seq<ModelDescriptor>, n: int, m: int)
    requires
        0 <= n <= m,
        first_fault(models, n) is Some,
    ensures
        first_fault(models, m) == first_fault(models, n),
    decreases m - n,
{
    if n < m {
        lemma_fault_stays(models, n, m - 1);
    }
}

pub fn validate(models: &Vec<ModelDescriptor>) -> (result: Result<(), AdminError>)
    ensures
        result == match models_fault(models@) {
            Some(reason) => Err::<(), AdminError>(refused(reason)),
            None => Ok(()),
        },
{
    if models.len() > MAX_MODELS {
        return Err(AdminError::invalid(AdminReason::TooManyModels));
    }
    for k in 0..models.len()
        invariant
            models@.len() <= MAX_MODELS,
            first_fault(models@, k as int) is None,
    {
        let model = &models[k];
        let mut repeated = false;
        for j in 0..k
            invariant
                k < models@.len(),
                repeated == exists|i: int|
                    0 <= i < j && (#[trigger] models@[i]).id@ == models@[k as int].id@,
        {
            let ghost before = repeated;
            if same(models[j].id.as_str(), models[k].id.as_str()) {
                repeated = true;
                assert(models@[j as int].id@ == models@[k as int].id@);
            } else {
                proof {
                    if before {
                        let i = choose|i: int|
                            0 <= i < j && (#[trigger] models@[i]).id@ == models@[k as int].id@;
                        assert(models@[i].id@ == models@[k as int].id@);
                    }
                }
            }
        }
        let unlimited = match model.maximum_output_tokens {
            Some(n) => n != 0,
            None => true,
        };
        let capable = model.operations.len() > 0 && distinct_operations(&model.operations)
            && !has_operation(&model.operations, OperationKind::ProviderHttp) && distinct_features(
            &model.features,
        ) && unlimited;
        proof {
            assert(repeated == is_repeated(models@, k as int));
            assert(capable == is_capable(models@[k as int]));
            assert(first_fault(models@, k + 1) == model_fault(models@, k as int));
            if first_fault(models@, k + 1) is Some {
                lemma_fault_stays(models@, k + 1, models@.len() as int);
            }
        }
        if !model.is_model {
            return Err(AdminError::invalid(AdminReason::ModelId));
        }
        if repeated || !capable {
            return Err(AdminError::invalid(AdminReason::ModelCapabilities));
        }
    }
    Ok(())
}

/// What a model can do, as the engine is told.
pub struct ProviderModelCapabilities {
    pub model: String,
    pub operations: Vec<OperationKind>,
    pub features: Vec<ModelFeature>,
    pub maximum_output_tokens: Option<u64>,
}

/// What keeps a model from the engine.
pub open spec fn compile_fault(model: ModelDescriptor) -> Option<AdminReason> {
    if model.operations@.contains(OperationKind::ProviderHttp) {
        Some(AdminReason::ProviderHttpAsModelOperation)
    } else if !model.is_model {
        Some(AdminReason::ModelId)
    } else {
        None
    }
}

fn copy_operations(operations: &Vec<OperationKind>) -> (copy: Vec<OperationKind>)
    ensures
        copy@ == operations@,
{
    let mut copy: Vec<OperationKind> = Vec::new();
    for i in 0..operations.len()
        invariant
            copy@ == operations@.take(i as int),
    {
        copy.push(operations[i]);
        assert(copy@ =~= operations@.take(i + 1));
    }
    assert(operations@.take(operations@.len() as int) =~= operations@);
    copy
}

fn copy_features(features: &Vec<ModelFeature>) -> (copy: Vec<ModelFeature>)
    ensures
        copy@ == features@,
{
    let mut copy: Vec<ModelFeature> = Vec::new();
    for i in 0..features.len()
        invariant
            copy@ == features@.take(i as int),
    {
        copy.push(features[i]);
        assert(copy@ =~= features@.take(i + 1));
    }
    assert(features@.take(features@.len() as int) =~= features@);
    copy
}

/// What the engine is told of a model.
pub open spec fn is_compiled(compiled: ProviderModelCapabilities, model: ModelView) -> bool {
    &&& compiled.model@ == model.id
    &&& compiled.operations@ == model.operations
    &&& compiled.features@ == model.features
    &&& compiled.maximum_output_tokens == model.maximum_output_tokens
}

pub fn compile(model: &ModelDescriptor) -> (result: Result<ProviderModelCapabilities, AdminError>)
    ensures
        match compile_fault(*model) {
            Some(reason) => result matches Err(error) && error == refused(reason),
            None => result matches Ok(compiled) && is_compiled(compiled, model@),
        },
{
    if has_operation(&model.operations, OperationKind::ProviderHttp) {
        return Err(AdminError::invalid(AdminReason::ProviderHttpAsModelOperation));
    }
    if !model.is_model {
        return Err(AdminError::invalid(AdminReason::ModelId));
    }
    Ok(
        ProviderModelCapabilities {
            model: model.id.clone(),
            operations: copy_operations(&model.operations),
            features: copy_features(&model.features),
            maximum_output_tokens: model.maximum_output_tokens,
        },
    )
}

/// Every model of a valid catalog can be told to the engine.
pub proof fn valid_models_compile(models: Seq<ModelDescriptor>, k: int)
    requires
        models_fault(models) is None,
        0 <= k < models.len(),
    ensures
        compile_fault(models[k]) is None,
{
    if first_fault(models, k + 1) is Some {
        lemma_fault_stays(models, k + 1, models.len() as int);
    }
}

impl ModelDescriptor {
    pub fn copy(&self) -> (copy: Self)
        ensures
            copy@ == self@,
    {
        ModelDescriptor {
            id: self.id.clone(),
            is_model: self.is_model,
            operations: copy_operations(&self.operations),
            features: copy_features(&self.features),
            maximum_output_tokens: self.maximum_output_tokens,
        }
    }
}

/// An operation, if a condition holds.
pub open spec fn operation_if(condition: bool, operation: OperationKind) -> Seq<OperationKind> {
    if condition {
        seq![operation]
    } else {
        Seq::empty()
    }
}

/// A feature, if a condition holds.
pub open spec fn feature_if(condition: bool, feature: ModelFeature) -> Seq<ModelFeature> {
    if condition {
        seq![feature]
    } else {
        Seq::empty()
    }
}

/// The operations of either list, each once, in their order.
pub open spec fn merged_operations(a: Seq<OperationKind>, b: Seq<OperationKind>) -> Seq<
    OperationKind,
> {
    operation_if(
        a.contains(OperationKind::Generate) || b.contains(OperationKind::Generate),
        OperationKind::Generate,
    ) + operation_if(
        a.contains(OperationKind::GenerateImage) || b.contains(OperationKind::GenerateImage),
        OperationKind::GenerateImage,
    ) + operation_if(
        a.contains(OperationKind::Search) || b.contains(OperationKind::Search),
        OperationKind::Search,
    ) + operation_if(
        a.contains(OperationKind::CountTokens) || b.contains(OperationKind::CountTokens),
        OperationKind::CountTokens,
    ) + operation_if(
        a.contains(OperationKind::ProviderHttp) || b.contains(OperationKind::ProviderHttp),
        OperationKind::ProviderHttp,
    )
}

/// The features of either list, each once, in their order.
pub open spec fn merged_features(a: Seq<ModelFeature>, b: Seq<ModelFeature>) -> Seq<ModelFeature> {
    feature_if(
        a.contains(ModelFeature::Tools) || b.contains(ModelFeature::Tools),
        ModelFeature::Tools,
    ) + feature_if(
        a.contains(ModelFeature::Vision) || b.contains(ModelFeature::Vision),
        ModelFeature::Vision,
    ) + feature_if(
        a.contains(ModelFeature::Reasoning) || b.contains(ModelFeature::Reasoning),
        ModelFeature::Reasoning,
    ) + feature_if(
        a.contains(ModelFeature::JsonSchema) || b.contains(ModelFeature::JsonSchema),
        ModelFeature::JsonSchema,
    ) + feature_if(
        a.contains(ModelFeature::NativeContinuation) || b.contains(
            ModelFeature::NativeContinuation,
        ),
        ModelFeature::NativeContinuation,
    )
}

/// The higher of two limits; no limit, where one of them is missing.
pub open spec fn merged_limit(a: Option<u64>, b: Option<u64>) -> Option<u64> {
    match (a, b) {
        (Some(a), Some(b)) => Some(
            if a >= b {
                a
            } else {
                b
            },
        ),
        _ => None,
    }
}

/// What two accounts can do with one model between them.
pub open spec fn merged(previous: ModelView, model: ModelView) -> ModelView {
    ModelView {
        id: previous.id,
        is_model: previous.is_model,
        operations: merged_operations(previous.operations, model.operations),
        features: merged_features(previous.features, model.features),
        maximum_output_tokens: merged_limit(
            previous.maximum_output_tokens,
            model.maximum_output_tokens,
        ),
    }
}

/// A directory with one more model in it.
pub open spec fn joined(directory: Map<Seq<char>, ModelView>, model: ModelView) -> Map<
    Seq<char>,
    ModelView,
> {
    directory.insert(
        model.id,
        if directory.contains_key(model.id) {
            merged(directory[model.id], model)
        } else {
            model
        },
    )
}

/// A directory with several more models in it.
pub open spec fn union_of(directory: Map<Seq<char>, ModelView>, models: Seq<ModelView>) -> Map<
    Seq<char>,
    ModelView,
>
    decreases models.len(),
{
    if models.len() == 0 {
        directory
    } else {
        joined(union_of(directory, models.drop_last()), models.last())
    }
}

/// What a directory says.
pub open spec fn directory_view(directory: SortedTable<ModelDescriptor>) -> Map<
    Seq<char>,
    ModelView,
> {
    directory@.map_values(|model: ModelDescriptor| model@)
}

fn merge_operations(a: &Vec<OperationKind>, b: &Vec<OperationKind>) -> (merged: Vec<OperationKind>)
    ensures
        merged@ == merged_operations(a@, b@),
{
    let mut merged: Vec<OperationKind> = Vec::new();
    if has_operation(a, OperationKind::Generate) || has_operation(b, OperationKind::Generate) {
        merged.push(OperationKind::Generate);
    }
    if has_operation(a, OperationKind::GenerateImage) || has_operation(
        b,
        OperationKind::GenerateImage,
    ) {
        merged.push(OperationKind::GenerateImage);
    }
    if has_operation(a, OperationKind::Search) || has_operation(b, OperationKind::Search) {
        merged.push(OperationKind::Search);
    }
    if has_operation(a, OperationKind::CountTokens) || has_operation(b, OperationKind::CountTokens) {
        merged.push(OperationKind::CountTokens);
    }
    if has_operation(a, OperationKind::ProviderHttp) || has_operation(
        b,
        OperationKind::ProviderHttp,
    ) {
        merged.push(OperationKind::ProviderHttp);
    }
    assert(merged@ =~= merged_operations(a@, b@));
    merged
}

fn merge_features(a: &Vec<ModelFeature>, b: &Vec<ModelFeature>) -> (merged: Vec<ModelFeature>)
    ensures
        merged@ == merged_features(a@, b@),
{
    let mut merged: Vec<ModelFeature> = Vec::new();
    if has_feature(a, ModelFeature::Tools) || has_feature(b, ModelFeature::Tools) {
        merged.push(ModelFeature::Tools);
    }
    if has_feature(a, ModelFeature::Vision) || has_feature(b, ModelFeature::Vision) {
        merged.push(ModelFeature::Vision);
    }
    if has_feature(a, ModelFeature::Reasoning) || has_feature(b, ModelFeature::Reasoning) {
        merged.push(ModelFeature::Reasoning);
    }
    if has_feature(a, ModelFeature::JsonSchema) || has_feature(b, ModelFeature::JsonSchema) {
        merged.push(ModelFeature::JsonSchema);
    }
    if has_feature(a, ModelFeature::NativeContinuation) || has_feature(
        b,
        ModelFeature::NativeContinuation,
    ) {
        merged.push(ModelFeature::NativeContinuation);
    }
    assert(merged@ =~= merged_features(a@, b@));
    merged
}

fn merge(previous: ModelDescriptor, model: ModelDescriptor) -> (result: ModelDescriptor)
    ensures
        result@ == merged(previous@, model@),
{
    let operations = merge_operations(&previous.operations, &model.operations);
    let features = merge_features(&previous.features, &model.features);
    let maximum_output_tokens = match (
        previous.maximum_output_tokens,
        model.maximum_output_tokens,
    ) {
        (Some(a), Some(b)) => Some(
            if a >= b {
                a
            } else {
                b
            },
        ),
        _ => None,
    };
    ModelDescriptor {
        id: previous.id,
        is_model: previous.is_model,
        operations,
        features,
        maximum_output_tokens,
    }
}

/// Puts one more model into a directory.
fn join(directory: &mut SortedTable<ModelDescriptor>, model: ModelDescriptor)
    requires
        old(directory).well_formed(),
    ensures
        final(directory).well_formed(),
        directory_view(*final(directory)) == joined(directory_view(*old(directory)), model@),
{
    let ghost before = directory_view(*directory);
    let name = model.id.clone();
    let next = match directory.remove(name.as_str()) {
        Some(previous) => merge(previous, model),
        None => model,
    };
    let ghost value = next@;
    directory.insert(name, next);
    proof {
        assert(directory_view(*directory) =~= before.insert(name@, value));
    }
}

/// Puts several more models into a directory. The engine is told which models some account has; the
/// account that serves a request is held to its own models besides.
pub fn union(directory: &mut SortedTable<ModelDescriptor>, models: Vec<ModelDescriptor>) -> (result:
    Result<(), AdminError>)
    requires
        old(directory).well_formed(),
    ensures
        final(directory).well_formed(),
        is_united(
            directory_view(*old(directory)),
            model_views(models@),
            directory_view(*final(directory)),
            result,
        ),
{
    let ghost start = directory_view(*directory);
    let ghost views = model_views(models@);
    proof {
        directory.lemma_items();
        assert(start.dom() =~= directory@.dom());
    }
    let mut rest = models;
    let total = rest.len();
    let mut i: usize = 0;
    assert(views.take(0) =~= Seq::<ModelView>::empty());
    while i < total
        invariant
            i <= total,
            total == models@.len(),
            views == model_views(models@),
            start == directory_view(*old(directory)),
            start.dom().finite(),
            rest@ == models@.skip(i as int),
            directory.well_formed(),
            directory_view(*directory) == union_of(start, views.take(i as int)),
            i > 0 ==> directory_view(*directory).dom().len() <= MAX_MODELS,
        decreases total - i,
    {
        let model = rest.remove(0);
        proof {
            assert(model == models@[i as int]);
            assert(rest@ =~= models@.skip(i + 1));
            assert(views.take(i + 1).drop_last() =~= views.take(i as int));
            assert(views.take(i + 1).last() == model@);
        }
        join(directory, model);
        proof {
            directory.lemma_items();
            assert(directory_view(*directory).dom() =~= directory@.dom());
        }
        if directory.len() > MAX_MODELS {
            proof {
                lemma_union_grows(start, views, i + 1);
                lemma_union_finite(start, views);
                vstd::set_lib::lemma_len_subset(
                    union_of(start, views.take(i + 1)).dom(),
                    union_of(start, views).dom(),
                );
                assert(directory_view(*directory) == union_of(start, views.take(i + 1)));
            }
            return Err(AdminError::invalid(AdminReason::TooManyMergedModels));
        }
        i = i + 1;
    }
    assert(views.take(total as int) =~= views);
    Ok(())
}

/// A directory only grows.
proof fn lemma_union_grows(directory: Map<Seq<char>, ModelView>, models: Seq<ModelView>, n: int)
    requires
        0 <= n <= models.len(),
    ensures
        union_of(directory, models.take(n)).dom().subset_of(union_of(directory, models).dom()),
    decreases models.len() - n,
{
    if n == models.len() {
        assert(models.take(n) =~= models);
    } else {
        assert(models.take(n + 1).drop_last() =~= models.take(n));
        lemma_union_grows(directory, models, n + 1);
    }
}

/// A directory with finitely many models stays finite.
proof fn lemma_union_finite(directory: Map<Seq<char>, ModelView>, models: Seq<ModelView>)
    requires
        directory.dom().finite(),
    ensures
        union_of(directory, models).dom().finite(),
    decreases models.len(),
{
    if models.len() > 0 {
        lemma_union_finite(directory, models.drop_last());
    }
}

/// Whatever one of two declarations of a model says it can do, the two together say so, and nothing
/// else; to put the same declaration in again changes nothing that a model can do.
pub proof fn union_says_what_either_says(
    a: ModelView,
    b: ModelView,
    operation: OperationKind,
    feature: ModelFeature,
)
    ensures
        merged(a, b).operations.contains(operation) <==> a.operations.contains(operation)
            || b.operations.contains(operation),
        merged(a, b).features.contains(feature) <==> a.features.contains(feature)
            || b.features.contains(feature),
        merged(a, b).operations == merged(b, a).operations,
        merged(a, b).features == merged(b, a).features,
        merged(a, b).maximum_output_tokens == merged(b, a).maximum_output_tokens,
        merged(a, a).maximum_output_tokens == a.maximum_output_tokens,
{
    lemma_merged_operations(a.operations, b.operations, operation);
    lemma_merged_features(a.features, b.features, feature);
}

proof fn lemma_merged_operations(
    a: Seq<OperationKind>,
    b: Seq<OperationKind>,
    operation: OperationKind,
)
    ensures
        merged_operations(a, b).contains(operation) <==> a.contains(operation) || b.contains(
            operation,
        ),
{
    let g = operation_if(
        a.contains(OperationKind::Generate) || b.contains(OperationKind::Generate),
        OperationKind::Generate,
    );
    let gi = operation_if(
        a.contains(OperationKind::GenerateImage) || b.contains(OperationKind::GenerateImage),
        OperationKind::GenerateImage,
    );
    let s = operation_if(
        a.contains(OperationKind::Search) || b.contains(OperationKind::Search),
        OperationKind::Search,
    );
    let c = operation_if(
        a.contains(OperationKind::CountTokens) || b.contains(OperationKind::CountTokens),
        OperationKind::CountTokens,
    );
    let h = operation_if(
        a.contains(OperationKind::ProviderHttp) || b.contains(OperationKind::ProviderHttp),
        OperationKind::ProviderHttp,
    );
    lemma_in_sum(g, gi, operation);
    lemma_in_sum(g + gi, s, operation);
    lemma_in_sum(g + gi + s, c, operation);
    lemma_in_sum(g + gi + s + c, h, operation);
    assert(seq![operation][0] == operation);
    assert(seq![operation].contains(operation));
}

proof fn lemma_merged_features(a: Seq<ModelFeature>, b: Seq<ModelFeature>, feature: ModelFeature)
    ensures
        merged_features(a, b).contains(feature) <==> a.contains(feature) || b.contains(feature),
{
    let t = feature_if(
        a.contains(ModelFeature::Tools) || b.contains(ModelFeature::Tools),
        ModelFeature::Tools,
    );
    let v = feature_if(
        a.contains(ModelFeature::Vision) || b.contains(ModelFeature::Vision),
        ModelFeature::Vision,
    );
    let r = feature_if(
        a.contains(ModelFeature::Reasoning) || b.contains(ModelFeature::Reasoning),
        ModelFeature::Reasoning,
    );
    let j = feature_if(
        a.contains(ModelFeature::JsonSchema) || b.contains(ModelFeature::JsonSchema),
        ModelFeature::JsonSchema,
    );
    let n = feature_if(
        a.contains(ModelFeature::NativeContinuation) || b.contains(
            ModelFeature::NativeContinuation,
        ),
        ModelFeature::NativeContinuation,
    );
    lemma_in_sum(t, v, feature);
    lemma_in_sum(t + v, r, feature);
    lemma_in_sum(t + v + r, j, feature);
    lemma_in_sum(t + v + r + j, n, feature);
    assert(seq![feature][0] == feature);
    assert(seq![feature].contains(feature));
}

proof fn lemma_in_sum<T>(a: Seq<T>, b: Seq<T>, x: T)
    ensures
        (a + b).contains(x) <==> a.contains(x) || b.contains(x),
{
    if a.contains(x) {
        let i = choose|i: int| 0 <= i < a.len() && a[i] == x;
        assert((a + b)[i] == x);
    }
    if b.contains(x) {
        let i = choose|i: int| 0 <= i < b.len() && b[i] == x;
        assert((a + b)[a.len() + i] == x);
    }
}

/// The models that an account has.
pub struct AccountModels {
    pub models: Vec<ModelDescriptor>,
    /// The account has no other models.
    pub exhaustive: bool,
}

/// That the accounts of a provider are asked for their models.
#[derive(Clone, Copy, Debug, PartialEq, Eq, Structural)]
pub struct ModelDiscovery {
    pub cache_ttl_seconds: u32,
    /// The declared models are had by every account.
    pub include_static: bool,
}

/// The models of a provider.
pub struct ModelCatalog {
    pub static_models: Vec<ModelDescriptor>,
    pub discovery: Option<ModelDiscovery>,
}

/// Accounts can be asked for their models.
pub open spec fn is_discovery(
    discovery: ModelDiscovery,
    models: Seq<ModelDescriptor>,
    manifest: Manifest,
) -> bool {
    &&& 1 <= discovery.cache_ttl_seconds <= MAX_CACHE_TTL_SECONDS
    &&& discovery.include_static || models.len() == 0
    &&& manifest.contributes_at(Capability::Models, Stage::Management)
}

/// What is wrong with the declared models.
pub open spec fn catalog_fault(
    models: Seq<ModelDescriptor>,
    discovery: Option<ModelDiscovery>,
    manifest: Manifest,
) -> Option<AdminReason> {
    if models_fault(models) is Some {
        models_fault(models)
    } else if discovery matches Some(d) && !is_discovery(d, models, manifest) {
        Some(AdminReason::ModelDiscovery)
    } else {
        None
    }
}

/// A directory in which several models replace those of the same name.
pub open spec fn replaced(directory: Map<Seq<char>, ModelView>, models: Seq<ModelView>) -> Map<
    Seq<char>,
    ModelView,
>
    decreases models.len(),
{
    if models.len() == 0 {
        directory
    } else {
        replaced(directory, models.drop_last()).insert(models.last().id, models.last())
    }
}

/// The first model with a name.
pub open spec fn named_model(models: Seq<ModelDescriptor>, id: Seq<char>) -> Option<ModelDescriptor>
    decreases models.len(),
{
    if models.len() == 0 {
        None
    } else if models[0].id@ == id {
        Some(models[0])
    } else {
        named_model(models.skip(1), id)
    }
}

fn find_model<'a>(models: &'a Vec<ModelDescriptor>, id: &str) -> (model: Option<&'a ModelDescriptor>)
    ensures
        match model {
            Some(m) => named_model(models@, id@) == Some(*m),
            None => named_model(models@, id@) is None,
        },
{
    assert(models@.skip(0) =~= models@);
    for i in 0..models.len()
        invariant
            named_model(models@, id@) == named_model(models@.skip(i as int), id@),
    {
        proof {
            let rest = models@.skip(i as int);
            assert(rest[0] == models@[i as int]);
            assert(rest.skip(1) =~= models@.skip(i + 1));
        }
        if same(models[i].id.as_str(), id) {
            return Some(&models[i]);
        }
    }
    None
}

fn replace_all(directory: &mut SortedTable<ModelDescriptor>, models: &Vec<ModelDescriptor>)
    requires
        old(directory).well_formed(),
    ensures
        final(directory).well_formed(),
        directory_view(*final(directory)) == replaced(
            directory_view(*old(directory)),
            model_views(models@),
        ),
{
    let ghost start = directory_view(*directory);
    let ghost views = model_views(models@);
    assert(views.take(0) =~= Seq::<ModelView>::empty());
    for i in 0..models.len()
        invariant
            views == model_views(models@),
            directory.well_formed(),
            directory_view(*directory) == replaced(start, views.take(i as int)),
    {
        proof {
            assert(views.take(i + 1).drop_last() =~= views.take(i as int));
            assert(views.take(i + 1).last() == models@[i as int]@);
        }
        let ghost before = directory_view(*directory);
        directory.insert(models[i].id.clone(), models[i].copy());
        proof {
            assert(directory_view(*directory) =~= before.insert(
                models@[i as int].id@,
                models@[i as int]@,
            ));
        }
    }
    assert(views.take(views.len() as int) =~= views);
}

impl ModelCatalog {
    pub fn prepare(
        models: Vec<ModelDescriptor>,
        discovery: Option<ModelDiscovery>,
        manifest: &Manifest,
    ) -> (result: Result<Self, AdminError>)
        ensures
            match catalog_fault(models@, discovery, *manifest) {
                Some(reason) => result matches Err(error) && error == refused(reason),
                None => result matches Ok(catalog) && catalog == (ModelCatalog {
                    static_models: models,
                    discovery,
                }),
            },
    {
        match validate(&models) {
            Ok(()) => {},
            Err(error) => return Err(error),
        }
        match discovery {
            Some(discovery) => {
                if discovery.cache_ttl_seconds < 1 || discovery.cache_ttl_seconds
                    > MAX_CACHE_TTL_SECONDS || (!discovery.include_static && models.len() > 0)
                    || !manifest.declares_at(Capability::Models, Stage::Management) {
                    return Err(AdminError::invalid(AdminReason::ModelDiscovery));
                }
            },
            None => {},
        }
        Ok(ModelCatalog { static_models: models, discovery })
    }

    /// Accounts are asked for their models.
    pub open spec fn asks_accounts(&self) -> bool {
        self.discovery is Some
    }

    /// Every account has the declared models.
    pub open spec fn shares_static(&self) -> bool {
        self.discovery matches Some(discovery) && discovery.include_static
    }

    pub fn discovers_accounts(&self) -> (r: bool)
        ensures
            r == self.asks_accounts(),
    {
        self.discovery.is_some()
    }

    fn includes_static(&self) -> (r: bool)
        ensures
            r == self.shares_static(),
    {
        match self.discovery {
            Some(discovery) => discovery.include_static,
            None => false,
        }
    }

    /// The directory of an account's models.
    pub open spec fn account_directory(&self, discovered: AccountModels) -> Map<
        Seq<char>,
        ModelView,
    > {
        replaced(
            if self.shares_static() {
                replaced(Map::empty(), model_views(self.static_models@))
            } else {
                Map::empty()
            },
            model_views(discovered.models@),
        )
    }

    pub fn for_account(&self, discovered: &AccountModels) -> (directory: SortedTable<
        ModelDescriptor,
    >)
        ensures
            directory.well_formed(),
            directory_view(directory) == self.account_directory(*discovered),
    {
        let mut directory: SortedTable<ModelDescriptor> = SortedTable::new();
        proof {
            assert(directory_view(directory) =~= Map::<Seq<char>, ModelView>::empty());
        }
        if self.includes_static() {
            replace_all(&mut directory, &self.static_models);
        }
        replace_all(&mut directory, &discovered.models);
        directory
    }

    /// An account's model with a name: one of its own, or else a declared one that it shares.
    pub open spec fn model_of_account(&self, discovered: AccountModels, id: Seq<char>) -> Option<
        ModelDescriptor,
    > {
        if named_model(discovered.models@, id) is Some {
            named_model(discovered.models@, id)
        } else if self.shares_static() {
            named_model(self.static_models@, id)
        } else {
            None
        }
    }

    pub fn account_model<'a>(&'a self, discovered: &'a AccountModels, id: &str) -> (model: Option<
        &'a ModelDescriptor,
    >)
        ensures
            match model {
                Some(m) => self.model_of_account(*discovered, id@) == Some(*m),
                None => self.model_of_account(*discovered, id@) is None,
            },
    {
        match find_model(&discovered.models, id) {
            Some(model) => Some(model),
            None => if self.includes_static() {
                find_model(&self.static_models, id)
            } else {
                None
            },
        }
    }
}

/// Models with different names: what is found under a name is what a directory of them holds.
proof fn lemma_named_in_replaced(
    directory: Map<Seq<char>, ModelView>,
    models: Seq<ModelDescriptor>,
    id: Seq<char>,
)
    requires
        forall|k: int| 0 <= k < models.len() ==> !(#[trigger] is_repeated(models, k)),
    ensures
        match named_model(models, id) {
            Some(model) => replaced(directory, model_views(models)).contains_key(id) && replaced(
                directory,
                model_views(models),
            )[id] == model@ && model.id@ == id,
            None => replaced(directory, model_views(models)).contains_key(id)
                == directory.contains_key(id) && (directory.contains_key(id) ==> replaced(
                directory,
                model_views(models),
            )[id] == directory[id]),
        },
    decreases models.len(),
{
    if models.len() > 0 {
        let front = models.drop_last();
        assert forall|k: int| 0 <= k < front.len() implies !(#[trigger] is_repeated(front, k)) by {
            if is_repeated(front, k) {
                let j = choose|j: int| 0 <= j < k && (#[trigger] front[j]).id@ == front[k].id@;
                assert(models[j].id@ == models[k].id@);
                assert(is_repeated(models, k));
            }
        }
        lemma_named_in_replaced(directory, front, id);
        assert(model_views(models).drop_last() =~= model_views(front));
        assert(model_views(models).last() == models.last()@);
        lemma_named_extended(models, id);
        if named_model(front, id) is Some && models.last().id@ == id {
            lemma_named_is_listed(front, id);
            let j = choose|j: int| 0 <= j < front.len() && front[j] == named_model(front, id)->0;
            assert(models[j].id@ == models[models.len() - 1].id@);
            assert(is_repeated(models, models.len() - 1));
        }
    }
}

proof fn lemma_named_is_listed(models: Seq<ModelDescriptor>, id: Seq<char>)
    ensures
        named_model(models, id) matches Some(model) ==> models.contains(model) && model.id@ == id,
    decreases models.len(),
{
    if models.len() > 0 && models[0].id@ != id {
        let rest = models.skip(1);
        lemma_named_is_listed(rest, id);
        if named_model(rest, id) is Some {
            let i = choose|i: int| 0 <= i < rest.len() && rest[i] == named_model(rest, id)->0;
            assert(models[i + 1] == rest[i]);
        }
    }
}

proof fn lemma_named_extended(models: Seq<ModelDescriptor>, id: Seq<char>)
    requires
        models.len() > 0,
    ensures
        named_model(models, id) == (if named_model(models.drop_last(), id) is Some {
            named_model(models.drop_last(), id)
        } else if models.last().id@ == id {
            Some(models.last())
        } else {
            None
        }),
    decreases models.len(),
{
    if models.len() > 1 {
        let rest = models.skip(1);
        lemma_named_extended(rest, id);
        assert(rest.drop_last() =~= models.drop_last().skip(1));
        assert(models.drop_last()[0] == models[0]);
        assert(rest.last() == models.last());
    } else {
        reveal_with_fuel(named_model, 2);
        assert(models.last() == models[0]);
        assert(models.skip(1).len() == 0);
    }
}

/// What an account is held to when it is chosen is what it is listed with: its model of a name is
/// the one in its directory.
pub proof fn account_model_is_listed(
    catalog: ModelCatalog,
    discovered: AccountModels,
    id: Seq<char>,
)
    requires
        models_fault(catalog.static_models@) is None,
        models_fault(discovered.models@) is None,
    ensures
        match catalog.model_of_account(discovered, id) {
            Some(model) => catalog.account_directory(discovered).contains_key(id)
                && catalog.account_directory(discovered)[id] == model@,
            None => !catalog.account_directory(discovered).contains_key(id),
        },
{
    lemma_valid_is_distinct(catalog.static_models@);
    lemma_valid_is_distinct(discovered.models@);
    let base = if catalog.shares_static() {
        replaced(Map::empty(), model_views(catalog.static_models@))
    } else {
        Map::empty()
    };
    lemma_named_in_replaced(Map::empty(), catalog.static_models@, id);
    lemma_named_in_replaced(base, discovered.models@, id);
}

proof fn lemma_valid_is_distinct(models: Seq<ModelDescriptor>)
    requires
        models_fault(models) is None,
    ensures
        forall|k: int| 0 <= k < models.len() ==> !(#[trigger] is_repeated(models, k)),
{
    assert forall|k: int| 0 <= k < models.len() implies !(#[trigger] is_repeated(models, k)) by {
        if first_fault(models, k + 1) is Some {
            lemma_fault_stays(models, k + 1, models.len() as int);
        }
    }
}

/// The catalog of models cannot be read.
pub fn catalog_error() -> (error: ProviderError)
    ensures
        error == unsent_error(ProviderErrorKind::ProviderInfrastructureUnavailable),
{
    ProviderError::unsent(ProviderErrorKind::ProviderInfrastructureUnavailable)
}

/// A model at a place is the last one of its name.
pub open spec fn is_last_of(models: Seq<ModelView>, k: int, id: Seq<char>) -> bool {
    &&& 0 <= k < models.len()
    &&& models[k].id == id
    &&& forall|j: int| k < j < models.len() ==> (#[trigger] models[j]).id != id
}

/// A directory in which models replace those of the same name has the names of both; under the name
/// of a model that replaces it has the last of that name, and under any other what it had.
pub proof fn replaced_by_name(
    directory: Map<Seq<char>, ModelView>,
    models: Seq<ModelView>,
    id: Seq<char>,
)
    ensures
        replaced(directory, models).contains_key(id) <==> directory.contains_key(id) || exists|k: int|
            0 <= k < models.len() && (#[trigger] models[k]).id == id,
        !(exists|k: int| 0 <= k < models.len() && (#[trigger] models[k]).id == id)
            && directory.contains_key(id) ==> replaced(directory, models)[id] == directory[id],
        forall|k: int| #[trigger]
            is_last_of(models, k, id) ==> replaced(directory, models)[id] == models[k],
    decreases models.len(),
{
    if models.len() > 0 {
        let front = models.drop_last();
        let last = models.len() - 1;
        replaced_by_name(directory, front, id);
        assert(models[last] == models.last());
        if exists|k: int| 0 <= k < front.len() && (#[trigger] front[k]).id == id {
            let k = choose|k: int| 0 <= k < front.len() && (#[trigger] front[k]).id == id;
            assert(models[k].id == id);
        }
        if exists|k: int| 0 <= k < models.len() && (#[trigger] models[k]).id == id {
            let k = choose|k: int| 0 <= k < models.len() && (#[trigger] models[k]).id == id;
            if k < last {
                assert(front[k].id == id);
            }
        }
        assert forall|k: int| #[trigger] is_last_of(models, k, id) implies replaced(
            directory,
            models,
        )[id] == models[k] by {
            if k < last {
                assert(models[last].id != id);
                assert forall|j: int| k < j < front.len() implies (#[trigger] front[j]).id
                    != id by {
                    assert(models[j].id != id);
                }
                assert(is_last_of(front, k, id));
            }
        }
    }
}

/// A directory with more models in it has the names of both. A model with a new name is there as it
/// was declared, one with a name that was there before is put together with what was there, and
/// nothing else changes.
pub proof fn union_by_name(
    directory: Map<Seq<char>, ModelView>,
    models: Seq<ModelView>,
    id: Seq<char>,
)
    requires
        forall|i: int, j: int|
            0 <= i < j < models.len() ==> (#[trigger] models[i]).id != (#[trigger] models[j]).id,
    ensures
        union_of(directory, models).contains_key(id) <==> directory.contains_key(id) || exists|k: int|
            0 <= k < models.len() && (#[trigger] models[k]).id == id,
        !(exists|k: int| 0 <= k < models.len() && (#[trigger] models[k]).id == id)
            && directory.contains_key(id) ==> union_of(directory, models)[id] == directory[id],
        forall|k: int|
            0 <= k < models.len() && (#[trigger] models[k]).id == id ==> union_of(directory, models)[id]
                == (if directory.contains_key(id) {
                merged(directory[id], models[k])
            } else {
                models[k]
            }),
    decreases models.len(),
{
    if models.len() > 0 {
        let front = models.drop_last();
        let last = models.len() - 1;
        assert forall|i: int, j: int| 0 <= i < j < front.len() implies (#[trigger] front[i]).id
            != (#[trigger] front[j]).id by {
            assert(models[i].id != models[j].id);
        }
        union_by_name(directory, front, id);
        assert(models[last] == models.last());
        if exists|k: int| 0 <= k < front.len() && (#[trigger] front[k]).id == id {
            let k = choose|k: int| 0 <= k < front.len() && (#[trigger] front[k]).id == id;
            assert(models[k].id == id);
            assert(models[k].id != models[last].id);
        }
        if exists|k: int| 0 <= k < models.len() && (#[trigger] models[k]).id == id {
            let k = choose|k: int| 0 <= k < models.len() && (#[trigger] models[k]).id == id;
            if k < last {
                assert(front[k].id == id);
            }
        }
        assert forall|k: int| 0 <= k < models.len() && (#[trigger] models[k]).id == id implies union_of(
            directory,
            models,
        )[id] == (if directory.contains_key(id) {
            merged(directory[id], models[k])
        } else {
            models[k]
        }) by {
            if k < last {
                assert(models[k].id != models[last].id);
                assert(front[k].id == id);
            }
        }
    }
}

/// What two declarations of a model come to keeps the name, has the higher of the two limits, and no
/// limit where one of them has none; each operation and each feature is named once.
pub proof fn union_of_two(a: ModelView, b: ModelView)
    ensures
        merged(a, b).id == a.id,
        merged(a, b).is_model == a.is_model,
        merged(a, b).maximum_output_tokens is None <==> a.maximum_output_tokens is None
            || b.maximum_output_tokens is None,
        merged(a, b).maximum_output_tokens matches Some(limit) ==> limit
            >= a.maximum_output_tokens->0 && limit >= b.maximum_output_tokens->0 && (limit
            == a.maximum_output_tokens->0 || limit == b.maximum_output_tokens->0),
        merged(a, b).operations.no_duplicates(),
        merged(a, b).features.no_duplicates(),
{
    lemma_operations_named_once(a.operations, b.operations);
    lemma_features_named_once(a.features, b.features);
}

/// Where two lists name nothing twice and share nothing, they name nothing twice together.
proof fn lemma_named_once<T>(a: Seq<T>, b: Seq<T>)
    requires
        a.no_duplicates(),
        b.no_duplicates(),
        forall|x: T| #[trigger] b.contains(x) ==> !a.contains(x),
    ensures
        (a + b).no_duplicates(),
{
    let c = a + b;
    assert forall|i: int, j: int| 0 <= i < c.len() && 0 <= j < c.len() && i != j implies c[i]
        != c[j] by {
        if i < a.len() && j >= a.len() {
            assert(b[j - a.len()] == c[j]);
            assert(b.contains(c[j]));
            assert(a[i] == c[i]);
        }
        if j < a.len() && i >= a.len() {
            assert(b[i - a.len()] == c[i]);
            assert(b.contains(c[i]));
            assert(a[j] == c[j]);
        }
    }
}

proof fn lemma_operations_named_once(a: Seq<OperationKind>, b: Seq<OperationKind>)
    ensures
        merged_operations(a, b).no_duplicates(),
{
    let g = operation_if(
        a.contains(OperationKind::Generate) || b.contains(OperationKind::Generate),
        OperationKind::Generate,
    );
    let gi = operation_if(
        a.contains(OperationKind::GenerateImage) || b.contains(OperationKind::GenerateImage),
        OperationKind::GenerateImage,
    );
    let s = operation_if(
        a.contains(OperationKind::Search) || b.contains(OperationKind::Search),
        OperationKind::Search,
    );
    let c = operation_if(
        a.contains(OperationKind::CountTokens) || b.contains(OperationKind::CountTokens),
        OperationKind::CountTokens,
    );
    let h = operation_if(
        a.contains(OperationKind::ProviderHttp) || b.contains(OperationKind::ProviderHttp),
        OperationKind::ProviderHttp,
    );
    assert forall|x: OperationKind| #[trigger] (g + gi).contains(x) implies g.contains(x)
        || gi.contains(x) by {
        lemma_in_sum(g, gi, x);
    }
    assert forall|x: OperationKind| #[trigger] (g + gi + s).contains(x) implies (g + gi).contains(x)
        || s.contains(x) by {
        lemma_in_sum(g + gi, s, x);
    }
    assert forall|x: OperationKind| #[trigger] (g + gi + s + c).contains(x) implies (g + gi
        + s).contains(x) || c.contains(x) by {
        lemma_in_sum(g + gi + s, c, x);
    }
    lemma_named_once(g, gi);
    lemma_named_once(g + gi, s);
    lemma_named_once(g + gi + s, c);
    lemma_named_once(g + gi + s + c, h);
}

proof fn lemma_features_named_once(a: Seq<ModelFeature>, b: Seq<ModelFeature>)
    ensures
        merged_features(a, b).no_duplicates(),
{
    let t = feature_if(
        a.contains(ModelFeature::Tools) || b.contains(ModelFeature::Tools),
        ModelFeature::Tools,
    );
    let v = feature_if(
        a.contains(ModelFeature::Vision) || b.contains(ModelFeature::Vision),
        ModelFeature::Vision,
    );
    let r = feature_if(
        a.contains(ModelFeature::Reasoning) || b.contains(ModelFeature::Reasoning),
        ModelFeature::Reasoning,
    );
    let j = feature_if(
        a.contains(ModelFeature::JsonSchema) || b.contains(ModelFeature::JsonSchema),
        ModelFeature::JsonSchema,
    );
    let n = feature_if(
        a.contains(ModelFeature::NativeContinuation) || b.contains(
            ModelFeature::NativeContinuation,
        ),
        ModelFeature::NativeContinuation,
    );
    assert forall|x: ModelFeature| #[trigger] (t + v).contains(x) implies t.contains(x)
        || v.contains(x) by {
        lemma_in_sum(t, v, x);
    }
    assert forall|x: ModelFeature| #[trigger] (t + v + r).contains(x) implies (t + v).contains(x)
        || r.contains(x) by {
        lemma_in_sum(t + v, r, x);
    }
    assert forall|x: ModelFeature| #[trigger] (t + v + r + j).contains(x) implies (t + v
        + r).contains(x) || j.contains(x) by {
        lemma_in_sum(t + v + r, j, x);
    }
    lemma_named_once(t, v);
    lemma_named_once(t + v, r);
    lemma_named_once(t + v + r, j);
    lemma_named_once(t + v + r + j, n);
}

/// An account has exactly the models that it answered and, where it shares them, those that are
/// declared. What it answered counts before what is declared, and each model is listed under its own
/// name.
pub proof fn account_directory_by_name(
    catalog: ModelCatalog,
    discovered: AccountModels,
    id: Seq<char>,
)
    ensures
        catalog.account_directory(discovered).contains_key(id) <==> (exists|k: int|
            0 <= k < discovered.models@.len() && (#[trigger] discovered.models@[k]).id@ == id) || (
        catalog.discovery is Some && catalog.discovery->0.include_static && exists|k: int|
            0 <= k < catalog.static_models@.len() && (#[trigger] catalog.static_models@[k]).id@
                == id),
        catalog.account_directory(discovered).contains_key(id) ==> catalog.account_directory(
            discovered,
        )[id].id == id,
        forall|k: int|
            0 <= k < discovered.models@.len() && (#[trigger] discovered.models@[k]).id@ == id && (
            forall|j: int|
                k < j < discovered.models@.len() ==> (#[trigger] discovered.models@[j]).id@ != id)
                ==> catalog.account_directory(discovered)[id] == discovered.models@[k]@,
        !(exists|k: int|
            0 <= k < discovered.models@.len() && (#[trigger] discovered.models@[k]).id@ == id)
            && catalog.discovery is Some && catalog.discovery->0.include_static ==> forall|k: int|
            0 <= k < catalog.static_models@.len() && (#[trigger] catalog.static_models@[k]).id@
                == id && (forall|j: int|
                k < j < catalog.static_models@.len() ==> (
                #[trigger] catalog.static_models@[j]).id@ != id) ==> catalog.account_directory(
                discovered,
            )[id] == catalog.static_models@[k]@,
{
    let own = model_views(discovered.models@);
    let declared = model_views(catalog.static_models@);
    let nothing = Map::<Seq<char>, ModelView>::empty();
    let base = if catalog.shares_static() {
        replaced(nothing, declared)
    } else {
        nothing
    };
    replaced_by_name(nothing, declared, id);
    replaced_by_name(base, own, id);
    lemma_named_alike(discovered.models@, id);
    lemma_named_alike(catalog.static_models@, id);
    lemma_replaced_is_named(nothing, declared);
    lemma_replaced_is_named(base, own);
    assert forall|k: int|
        0 <= k < discovered.models@.len() && (#[trigger] discovered.models@[k]).id@ == id && (
        forall|j: int|
            k < j < discovered.models@.len() ==> (#[trigger] discovered.models@[j]).id@
                != id) implies catalog.account_directory(discovered)[id]
        == discovered.models@[k]@ by {
        assert forall|j: int| k < j < own.len() implies (#[trigger] own[j]).id != id by {
            assert(discovered.models@[j].id@ != id);
        }
        assert(is_last_of(own, k, id));
    }
    if catalog.shares_static() && !(exists|k: int|
        0 <= k < discovered.models@.len() && (#[trigger] discovered.models@[k]).id@ == id) {
        assert forall|k: int|
            0 <= k < catalog.static_models@.len() && (#[trigger] catalog.static_models@[k]).id@
                == id && (forall|j: int|
                k < j < catalog.static_models@.len() ==> (
                #[trigger] catalog.static_models@[j]).id@
                    != id) implies catalog.account_directory(discovered)[id]
            == catalog.static_models@[k]@ by {
            assert forall|j: int| k < j < declared.len() implies (#[trigger] declared[j]).id
                != id by {
                assert(catalog.static_models@[j].id@ != id);
            }
            assert(is_last_of(declared, k, id));
        }
    }
}

proof fn lemma_named_alike(models: Seq<ModelDescriptor>, id: Seq<char>)
    ensures
        (exists|k: int| 0 <= k < models.len() && (#[trigger] models[k]).id@ == id) == (exists|k: int|
            0 <= k < model_views(models).len() && (#[trigger] model_views(models)[k]).id == id),
{
    if exists|k: int| 0 <= k < models.len() && (#[trigger] models[k]).id@ == id {
        let k = choose|k: int| 0 <= k < models.len() && (#[trigger] models[k]).id@ == id;
        assert(model_views(models)[k].id == id);
    }
    if exists|k: int|
        0 <= k < model_views(models).len() && (#[trigger] model_views(models)[k]).id == id {
        let k = choose|k: int|
            0 <= k < model_views(models).len() && (#[trigger] model_views(models)[k]).id == id;
        assert(models[k].id@ == id);
    }
}

proof fn lemma_replaced_is_named(directory: Map<Seq<char>, ModelView>, models: Seq<ModelView>)
    requires
        forall|id: Seq<char>| #[trigger]
            directory.contains_key(id) ==> directory[id].id == id,
    ensures
        forall|id: Seq<char>| #[trigger]
            replaced(directory, models).contains_key(id) ==> replaced(directory, models)[id].id
                == id,
    decreases models.len(),
{
    if models.len() > 0 {
        lemma_replaced_is_named(directory, models.drop_last());
    }
}

/// A catalog is in order exactly if there are at most 4096 models in it, each has a name that can be
/// that of a model and that no other has, can do something, has nothing named twice that it can do,
/// is not asked for plain requests to the provider, and has no limit of nothing.
pub proof fn models_in_order(models: Seq<ModelDescriptor>)
    ensures
        models_fault(models) is None <==> models.len() <= 4096 && (forall|k: int|
            0 <= k < models.len() ==> (#[trigger] models[k]).is_model && models[k].operations@.len()
                > 0 && models[k].operations@.no_duplicates() && !models[k].operations@.contains(
                OperationKind::ProviderHttp,
            ) && models[k].features@.no_duplicates() && models[k].maximum_output_tokens != Some(
                0u64,
            )) && (forall|i: int, j: int|
            0 <= i < j < models.len() ==> (#[trigger] models[i]).id@ != (#[trigger] models[j]).id@),
        models.len() > 4096 ==> models_fault(models) == Some(AdminReason::TooManyModels),
{
    if models.len() <= 4096 {
        if models_fault(models) is None {
            lemma_valid_is_distinct(models);
            assert forall|k: int| 0 <= k < models.len() implies (#[trigger] models[k]).is_model
                && is_capable(models[k]) by {
                if first_fault(models, k + 1) is Some {
                    lemma_fault_stays(models, k + 1, models.len() as int);
                }
            }
            assert forall|i: int, j: int| 0 <= i < j < models.len() implies (
            #[trigger] models[i]).id@ != (#[trigger] models[j]).id@ by {
                assert(!is_repeated(models, j));
            }
        } else {
            lemma_fault_is_somewhere(models, models.len() as int);
            let k = choose|k: int|
                0 <= k < models.len() && #[trigger] model_fault(models, k) is Some;
            assert(model_fault(models, k) is Some);
            assert(models[k].id@ == models[k].id@);
        }
    }
}

/// The fault of a catalog is that of one of its models, and the models before that one have none.
pub proof fn first_fault_is_told(models: Seq<ModelDescriptor>, k: int)
    requires
        models.len() <= 4096,
        0 <= k < models.len(),
        forall|j: int| 0 <= j < k ==> (#[trigger] model_fault(models, j)) is None,
        model_fault(models, k) is Some,
    ensures
        models_fault(models) == model_fault(models, k),
        !models[k].is_model ==> models_fault(models) == Some(AdminReason::ModelId),
        models[k].is_model ==> models_fault(models) == Some(AdminReason::ModelCapabilities),
{
    lemma_no_fault_before(models, k);
    assert(first_fault(models, k + 1) == model_fault(models, k));
    lemma_fault_stays(models, k + 1, models.len() as int);
}

proof fn lemma_no_fault_before(models: Seq<ModelDescriptor>, n: int)
    requires
        0 <= n <= models.len(),
        forall|j: int| 0 <= j < n ==> (#[trigger] model_fault(models, j)) is None,
    ensures
        first_fault(models, n) is None,
    decreases n,
{
    if n > 0 {
        lemma_no_fault_before(models, n - 1);
        assert(model_fault(models, n - 1) is None);
    }
}

proof fn lemma_fault_is_somewhere(models: Seq<ModelDescriptor>, n: int)
    requires
        0 <= n <= models.len(),
        first_fault(models, n) is Some,
    ensures
        exists|k: int| 0 <= k < n && #[trigger] model_fault(models, k) is Some,
    decreases n,
{
    if first_fault(models, n - 1) is Some {
        lemma_fault_is_somewhere(models, n - 1);
        let k = choose|k: int| 0 <= k < n - 1 && #[trigger] model_fault(models, k) is Some;
        assert(model_fault(models, k) is Some);
    } else {
        assert(model_fault(models, n - 1) is Some);
    }
}

/// Accounts are asked for their models only where the answers are kept for a second to an hour, what
/// is declared is had by every account or nothing is, and the plugin answers management for models.
pub proof fn discovery_in_order(
    models: Seq<ModelDescriptor>,
    discovery: Option<ModelDiscovery>,
    manifest: Manifest,
)
    requires
        models_fault(models) is None,
    ensures
        catalog_fault(models, discovery, manifest) is None <==> (discovery matches Some(d) ==> 1
            <= d.cache_ttl_seconds <= 3600 && (d.include_static || models.len() == 0)
            && manifest.contributes_at(Capability::Models, Stage::Management)),
        catalog_fault(models, discovery, manifest) is Some ==> catalog_fault(
            models,
            discovery,
            manifest,
        ) == Some(AdminReason::ModelDiscovery),
{
}

/// The model that is found under a name has it, no model before it has, and one is found wherever
/// there is one.
pub proof fn first_of_a_name(models: Seq<ModelDescriptor>, id: Seq<char>)
    ensures
        match named_model(models, id) {
            Some(model) => exists|k: int|
                0 <= k < models.len() && #[trigger] models[k] == model && models[k].id@ == id && (
                forall|j: int| 0 <= j < k ==> (#[trigger] models[j]).id@ != id),
            None => forall|k: int| 0 <= k < models.len() ==> (#[trigger] models[k]).id@ != id,
        },
    decreases models.len(),
{
    if models.len() > 0 {
        if models[0].id@ != id {
            let rest = models.skip(1);
            first_of_a_name(rest, id);
            if named_model(rest, id) is Some {
                let model = named_model(rest, id)->0;
                let k = choose|k: int|
                    0 <= k < rest.len() && #[trigger] rest[k] == model && rest[k].id@ == id && (
                    forall|j: int| 0 <= j < k ==> (#[trigger] rest[j]).id@ != id);
                assert(models[k + 1] == rest[k]);
                assert forall|j: int| 0 <= j < k + 1 implies (#[trigger] models[j]).id@ != id by {
                    if j > 0 {
                        assert(rest[j - 1] == models[j]);
                    }
                }
            } else {
                assert forall|k: int| 0 <= k < models.len() implies (#[trigger] models[k]).id@
                    != id by {
                    if k > 0 {
                        assert(rest[k - 1] == models[k]);
                    }
                }
            }
        } else {
            assert(models[0].id@ == id);
        }
    }
}

/// What the engine is told of a model keeps all that was said of it: two models of which it is told
/// the same are alike.
pub proof fn compiled_alike(
    a: ModelView,
    b: ModelView,
    told: ProviderModelCapabilities,
    operation: OperationKind,
    feature: ModelFeature,
)
    requires
        is_compiled(told, a),
        is_compiled(told, b),
    ensures
        a.id == b.id && a.operations == b.operations && a.features == b.features
            && a.maximum_output_tokens == b.maximum_output_tokens,
        told.model@ == a.id,
        told.operations@.contains(operation) <==> a.operations.contains(operation),
        told.features@.contains(feature) <==> a.features.contains(feature),
        told.maximum_output_tokens == a.maximum_output_tokens,
{
}

/// A model is kept from the engine exactly if it is asked for plain requests to the provider or its
/// name is not that of a model.
pub proof fn kept_from_the_engine(model: ModelDescriptor)
    ensures
        compile_fault(model) is Some <==> model.operations@.contains(OperationKind::ProviderHttp)
            || !model.is_model,
        model.operations@.contains(OperationKind::ProviderHttp) ==> compile_fault(model) == Some(
            AdminReason::ProviderHttpAsModelOperation,
        ),
        compile_fault(model) == Some(AdminReason::ModelId) ==> !model.is_model,
{
}

/// What adding models to a directory does.
pub open spec fn is_united(
    before: Map<Seq<char>, ModelView>,
    models: Seq<ModelView>,
    after: Map<Seq<char>, ModelView>,
    result: Result<(), AdminError>,
) -> bool {
    let whole = union_of(before, models);
    match result {
        Ok(()) => after == whole && (models.len() > 0 ==> whole.dom().len() <= MAX_MODELS),
        Err(error) => error == refused(AdminReason::TooManyMergedModels) && whole.dom().len()
            > MAX_MODELS && exists|n: int|
            0 < n <= models.len() && after == union_of(before, #[trigger] models.take(n)),
    }
}

/// Models are added to a directory unless it becomes too large. Once they are, each is there, and what
/// was there before still is; where nothing is added, nothing changes.
pub proof fn united_unless_too_many(
    before: Map<Seq<char>, ModelView>,
    models: Seq<ModelView>,
    after: Map<Seq<char>, ModelView>,
    result: Result<(), AdminError>,
    id: Seq<char>,
)
    requires
        is_united(before, models, after, result),
        forall|i: int, j: int|
            0 <= i < j < models.len() ==> (#[trigger] models[i]).id != (#[trigger] models[j]).id,
    ensures
        result is Ok ==> (after.contains_key(id) <==> before.contains_key(id) || exists|k: int|
            0 <= k < models.len() && (#[trigger] models[k]).id == id),
        result is Ok && !(exists|k: int| 0 <= k < models.len() && (#[trigger] models[k]).id == id)
            && before.contains_key(id) ==> after[id] == before[id],
        models.len() == 0 && result is Ok ==> after == before,
        result is Ok && models.len() > 0 ==> after.dom().len() <= 4096,
        result matches Err(error) ==> error.kind is Invalid && union_of(before, models).dom().len()
            > 4096,
        before.contains_key(id) ==> after.contains_key(id),
{
    union_by_name(before, models, id);
    if result is Err {
        let n = choose|n: int|
            0 < n <= models.len() && after == union_of(before, #[trigger] models.take(n));
        let some = models.take(n);
        assert forall|i: int, j: int| 0 <= i < j < some.len() implies (#[trigger] some[i]).id != (
        #[trigger] some[j]).id by {
            assert(models[i].id != models[j].id);
        }
        union_by_name(before, some, id);
    }
}

} // verus!
