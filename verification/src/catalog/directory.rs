//! The directory of all models: what is declared, and what the accounts answered.

use vstd::prelude::*;

use crate::account::ProviderAccount;
use crate::catalog::account::{all_compile, listed};
use crate::catalog::{
    account_directory_by_name, catalog_error, compile, compile_fault, directory_view, has_feature,
    is_compiled, model_views, union, union_by_name, union_of, union_of_two,
    union_says_what_either_says, AccountModels, ModelCatalog, ModelDescriptor, ModelFeature,
    ModelView, OperationKind, ProviderModelCapabilities, MAX_MODELS,
};
use crate::fault::{unsent_error, ProviderError, ProviderErrorKind};
use crate::sorted::SortedTable;
use crate::text::{before, holds, lemma_text_order, same, text_less, texts};

verus! {

/// How long the directory may take, in milliseconds.
pub const CATALOG_TIMEOUT_MS: u64 = 20_000;

/// The most accounts that are asked for a directory.
pub const MAX_ACCOUNTS: usize = 4096;

/// Whether an account can be used.
#[derive(Clone, Copy, Debug, PartialEq, Eq, Structural)]
pub enum AccountStatus {
    Normal,
    QuotaExhausted,
    /// Any other status.
    Other,
}

/// An account that could be asked for its models.
pub struct CatalogAccount {
    pub account: ProviderAccount,
    pub status: AccountStatus,
    /// The account is one of those that the directory is for.
    pub in_scope: bool,
}

/// An account that is asked for its models.
pub open spec fn is_asked(candidate: CatalogAccount, kind: Seq<char>) -> bool {
    &&& candidate.status is Normal || candidate.status is QuotaExhausted
    &&& candidate.account.provider@ == kind
    &&& candidate.in_scope
}

/// The accounts that are asked.
pub open spec fn asked(candidates: Seq<CatalogAccount>, kind: Seq<char>) -> Seq<ProviderAccount>
    decreases candidates.len(),
{
    if candidates.len() == 0 {
        Seq::empty()
    } else if is_asked(candidates.last(), kind) {
        asked(candidates.drop_last(), kind).push(candidates.last().account)
    } else {
        asked(candidates.drop_last(), kind)
    }
}

/// Accounts in the order of their names.
pub open spec fn is_ordered(accounts: Seq<ProviderAccount>) -> bool {
    forall|i: int, j: int|
        0 <= i < j < accounts.len() ==> !text_less(
            (#[trigger] accounts[j]).id@,
            (#[trigger] accounts[i]).id@,
        )
}

/// Puts an account among others where it belongs, after those of the same name.
fn place_account(accounts: &mut Vec<ProviderAccount>, account: ProviderAccount)
    requires
        is_ordered(old(accounts)@),
    ensures
        is_ordered(final(accounts)@),
        final(accounts)@.to_multiset() == old(accounts)@.to_multiset().insert(account),
        final(accounts)@.len() == old(accounts)@.len() + 1,
{
    let ghost start = accounts@;
    let mut at: usize = accounts.len();
    while at > 0 && before(account.id.as_str(), accounts[at - 1].id.as_str())
        invariant
            accounts@ == start,
            at <= start.len(),
            forall|j: int| at <= j < start.len() ==> text_less(account.id@, (#[trigger] start[j]).id@),
        decreases at,
    {
        at = at - 1;
    }
    proof {
        let next = start.insert(at as int, account);
        assert forall|i: int, j: int| 0 <= i < j < next.len() implies !text_less(
            (#[trigger] next[j]).id@,
            (#[trigger] next[i]).id@,
        ) by {
            let a = if i < at { i } else { i - 1 };
            let b = if j < at { j } else { j - 1 };
            if i != at && j != at {
                assert(!text_less(start[b].id@, start[a].id@));
            } else if i == at {
                assert(next[j] == start[j - 1]);
                lemma_text_order(account.id@, start[j - 1].id@);
            } else {
                assert(next[i] == start[i]);
                if at > 0 {
                    assert(!text_less(account.id@, start[at - 1].id@));
                    if i < at - 1 {
                        lemma_not_before(account.id@, start[at - 1].id@, start[i].id@);
                    }
                }
            }
        }
        start.to_multiset_ensures();
        assert(next =~= start.insert(at as int, account));
        lemma_insert_multiset(start, at as int, account);
    }
    accounts.insert(at, account);
}

/// If one text is not before another, and that is not before a third, the first is not before the
/// third.
proof fn lemma_not_before(a: Seq<char>, b: Seq<char>, c: Seq<char>)
    requires
        !text_less(a, b),
        !text_less(b, c),
    ensures
        !text_less(a, c),
{
    if text_less(a, c) {
        lemma_text_order(a, b);
        lemma_text_order(b, c);
        if a != b {
            crate::text::lemma_bytes_transitive(
                vstd::utf8::encode_utf8(b),
                vstd::utf8::encode_utf8(a),
                vstd::utf8::encode_utf8(c),
            );
        }
    }
}

proof fn lemma_insert_multiset(accounts: Seq<ProviderAccount>, at: int, account: ProviderAccount)
    requires
        0 <= at <= accounts.len(),
    ensures
        accounts.insert(at, account).to_multiset() == accounts.to_multiset().insert(account),
{
    broadcast use vstd::seq_lib::group_to_multiset_ensures;

    let front = accounts.take(at);
    let back = accounts.skip(at);
    assert(accounts =~= front + back);
    assert(accounts.insert(at, account) =~= front.push(account) + back);
    vstd::seq_lib::lemma_multiset_commutative(front, back);
    vstd::seq_lib::lemma_multiset_commutative(front.push(account), back);
    assert(front.push(account).to_multiset() =~= front.to_multiset().insert(account));
    assert(accounts.insert(at, account).to_multiset() =~= accounts.to_multiset().insert(account));
}

/// The accounts that are asked, or that there are too many of them.
pub open spec fn are_catalog_accounts(
    candidates: Seq<CatalogAccount>,
    kind: Seq<char>,
    result: Result<Vec<ProviderAccount>, ProviderError>,
) -> bool {
    if asked(candidates, kind).len() > MAX_ACCOUNTS {
        result matches Err(error) && error == unsent_error(
            ProviderErrorKind::ProviderInfrastructureUnavailable,
        )
    } else {
        result matches Ok(accounts) && is_ordered(accounts@) && accounts@.to_multiset() == asked(
            candidates,
            kind,
        ).to_multiset()
    }
}

/// The accounts that are asked, in the order of their names.
pub fn catalog_accounts(candidates: Vec<CatalogAccount>, kind: &str) -> (result: Result<
    Vec<ProviderAccount>,
    ProviderError,
>)
    ensures
        are_catalog_accounts(candidates@, kind@, result),
{
    let mut accounts: Vec<ProviderAccount> = Vec::new();
    let mut rest = candidates;
    let total = rest.len();
    let mut i: usize = 0;
    assert(candidates@.take(0) =~= Seq::<CatalogAccount>::empty());
    while i < total
        invariant
            i <= total,
            total == candidates@.len(),
            rest@ == candidates@.skip(i as int),
            is_ordered(accounts@),
            accounts@.len() == asked(candidates@.take(i as int), kind@).len(),
            accounts@.to_multiset() == asked(candidates@.take(i as int), kind@).to_multiset(),
        decreases total - i,
    {
        let candidate = rest.remove(0);
        proof {
            assert(candidate == candidates@[i as int]);
            assert(rest@ =~= candidates@.skip(i + 1));
            assert(candidates@.take(i + 1).drop_last() =~= candidates@.take(i as int));
            assert(candidates@.take(i + 1).last() == candidate);
        }
        let usable = matches!(
            candidate.status,
            AccountStatus::Normal | AccountStatus::QuotaExhausted
        );
        if usable && same(candidate.account.provider.as_str(), kind) && candidate.in_scope {
            proof {
                broadcast use vstd::seq_lib::group_to_multiset_ensures;

                let before = asked(candidates@.take(i as int), kind@);
                assert(before.push(candidate.account).to_multiset() =~= before.to_multiset().insert(
                    candidate.account,
                ));
            }
            place_account(&mut accounts, candidate.account);
        }
        i = i + 1;
    }
    assert(candidates@.take(total as int) =~= candidates@);
    if accounts.len() > MAX_ACCOUNTS {
        return Err(catalog_error());
    }
    Ok(accounts)
}

/// A directory that is being put together.
pub struct DirectoryMerge {
    pub models: SortedTable<ModelDescriptor>,
    pub failed: bool,
    pub succeeded: bool,
}

/// The models that some names allow.
pub open spec fn permitted(models: Seq<ModelView>, allowed: Option<Seq<Seq<char>>>) -> Seq<ModelView>
    decreases models.len(),
{
    if models.len() == 0 {
        Seq::empty()
    } else if allowed matches Some(names) && !names.contains(models.last().id) {
        permitted(models.drop_last(), allowed)
    } else {
        permitted(models.drop_last(), allowed).push(models.last())
    }
}

/// The names that are allowed, where not all are.
pub open spec fn allowed_names(allowed: Option<&Vec<String>>) -> Option<Seq<Seq<char>>> {
    match allowed {
        Some(names) => Some(texts(names@)),
        None => None,
    }
}

/// Copies of the models of a directory that are allowed.
fn pick(directory: &SortedTable<ModelDescriptor>, allowed: Option<&Vec<String>>) -> (models: Vec<
    ModelDescriptor,
>)
    ensures
        model_views(models@) == permitted(
            model_views(listed(*directory)),
            allowed_names(allowed),
        ),
{
    let ghost views = model_views(listed(*directory));
    let mut models: Vec<ModelDescriptor> = Vec::new();
    let total = directory.len();
    proof {
        assert(views.take(0) =~= Seq::<ModelView>::empty());
        assert(model_views(models@) =~= Seq::<ModelView>::empty());
    }
    for i in 0..total
        invariant
            total == directory.items().len(),
            views == model_views(listed(*directory)),
            model_views(models@) == permitted(views.take(i as int), allowed_names(allowed)),
    {
        let model = &directory.at(i).1;
        proof {
            assert(views.take(i + 1).drop_last() =~= views.take(i as int));
            assert(views.take(i + 1).last() == model@);
        }
        let wanted = match allowed {
            Some(names) => holds(names, model.id.as_str()),
            None => true,
        };
        if wanted {
            let ghost before = models@;
            models.push(model.copy());
            assert(model_views(models@) =~= model_views(before).push(model@));
        }
    }
    assert(views.take(total as int) =~= views);
    models
}

/// A directory as it begins.
pub open spec fn is_begun(
    catalog: ModelCatalog,
    scoped: bool,
    result: Result<DirectoryMerge, ProviderError>,
) -> bool {
    match result {
        Ok(merge) => {
            &&& merge.models.well_formed()
            &&& !merge.failed
            &&& !merge.succeeded
            &&& directory_view(merge.models) == (if scoped {
                Map::<Seq<char>, ModelView>::empty()
            } else {
                union_of(Map::empty(), model_views(catalog.static_models@))
            })
            &&& directory_view(merge.models).dom().len() <= MAX_MODELS
        },
        Err(error) => {
            &&& !scoped
            &&& union_of(Map::empty(), model_views(catalog.static_models@)).dom().len()
                > MAX_MODELS
            &&& error == unsent_error(ProviderErrorKind::ProviderInfrastructureUnavailable)
        },
    }
}

/// What becomes of a directory when an account answered, or could not be asked.
pub open spec fn is_taken(
    before: DirectoryMerge,
    catalog: ModelCatalog,
    answer: Option<&AccountModels>,
    allowed: Option<Seq<Seq<char>>>,
    after: DirectoryMerge,
    result: Result<(), ProviderError>,
) -> bool {
    match answer {
        None => result is Ok && after.failed && after.succeeded == before.succeeded && after.models
            == before.models,
        Some(answer) => after.failed == before.failed && after.succeeded && exists|
            directory: SortedTable<ModelDescriptor>,
        |
            {
                let taken = permitted(model_views(listed(directory)), allowed);
                let whole = union_of(directory_view(before.models), taken);
                &&& directory.well_formed()
                &&& #[trigger] directory_view(directory) == catalog.account_directory(*answer)
                &&& match result {
                    Ok(()) => directory_view(after.models) == whole && (taken.len() == 0
                        || whole.dom().len() <= MAX_MODELS),
                    Err(error) => whole.dom().len() > MAX_MODELS && error == unsent_error(
                        ProviderErrorKind::ProviderInfrastructureUnavailable,
                    ),
                }
            },
    }
}

impl DirectoryMerge {
    /// A directory to begin with: what is declared, unless the directory is for some accounts only.
    pub fn begin(catalog: &ModelCatalog, scoped: bool) -> (result: Result<Self, ProviderError>)
        ensures
            is_begun(*catalog, scoped, result),
    {
        let mut models: SortedTable<ModelDescriptor> = SortedTable::new();
        proof {
            assert(directory_view(models) =~= Map::<Seq<char>, ModelView>::empty());
        }
        if !scoped {
            let mut declared: Vec<ModelDescriptor> = Vec::new();
            for i in 0..catalog.static_models.len()
                invariant
                    declared@.len() == i,
                    forall|j: int|
                        0 <= j < i ==> (#[trigger] declared@[j])@ == catalog.static_models@[j]@,
            {
                declared.push(catalog.static_models[i].copy());
            }
            assert(model_views(declared@) =~= model_views(catalog.static_models@));
            if union(&mut models, declared).is_err() {
                return Err(catalog_error());
            }
        }
        Ok(DirectoryMerge { models, failed: false, succeeded: false })
    }

    /// Takes what an account answered, or that it could not be asked. Of its models only those that
    /// are allowed are taken.
    pub fn account(
        &mut self,
        catalog: &ModelCatalog,
        answer: Option<&AccountModels>,
        allowed: Option<&Vec<String>>,
    ) -> (result: Result<(), ProviderError>)
        requires
            old(self).models.well_formed(),
        ensures
            final(self).models.well_formed(),
            is_taken(*old(self), *catalog, answer, allowed_names(allowed), *final(self), result),
    {
        let answer = match answer {
            Some(answer) => answer,
            None => {
                self.failed = true;
                return Ok(());
            },
        };
        self.succeeded = true;
        let directory = catalog.for_account(answer);
        let taken = pick(&directory, allowed);
        assert(directory_view(directory) == catalog.account_directory(*answer));
        match union(&mut self.models, taken) {
            Ok(()) => Ok(()),
            Err(_) => Err(catalog_error()),
        }
    }

    /// The directory. That there are no models is only said where some account answered or all did.
    pub fn finish(self) -> (result: Result<SortedTable<ModelDescriptor>, ProviderError>)
        requires
            self.models.well_formed(),
        ensures
            self.is_finished(result),
    {
        if self.failed && !self.succeeded && self.models.len() == 0 {
            return Err(catalog_error());
        }
        Ok(self.models)
    }
}

/// What the engine is told of all models.
pub fn compile_all(directory: &SortedTable<ModelDescriptor>) -> (result: Result<
    Vec<ProviderModelCapabilities>,
    ProviderError,
>)
    ensures
        match result {
            Ok(compiled) => all_compile(listed(*directory)) && compiled@.len()
                == directory.items().len() && forall|i: int|
                0 <= i < compiled@.len() ==> is_compiled(
                    #[trigger] compiled@[i],
                    directory.items()[i].1@,
                ),
            Err(error) => !all_compile(listed(*directory)) && error == unsent_error(
                ProviderErrorKind::ProviderInfrastructureUnavailable,
            ),
        },
{
    let mut compiled: Vec<ProviderModelCapabilities> = Vec::new();
    let total = directory.len();
    for i in 0..total
        invariant
            total == directory.items().len(),
            compiled@.len() == i,
            forall|j: int| 0 <= j < i ==> compile_fault(#[trigger] listed(*directory)[j]) is None,
            forall|j: int|
                0 <= j < i ==> is_compiled(#[trigger] compiled@[j], directory.items()[j].1@),
    {
        match compile(&directory.at(i).1) {
            Ok(model) => compiled.push(model),
            Err(_) => {
                assert(compile_fault(listed(*directory)[i as int]) is Some);
                return Err(catalog_error());
            },
        }
    }
    Ok(compiled)
}

/// A model as clients see it.
pub struct ClientModel {
    pub model: String,
    pub image_input: bool,
    pub agent_tools: bool,
}

/// How a model is shown to clients.
pub open spec fn is_client_model(shown: ClientModel, model: ModelView) -> bool {
    &&& shown.model@ == model.id
    &&& shown.image_input == model.features.contains(ModelFeature::Vision)
    &&& shown.agent_tools == model.features.contains(ModelFeature::Tools)
}

/// All models, as clients see them; nothing where some name is not that of a model.
pub fn client_catalog(directory: &SortedTable<ModelDescriptor>) -> (result: Option<Vec<ClientModel>>)
    ensures
        result is Some == (forall|i: int|
            0 <= i < directory.items().len() ==> (#[trigger] directory.items()[i]).1.is_model),
        result matches Some(shown) ==> shown@.len() == directory.items().len() && forall|i: int|
            0 <= i < shown@.len() ==> is_client_model(
                #[trigger] shown@[i],
                directory.items()[i].1@,
            ),
{
    let mut shown: Vec<ClientModel> = Vec::new();
    let total = directory.len();
    for i in 0..total
        invariant
            total == directory.items().len(),
            shown@.len() == i,
            forall|j: int| 0 <= j < i ==> (#[trigger] directory.items()[j]).1.is_model,
            forall|j: int|
                0 <= j < i ==> is_client_model(#[trigger] shown@[j], directory.items()[j].1@),
    {
        let model = &directory.at(i).1;
        if !model.is_model {
            return None;
        }
        shown.push(
            ClientModel {
                model: model.id.clone(),
                image_input: has_feature(&model.features, ModelFeature::Vision),
                agent_tools: has_feature(&model.features, ModelFeature::Tools),
            },
        );
    }
    Some(shown)
}

/// Where names are allowed, exactly the models with one of those names are permitted; where none are
/// given, every model is.
pub proof fn permitted_by_name(
    models: Seq<ModelView>,
    allowed: Option<Seq<Seq<char>>>,
    model: ModelView,
)
    ensures
        allowed is None ==> permitted(models, allowed) == models,
        allowed matches Some(names) ==> (permitted(models, allowed).contains(model)
            <==> models.contains(model) && names.contains(model.id)),
    decreases models.len(),
{
    if models.len() > 0 {
        let front = models.drop_last();
        permitted_by_name(front, allowed, model);
        assert(models =~= front.push(models.last()));
        lemma_in_push(front, models.last(), model);
        lemma_in_push(permitted(front, allowed), models.last(), model);
    }
}

/// The models that are permitted keep their order, and whether one is does not depend on the others.
pub proof fn permitted_in_order(
    a: Seq<ModelView>,
    b: Seq<ModelView>,
    allowed: Option<Seq<Seq<char>>>,
)
    ensures
        permitted(a + b, allowed) == permitted(a, allowed) + permitted(b, allowed),
    decreases b.len(),
{
    if b.len() == 0 {
        assert(a + b =~= a);
        assert(permitted(a, allowed) + permitted(b, allowed) =~= permitted(a, allowed));
    } else {
        permitted_in_order(a, b.drop_last(), allowed);
        assert((a + b).drop_last() =~= a + b.drop_last());
        assert((a + b).last() == b.last());
        assert(permitted(a + b, allowed) =~= permitted(a, allowed) + permitted(b, allowed));
    }
}

proof fn lemma_in_push<T>(items: Seq<T>, item: T, x: T)
    ensures
        items.push(item).contains(x) <==> items.contains(x) || x == item,
{
    if items.contains(x) {
        let i = choose|i: int| 0 <= i < items.len() && items[i] == x;
        assert(items.push(item)[i] == x);
    }
    assert(items.push(item)[items.len() as int] == item);
}

proof fn lemma_permitted_distinct(models: Seq<ModelView>, allowed: Option<Seq<Seq<char>>>)
    requires
        forall|i: int, j: int|
            0 <= i < j < models.len() ==> (#[trigger] models[i]).id != (#[trigger] models[j]).id,
    ensures
        forall|i: int, j: int|
            0 <= i < j < permitted(models, allowed).len() ==> (#[trigger] permitted(
                models,
                allowed,
            )[i]).id != (#[trigger] permitted(models, allowed)[j]).id,
    decreases models.len(),
{
    if models.len() > 0 {
        let front = models.drop_last();
        assert forall|i: int, j: int| 0 <= i < j < front.len() implies (#[trigger] front[i]).id
            != (#[trigger] front[j]).id by {
            assert(models[i].id != models[j].id);
        }
        lemma_permitted_distinct(front, allowed);
        let kept = permitted(front, allowed);
        assert forall|i: int| 0 <= i < kept.len() implies (#[trigger] kept[i]).id
            != models.last().id by {
            permitted_by_name(front, allowed, kept[i]);
            assert(kept.contains(kept[i]));
            assert(front.contains(kept[i]));
            let k = choose|k: int| 0 <= k < front.len() && front[k] == kept[i];
            assert(models[k] == front[k]);
            assert(models[k].id != models[models.len() - 1].id);
        }
    }
}

/// When an account answered, the directory has the models that it had before and those of the
/// account's whose names are allowed, and no others. What it had of other names stays as it was, a
/// model that is new to it is there as the account has it, and of a model that it had before each
/// operation and each feature is there that it had or that the account has.
pub proof fn answer_is_taken_within_scope(
    before: DirectoryMerge,
    catalog: ModelCatalog,
    answer: &AccountModels,
    allowed: Option<Seq<Seq<char>>>,
    after: DirectoryMerge,
    id: Seq<char>,
    operation: OperationKind,
    feature: ModelFeature,
)
    requires
        is_taken(before, catalog, Some(answer), allowed, after, Ok(())),
    ensures
        ({
            let had = before.models@.contains_key(id);
            let has = (exists|k: int|
                0 <= k < answer.models@.len() && (#[trigger] answer.models@[k]).id@ == id) || (
            catalog.discovery is Some && catalog.discovery->0.include_static && exists|k: int|
                0 <= k < catalog.static_models@.len() && (#[trigger] catalog.static_models@[k]).id@
                    == id);
            let wanted = allowed matches Some(names) ==> names.contains(id);
            let own = catalog.account_directory(*answer)[id];
            let now = after.models@[id]@;
            &&& after.models@.contains_key(id) <==> had || (has && wanted)
            &&& had && !(has && wanted) ==> now == before.models@[id]@
            &&& !had && has && wanted ==> now == own
            &&& had && has && wanted ==> now.id == before.models@[id]@.id && (
            now.operations.contains(operation) <==> before.models@[id]@.operations.contains(
                operation,
            ) || own.operations.contains(operation)) && (now.features.contains(feature)
                <==> before.models@[id]@.features.contains(feature) || own.features.contains(
                feature,
            ))
        }),
        after.succeeded,
        after.failed == before.failed,
{
    let directory = choose|directory: SortedTable<ModelDescriptor>|
        {
            let taken = permitted(model_views(listed(directory)), allowed);
            let whole = union_of(directory_view(before.models), taken);
            &&& directory.well_formed()
            &&& #[trigger] directory_view(directory) == catalog.account_directory(*answer)
            &&& directory_view(after.models) == whole && (taken.len() == 0 || whole.dom().len()
                <= MAX_MODELS)
        };
    let views = model_views(listed(directory));
    let taken = permitted(views, allowed);
    let account = catalog.account_directory(*answer);
    directory.lemma_items();
    let items = directory.items();
    assert forall|i: int| 0 <= i < items.len() implies (#[trigger] items[i]).0@ == views[i].id
        && account.contains_key(views[i].id) && account[views[i].id] == views[i] by {
        let name = items[i].0@;
        assert(directory_view(directory).contains_key(name));
        assert(directory_view(directory)[name] == views[i]);
        account_directory_by_name(catalog, *answer, name);
    }
    assert forall|i: int, j: int| 0 <= i < j < views.len() implies (#[trigger] views[i]).id != (
    #[trigger] views[j]).id by {
        assert(items[i].0@ != items[j].0@);
    }
    lemma_permitted_distinct(views, allowed);
    union_by_name(directory_view(before.models), taken, id);
    account_directory_by_name(catalog, *answer, id);
    let wanted = allowed matches Some(names) ==> names.contains(id);
    if account.contains_key(id) {
        assert(directory@.contains_key(id));
        let i = choose|i: int| 0 <= i < items.len() && (#[trigger] items[i]).0@ == id;
        assert(views[i].id == id);
        permitted_by_name(views, allowed, views[i]);
        assert(views.contains(views[i]));
        if wanted {
            assert(taken.contains(views[i]));
            let k = choose|k: int| 0 <= k < taken.len() && taken[k] == views[i];
            assert(taken[k].id == id);
            if directory_view(before.models).contains_key(id) {
                let held = directory_view(before.models)[id];
                union_says_what_either_says(held, views[i], operation, feature);
                union_of_two(held, views[i]);
            }
        }
    }
    if exists|k: int| 0 <= k < taken.len() && (#[trigger] taken[k]).id == id {
        let k = choose|k: int| 0 <= k < taken.len() && (#[trigger] taken[k]).id == id;
        permitted_by_name(views, allowed, taken[k]);
        assert(taken.contains(taken[k]));
        assert(views.contains(taken[k]));
        let i = choose|i: int| 0 <= i < views.len() && views[i] == taken[k];
        assert(items[i].0@ == views[i].id);
    }
    assert(directory_view(before.models).contains_key(id) == before.models@.contains_key(id));
    assert(directory_view(after.models).contains_key(id) == after.models@.contains_key(id));
}

/// An account that could not be asked takes nothing from the directory, and that is remembered.
pub proof fn failure_is_remembered(
    before: DirectoryMerge,
    catalog: ModelCatalog,
    allowed: Option<Seq<Seq<char>>>,
    after: DirectoryMerge,
    result: Result<(), ProviderError>,
)
    requires
        is_taken(before, catalog, None, allowed, after, result),
    ensures
        result is Ok,
        after.failed,
        after.models == before.models,
        after.succeeded == before.succeeded,
{
}

/// A directory for some accounts only begins with no model; any other begins with exactly the models
/// that are declared.
pub proof fn begins_with_what_is_declared(
    catalog: ModelCatalog,
    scoped: bool,
    merge: DirectoryMerge,
    id: Seq<char>,
)
    requires
        crate::catalog::models_fault(catalog.static_models@) is None,
        is_begun(catalog, scoped, Ok(merge)),
    ensures
        scoped ==> !merge.models@.contains_key(id),
        !scoped ==> (merge.models@.contains_key(id) <==> exists|k: int|
            0 <= k < catalog.static_models@.len() && (#[trigger] catalog.static_models@[k]).id@
                == id),
        !scoped ==> forall|k: int|
            0 <= k < catalog.static_models@.len() && (#[trigger] catalog.static_models@[k]).id@
                == id ==> merge.models@[id]@ == catalog.static_models@[k]@,
        !merge.failed && !merge.succeeded,
{
    let models = catalog.static_models@;
    let views = model_views(models);
    crate::catalog::models_in_order(models);
    assert forall|i: int, j: int| 0 <= i < j < views.len() implies (#[trigger] views[i]).id != (
    #[trigger] views[j]).id by {
        assert(models[i].id@ != models[j].id@);
    }
    union_by_name(Map::empty(), views, id);
    assert(directory_view(merge.models).contains_key(id) == merge.models@.contains_key(id));
    if !scoped {
        if merge.models@.contains_key(id) {
            let k = choose|k: int| 0 <= k < views.len() && (#[trigger] views[k]).id == id;
            assert(models[k].id@ == id);
        }
        assert forall|k: int| 0 <= k < models.len() && (#[trigger] models[k]).id@ == id implies
            merge.models@.contains_key(id) && merge.models@[id]@ == models[k]@ by {
            assert(views[k].id == id);
        }
    }
}

/// An account is asked exactly if it belongs to the provider, is one of those that the directory is
/// for, and can be used or has only used up its quota.
pub proof fn asked_if_usable(
    candidates: Seq<CatalogAccount>,
    kind: Seq<char>,
    account: ProviderAccount,
)
    ensures
        asked(candidates, kind).contains(account) <==> exists|i: int|
            0 <= i < candidates.len() && (#[trigger] candidates[i]).account == account
                && candidates[i].in_scope && account.provider@ == kind && (candidates[i].status
                == AccountStatus::Normal || candidates[i].status == AccountStatus::QuotaExhausted),
    decreases candidates.len(),
{
    if candidates.len() > 0 {
        let front = candidates.drop_last();
        asked_if_usable(front, kind, account);
        lemma_in_push(asked(front, kind), candidates.last().account, account);
        assert(candidates[candidates.len() - 1] == candidates.last());
        if asked(front, kind).contains(account) {
            let i = choose|i: int|
                0 <= i < front.len() && (#[trigger] front[i]).account == account
                    && front[i].in_scope && account.provider@ == kind && (front[i].status
                    == AccountStatus::Normal || front[i].status == AccountStatus::QuotaExhausted);
            assert(candidates[i] == front[i]);
        }
        if exists|i: int|
            0 <= i < candidates.len() && (#[trigger] candidates[i]).account == account
                && candidates[i].in_scope && account.provider@ == kind && (candidates[i].status
                == AccountStatus::Normal || candidates[i].status
                == AccountStatus::QuotaExhausted) {
            let i = choose|i: int|
                0 <= i < candidates.len() && (#[trigger] candidates[i]).account == account
                    && candidates[i].in_scope && account.provider@ == kind && (candidates[i].status
                    == AccountStatus::Normal || candidates[i].status
                    == AccountStatus::QuotaExhausted);
            if i < front.len() {
                assert(front[i] == candidates[i]);
            }
        }
    }
}

/// Each account is asked as often as it stands among the candidates, and whether one is does not
/// depend on the others.
pub proof fn asked_one_by_one(a: Seq<CatalogAccount>, b: Seq<CatalogAccount>, kind: Seq<char>)
    ensures
        asked(a + b, kind) == asked(a, kind) + asked(b, kind),
        asked(a, kind).len() <= a.len(),
    decreases b.len(), a.len(),
{
    if a.len() > 0 {
        asked_one_by_one(a.drop_last(), Seq::empty(), kind);
    }
    if b.len() == 0 {
        assert(a + b =~= a);
        assert(asked(a, kind) + asked(b, kind) =~= asked(a, kind));
    } else {
        asked_one_by_one(a, b.drop_last(), kind);
        assert((a + b).drop_last() =~= a + b.drop_last());
        assert((a + b).last() == b.last());
        assert(asked(a + b, kind) =~= asked(a, kind) + asked(b, kind));
    }
}

/// At most 4096 accounts are asked, in the order of their names, and they are exactly those that are
/// to be asked; of more than that none is.
pub proof fn accounts_in_order(
    candidates: Seq<CatalogAccount>,
    kind: Seq<char>,
    result: Result<Vec<ProviderAccount>, ProviderError>,
    account: ProviderAccount,
)
    requires
        are_catalog_accounts(candidates, kind, result),
    ensures
        result is Ok <==> asked(candidates, kind).len() <= 4096,
        result matches Ok(accounts) ==> accounts@.len() == asked(candidates, kind).len() && (
        accounts@.contains(account) <==> asked(candidates, kind).contains(account)) && (forall|
            i: int,
            j: int,
        |
            0 <= i < j < accounts@.len() ==> !text_less(
                (#[trigger] accounts@[j]).id@,
                (#[trigger] accounts@[i]).id@,
            )),
{
    broadcast use vstd::seq_lib::group_to_multiset_ensures;

    if result is Ok {
        let accounts = result->Ok_0@;
        let wanted = asked(candidates, kind);
        assert(accounts.to_multiset().len() == wanted.to_multiset().len());
        assert(accounts.contains(account) <==> accounts.to_multiset().count(account) > 0);
        assert(wanted.contains(account) <==> wanted.to_multiset().count(account) > 0);
    }
}

/// A client sees of a model its name, that it takes images exactly if it has vision, and that it takes
/// tools exactly if it has tools.
pub proof fn shown_to_clients(shown: ClientModel, model: ModelView)
    requires
        is_client_model(shown, model),
    ensures
        shown.model@ == model.id,
        shown.image_input <==> exists|i: int|
            0 <= i < model.features.len() && #[trigger] model.features[i] == ModelFeature::Vision,
        shown.agent_tools <==> exists|i: int|
            0 <= i < model.features.len() && #[trigger] model.features[i] == ModelFeature::Tools,
{
}

impl DirectoryMerge {
    /// What comes of a directory once all accounts were asked.
    pub open spec fn is_finished(
        &self,
        result: Result<SortedTable<ModelDescriptor>, ProviderError>,
    ) -> bool {
        if self.failed && !self.succeeded && self.models.items().len() == 0 {
            result matches Err(error) && error == unsent_error(
                ProviderErrorKind::ProviderInfrastructureUnavailable,
            )
        } else {
            result matches Ok(models) && models == self.models
        }
    }
}

/// A directory is shown as far as it is known: it is missing only if an account could not be asked, none
/// answered, and nothing is declared.
pub proof fn shown_as_far_as_known(
    merge: DirectoryMerge,
    result: Result<SortedTable<ModelDescriptor>, ProviderError>,
)
    requires
        merge.is_finished(result),
    ensures
        result matches Ok(models) ==> models == merge.models,
        merge.succeeded || !merge.failed || merge.models.items().len() > 0 ==> result is Ok,
        result is Err ==> merge.failed && !merge.succeeded && merge.models.items().len() == 0,
        merge.failed && !merge.succeeded && merge.models.items().len() == 0 ==> (result matches Err(
            error,
        ) && error.kind is ProviderInfrastructureUnavailable && error.send_state is NotSent),
{
}

} // verus!
