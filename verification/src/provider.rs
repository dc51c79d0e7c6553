//! A provider that a plugin serves: what it declares is checked once, when it is prepared.

use vstd::prelude::*;

use crate::billing::{self, billing_fault, charged_list, BillingDescriptor, ProviderPricingCatalog};
use crate::catalog::{catalog_fault, ModelCatalog, ModelDescriptor, ModelDiscovery};
use crate::configuration::{
    configuration_fault, properties_of, shown_schema, AccountConfigurationDescriptor,
    PreparedAccountConfiguration,
};
use crate::continuation::{
    is_state_descriptor, ContinuationIdentity, ContinuationStateDescriptor,
};
use crate::credential_form::{
    are_inputs, forms_fault, prepare_inputs, CredentialForms, CredentialInputs,
};
use crate::fault::{
    admin, invalid, refused, unsent_error, unsupported, AdminError, AdminReason, ProviderAdminError,
    ProviderAdminErrorKind, ProviderError, ProviderErrorKind,
};
use crate::forecast::{is_foreseen, observation, QuotaForecast, QuotaForecastObservation};
use crate::identifier::{is_uuid, new_uuid};
use crate::json::{members_view, Json};
use crate::manifest::{
    has_stage, AccountOperation, Capability, CapabilityDeclaration, CredentialOperation, Manifest,
    Stage,
};
use crate::quota::ProviderQuotaWindow;
use crate::request_profile::{
    configuration_document, invalid_request_profile, is_descriptor, is_directory_of,
    options_document, ProfileDirectory, RequestProfileDescriptor,
    RequestProfilePresentation,
};
use crate::sorted::SortedTable;
use crate::text::{all_distinct, ascending, copy_texts, holds, is_token, texts, token};

verus! {

/// How many HTTP endpoints a provider has at most.
pub const MAX_HTTP_ENDPOINTS: usize = 64;

/// How many bytes the name of an HTTP endpoint has at most.
pub const MAX_ENDPOINT_BYTES: usize = 64;

/// How many models a provider lists itself at most.
pub const MAX_MODELS: usize = 4096;

/// How an HTTP endpoint is called.
#[derive(Clone, Copy, Debug, PartialEq, Eq, Structural)]
pub enum ProviderHttpMethod {
    Get,
    Post,
}

/// An HTTP endpoint of a provider.
pub struct ProviderHttpEndpoint {
    pub id: String,
    pub methods: Vec<ProviderHttpMethod>,
}

/// What is declared of a client directory, and how it is written down.
pub struct DeclaredProfiles {
    pub descriptor: RequestProfileDescriptor,
    pub encoded: Vec<u8>,
}

/// What a plugin declares of a provider.
pub struct ProviderDescriptor {
    /// The name, where it is one that a provider can have.
    pub kind: Option<String>,
    pub models: Vec<ModelDescriptor>,
    pub exhaustive: bool,
    pub model_discovery: Option<ModelDiscovery>,
    pub credential_operations: Vec<CredentialOperation>,
    pub credential_forms: CredentialForms,
    pub account_operations: Vec<AccountOperation>,
    pub account_configuration: Option<AccountConfigurationDescriptor>,
    pub request_profiles: Option<DeclaredProfiles>,
    pub http_endpoints: Vec<ProviderHttpEndpoint>,
    pub continuation_state: Option<ContinuationStateDescriptor>,
    pub billing: Option<BillingDescriptor>,
}

/// A request with which an account is tried out.
pub struct ProbeOperation {
    pub protocol: String,
    pub body: Vec<(String, Json)>,
}

/// The instance of a plugin that serves a provider.
pub struct ProviderInstanceBinding {
    pub instance_id: String,
    pub authorization: String,
    pub continuation_authorization: String,
    pub continuation_owner: String,
}

impl ProviderInstanceBinding {
    /// Each binding writes checkpoints under a name of its own, which is drawn at random.
    pub fn new(
        instance_id: String,
        authorization: String,
        continuation_authorization: String,
    ) -> (binding: Self)
        ensures
            binding.instance_id == instance_id,
            binding.authorization == authorization,
            binding.continuation_authorization == continuation_authorization,
            binding.continuation_owner@.len() == 36,
            is_uuid(binding.continuation_owner@),
    {
        ProviderInstanceBinding {
            instance_id,
            authorization,
            continuation_authorization,
            continuation_owner: new_uuid(),
        }
    }
}

/// A provider that is ready to be used.
pub struct PluginProvider {
    pub kind: String,
    pub instance_id: String,
    pub catalog: ModelCatalog,
    pub exhaustive: bool,
    pub pricing: Option<ProviderPricingCatalog>,
    pub input_formats: Vec<String>,
    pub output_formats: Vec<String>,
    pub credential_operations: Vec<CredentialOperation>,
    pub account_operations: Vec<AccountOperation>,
    pub credential_inputs: CredentialInputs,
    pub account_configuration: Option<PreparedAccountConfiguration>,
    pub request_profiles: Option<ProfileDirectory>,
    pub request_profile_refresh_enabled: bool,
    pub http_endpoints: SortedTable<Vec<ProviderHttpMethod>>,
    pub quota_enabled: bool,
    pub authorization_binding: String,
    pub continuation: ContinuationIdentity,
}

/// The names of endpoints.
pub open spec fn endpoint_names(endpoints: Seq<ProviderHttpEndpoint>) -> Seq<Seq<char>> {
    endpoints.map_values(|endpoint: ProviderHttpEndpoint| endpoint.id@)
}

/// An endpoint with a short name and at least one method, none twice.
pub open spec fn is_endpoint(endpoint: ProviderHttpEndpoint) -> bool {
    &&& is_token(endpoint.id@, MAX_ENDPOINT_BYTES as nat)
    &&& endpoint.methods@.len() > 0
    &&& endpoint.methods@.no_duplicates()
}

/// What is wrong with the endpoints of a provider.
pub open spec fn endpoints_fault(endpoints: Seq<ProviderHttpEndpoint>) -> Option<AdminReason> {
    if endpoints.len() > MAX_HTTP_ENDPOINTS {
        Some(AdminReason::TooManyHttpEndpoints)
    } else if (forall|i: int| 0 <= i < endpoints.len() ==> is_endpoint(#[trigger] endpoints[i]))
        && endpoint_names(endpoints).no_duplicates() {
        None
    } else {
        Some(AdminReason::HttpEndpoint)
    }
}

/// A table that holds the methods of each endpoint under its name, and nothing else.
pub open spec fn are_endpoints(
    held: Map<Seq<char>, Vec<ProviderHttpMethod>>,
    endpoints: Seq<ProviderHttpEndpoint>,
) -> bool {
    &&& forall|i: int|
        0 <= i < endpoints.len() ==> held.contains_key((#[trigger] endpoints[i]).id@)
            && held[endpoints[i].id@]@ == endpoints[i].methods@
    &&& forall|name: Seq<char>| #[trigger]
        held.contains_key(name) ==> exists|i: int|
            0 <= i < endpoints.len() && (#[trigger] endpoints[i]).id@ == name
}

/// Whether a list of methods holds a method.
pub fn has_method(methods: &Vec<ProviderHttpMethod>, method: ProviderHttpMethod) -> (r: bool)
    ensures
        r == methods@.contains(method),
{
    for i in 0..methods.len()
        invariant
            forall|k: int| 0 <= k < i ==> methods@[k] != method,
    {
        if methods[i] == method {
            return true;
        }
    }
    false
}

fn distinct_methods(methods: &Vec<ProviderHttpMethod>) -> (r: bool)
    ensures
        r == methods@.no_duplicates(),
{
    for i in 0..methods.len()
        invariant
            forall|a: int, b: int| 0 <= a < b < i ==> methods@[a] != methods@[b],
    {
        for k in 0..i
            invariant
                i < methods@.len(),
                forall|a: int| 0 <= a < k ==> methods@[a] != methods@[i as int],
        {
            if methods[k] == methods[i] {
                return false;
            }
        }
    }
    true
}

fn distinct_credential_operations(operations: &Vec<CredentialOperation>) -> (r: bool)
    ensures
        r == operations@.no_duplicates(),
{
    for i in 0..operations.len()
        invariant
            forall|a: int, b: int| 0 <= a < b < i ==> operations@[a] != operations@[b],
    {
        for k in 0..i
            invariant
                i < operations@.len(),
                forall|a: int| 0 <= a < k ==> operations@[a] != operations@[i as int],
        {
            if operations[k] == operations[i] {
                return false;
            }
        }
    }
    true
}

fn distinct_account_operations(operations: &Vec<AccountOperation>) -> (r: bool)
    ensures
        r == operations@.no_duplicates(),
{
    for i in 0..operations.len()
        invariant
            forall|a: int, b: int| 0 <= a < b < i ==> operations@[a] != operations@[b],
    {
        for k in 0..i
            invariant
                i < operations@.len(),
                forall|a: int| 0 <= a < k ==> operations@[a] != operations@[i as int],
        {
            if operations[k] == operations[i] {
                return false;
            }
        }
    }
    true
}

/// The endpoints of a provider, by name.
pub fn prepare_http_endpoints(endpoints: Vec<ProviderHttpEndpoint>) -> (result: Result<
    SortedTable<Vec<ProviderHttpMethod>>,
    AdminError,
>)
    ensures
        match endpoints_fault(endpoints@) {
            Some(reason) => result matches Err(error) && error == refused(reason),
            None => result matches Ok(held) && held.well_formed() && are_endpoints(
                held@,
                endpoints@,
            ),
        },
{
    if endpoints.len() > MAX_HTTP_ENDPOINTS {
        return Err(AdminError::invalid(AdminReason::TooManyHttpEndpoints));
    }
    let ghost names = endpoint_names(endpoints@);
    let mut held: SortedTable<Vec<ProviderHttpMethod>> = SortedTable::new();
    let mut rest = endpoints;
    let total = rest.len();
    let mut i: usize = 0;
    while i < total
        invariant
            i <= total,
            total == endpoints@.len(),
            total <= MAX_HTTP_ENDPOINTS,
            names == endpoint_names(endpoints@),
            rest@ == endpoints@.skip(i as int),
            held.well_formed(),
            are_endpoints(held@, endpoints@.take(i as int)),
            forall|k: int| 0 <= k < i ==> is_endpoint(#[trigger] endpoints@[k]),
            forall|a: int, b: int| 0 <= a < b < i ==> names[a] != names[b],
        decreases total - i,
    {
        let endpoint = rest.remove(0);
        proof {
            assert(endpoint == endpoints@[i as int]);
            assert(rest@ =~= endpoints@.skip(i + 1));
        }
        if !token(endpoint.id.as_str(), MAX_ENDPOINT_BYTES) || endpoint.methods.len() == 0
            || !distinct_methods(&endpoint.methods) {
            return Err(AdminError::invalid(AdminReason::HttpEndpoint));
        }
        if held.get(endpoint.id.as_str()).is_some() {
            proof {
                let k = choose|k: int|
                    0 <= k < i && (#[trigger] endpoints@.take(i as int)[k]).id@ == endpoint.id@;
                assert(names[k] == names[i as int]);
            }
            return Err(AdminError::invalid(AdminReason::HttpEndpoint));
        }
        let ghost earlier = held@;
        let ghost front = endpoints@.take(i as int);
        let ghost longer = endpoints@.take(i + 1);
        let ghost name = endpoint.id@;
        let ghost methods = endpoint.methods;
        held.insert(endpoint.id, endpoint.methods);
        proof {
            assert forall|k: int| 0 <= k < longer.len() implies held@.contains_key(
                (#[trigger] longer[k]).id@,
            ) && held@[longer[k].id@]@ == longer[k].methods@ by {
                if k < i {
                    assert(longer[k] == front[k]);
                    assert(earlier.contains_key(front[k].id@));
                }
            }
            assert forall|other: Seq<char>| #[trigger] held@.contains_key(other) implies exists|k: int|
                0 <= k < longer.len() && (#[trigger] longer[k]).id@ == other by {
                if other == name {
                    assert(longer[i as int].id@ == name);
                } else {
                    assert(earlier.contains_key(other));
                    let k = choose|k: int|
                        0 <= k < front.len() && (#[trigger] front[k]).id@ == other;
                    assert(longer[k].id@ == other);
                }
            }
            assert forall|a: int, b: int| 0 <= a < b < i + 1 implies names[a] != names[b] by {
                if b == i {
                    assert(front[a].id@ == names[a]);
                    assert(earlier.contains_key(front[a].id@));
                }
            }
        }
        i = i + 1;
    }
    assert(endpoints@.take(total as int) =~= endpoints@);
    Ok(held)
}

/// The stage that an account operation belongs to.
pub open spec fn operation_stage(operation: AccountOperation) -> Stage {
    match operation {
        AccountOperation::Unavailable | AccountOperation::FactsChanged => Stage::Observation,
        _ => Stage::Management,
    }
}

/// A declaration covers the stages of all account operations.
pub open spec fn covers(
    declaration: CapabilityDeclaration,
    operations: Seq<AccountOperation>,
) -> bool {
    forall|i: int|
        0 <= i < operations.len() ==> declaration.stages@.contains(
            operation_stage(#[trigger] operations[i]),
        )
}

fn covered(declaration: &CapabilityDeclaration, operations: &Vec<AccountOperation>) -> (r: bool)
    ensures
        r == covers(*declaration, operations@),
{
    for i in 0..operations.len()
        invariant
            forall|k: int|
                0 <= k < i ==> declaration.stages@.contains(
                    operation_stage(#[trigger] operations@[k]),
                ),
    {
        let stage = match operations[i] {
            AccountOperation::Unavailable | AccountOperation::FactsChanged => Stage::Observation,
            _ => Stage::Management,
        };
        assert(stage == operation_stage(operations@[i as int]));
        if !has_stage(&declaration.stages, stage) {
            return false;
        }
    }
    true
}

/// Credential operations go with the capability to authenticate.
pub open spec fn are_credential_operations(
    operations: Seq<CredentialOperation>,
    manifest: Manifest,
) -> bool {
    operations.no_duplicates() && manifest.contributes_to(Capability::Authentication) == (
    operations.len() > 0)
}

/// Account operations go with the capability to manage accounts, at the stages that they belong to.
pub open spec fn are_account_operations(
    operations: Seq<AccountOperation>,
    manifest: Manifest,
) -> bool {
    operations.no_duplicates() && match manifest.declaration(Capability::AccountManagement) {
        Some(declaration) => operations.len() > 0 && covers(declaration, operations),
        None => operations.len() == 0,
    }
}

/// The client directory is renewed by the host's tasks.
pub open spec fn refreshes_profiles(manifest: Manifest) -> bool {
    manifest.contributes_at(Capability::RequestProfile, Stage::Maintenance)
}

/// What an executor takes and gives.
pub open spec fn are_formats(executor: CapabilityDeclaration) -> bool {
    &&& executor.input_formats@.len() > 0
    &&& texts(executor.input_formats@).no_duplicates()
    &&& executor.output_formats@.len() > 0
}

/// What is wrong with the shown settings of accounts.
pub open spec fn shown_fault(descriptor: ProviderDescriptor) -> Option<AdminReason> {
    match descriptor.account_configuration {
        Some(shown) => configuration_fault(
            shown.public_fields@,
            descriptor.credential_operations@,
            match descriptor.credential_forms.rotate {
                Some(schema) => Some(schema@),
                None => None,
            },
        ),
        None => None,
    }
}

/// What is wrong with the part of a declaration that concerns models and prices.
pub open spec fn offer_fault(descriptor: ProviderDescriptor, manifest: Manifest) -> Option<
    AdminReason,
> {
    if descriptor.models@.len() > MAX_MODELS || !are_formats(
        manifest.declaration(Capability::Executor)->0,
    ) {
        Some(AdminReason::ModelsOrFormats)
    } else if billing_fault(descriptor.billing, manifest) is Some {
        billing_fault(descriptor.billing, manifest)
    } else {
        catalog_fault(descriptor.models@, descriptor.model_discovery, manifest)
    }
}

/// What is wrong with the part of a declaration that concerns accounts.
pub open spec fn account_fault(
    descriptor: ProviderDescriptor,
    manifest: Manifest,
    grants: Seq<String>,
) -> Option<AdminReason> {
    if !manifest.contributes_to(Capability::Executor) {
        Some(AdminReason::ExecutorMissing)
    } else if !texts(grants).contains("accounts"@) {
        Some(AdminReason::AccountsPermissionMissing)
    } else if !are_credential_operations(descriptor.credential_operations@, manifest) {
        Some(AdminReason::CredentialOperations)
    } else if !are_account_operations(descriptor.account_operations@, manifest) {
        Some(AdminReason::AccountOperations)
    } else if shown_fault(descriptor) is Some {
        shown_fault(descriptor)
    } else {
        forms_fault(descriptor.credential_forms, descriptor.credential_operations@)
    }
}

/// What is wrong with a declaration: the first fault counts.
pub open spec fn preparation_fault(
    descriptor: ProviderDescriptor,
    manifest: Manifest,
    grants: Seq<String>,
) -> Option<AdminReason> {
    if descriptor.kind is None {
        Some(AdminReason::ProviderId)
    } else if descriptor.continuation_state matches Some(state) && !is_state_descriptor(state) {
        Some(AdminReason::ContinuationState)
    } else if descriptor.request_profiles matches Some(profiles) && !is_descriptor(
        profiles.descriptor,
    ) {
        Some(AdminReason::RequestProfiles)
    } else if refreshes_profiles(manifest) && descriptor.request_profiles is None {
        Some(AdminReason::ProfileMaintenanceWithoutProfiles)
    } else if endpoints_fault(descriptor.http_endpoints@) is Some {
        endpoints_fault(descriptor.http_endpoints@)
    } else if account_fault(descriptor, manifest, grants) is Some {
        account_fault(descriptor, manifest, grants)
    } else {
        offer_fault(descriptor, manifest)
    }
}

impl PluginProvider {
    /// A provider is what was declared of it, in the instance that serves it.
    pub open spec fn is_declared(
        &self,
        descriptor: ProviderDescriptor,
        binding: ProviderInstanceBinding,
        manifest: Manifest,
    ) -> bool {
        let executor = manifest.declaration(Capability::Executor)->0;
        &&& Some(self.kind) == descriptor.kind
        &&& self.instance_id == binding.instance_id
        &&& self.catalog == (ModelCatalog {
            static_models: descriptor.models,
            discovery: descriptor.model_discovery,
        })
        &&& self.exhaustive == descriptor.exhaustive
        &&& self.pricing is Some == descriptor.billing is Some
        &&& self.pricing matches Some(pricing) ==> pricing@ == charged_list(
            descriptor.billing->0.prices@,
        )
        &&& texts(self.input_formats@) == texts(executor.input_formats@)
        &&& texts(self.output_formats@).to_set() == texts(executor.output_formats@).to_set()
        &&& self.credential_operations == descriptor.credential_operations
        &&& self.account_operations == descriptor.account_operations
        &&& are_inputs(
            self.credential_inputs,
            descriptor.credential_forms,
            descriptor.credential_operations@,
        )
        &&& self.account_configuration is Some == descriptor.account_configuration is Some
        &&& self.account_configuration matches Some(shown) ==> shown.public_fields
            == descriptor.account_configuration->0.public_fields && shown.schema@ == shown_schema(
            descriptor.account_configuration->0.public_fields@,
            properties_of(descriptor.credential_forms.rotate->0@)->0,
        )
        &&& self.request_profiles is Some == descriptor.request_profiles is Some
        &&& self.request_profiles matches Some(directory) ==> directory.well_formed()
            && directory.sequence == 0 && is_directory_of(
            directory,
            descriptor.request_profiles->0.descriptor,
            descriptor.request_profiles->0.encoded@,
            self.kind@,
        )
        &&& self.request_profile_refresh_enabled == refreshes_profiles(manifest)
        &&& self.http_endpoints.well_formed()
        &&& are_endpoints(self.http_endpoints@, descriptor.http_endpoints@)
        &&& self.quota_enabled == manifest.contributes_to(Capability::Quota)
        &&& self.authorization_binding@ == binding.authorization@
        &&& self.continuation.provider@ == self.kind@
        &&& self.continuation.authorization == binding.authorization
        &&& self.continuation.continuation_authorization == binding.continuation_authorization
        &&& self.continuation.owner == binding.continuation_owner
        &&& self.continuation.continuation_state is Some == descriptor.continuation_state is Some
        &&& self.continuation.continuation_state matches Some(state) ==> {
            let declared = descriptor.continuation_state->0;
            state.format@ == declared.format@ && state.write_version == declared.write_version
                && state.readable_versions@ == declared.readable_versions@
        }
    }

    /// Prepares a provider from what a plugin declares and was granted.
    pub fn prepare(
        descriptor: ProviderDescriptor,
        binding: ProviderInstanceBinding,
        manifest: &Manifest,
        grants: &Vec<String>,
    ) -> (result: Result<Self, AdminError>)
        ensures
            match preparation_fault(descriptor, *manifest, grants@) {
                Some(reason) => result matches Err(error) && error == refused(reason),
                None => result matches Ok(provider) && provider.is_declared(
                    descriptor,
                    binding,
                    *manifest,
                ),
            },
    {
        let kind = match descriptor.kind {
            Some(kind) => kind,
            None => return Err(AdminError::invalid(AdminReason::ProviderId)),
        };
        let authorization_binding = binding.authorization.as_str().to_owned();
        let continuation = match ContinuationIdentity::prepare(
            kind.as_str().to_owned(),
            binding.authorization,
            binding.continuation_authorization,
            descriptor.continuation_state,
            binding.continuation_owner,
        ) {
            Ok(continuation) => continuation,
            Err(error) => return Err(error),
        };
        let request_profiles = match descriptor.request_profiles {
            Some(profiles) => match ProfileDirectory::prepare_descriptor(
                profiles.descriptor,
                profiles.encoded.as_slice(),
                kind.as_str(),
            ) {
                Ok(directory) => Some(directory),
                Err(error) => return Err(error),
            },
            None => None,
        };
        let request_profile_refresh_enabled = manifest.declares_at(
            Capability::RequestProfile,
            Stage::Maintenance,
        );
        if request_profile_refresh_enabled && request_profiles.is_none() {
            return Err(AdminError::invalid(AdminReason::ProfileMaintenanceWithoutProfiles));
        }
        let http_endpoints = match prepare_http_endpoints(descriptor.http_endpoints) {
            Ok(endpoints) => endpoints,
            Err(error) => return Err(error),
        };
        let executor = match manifest.get(Capability::Executor) {
            Some(executor) => executor,
            None => return Err(AdminError::invalid(AdminReason::ExecutorMissing)),
        };
        if !holds(grants, "accounts") {
            return Err(AdminError::invalid(AdminReason::AccountsPermissionMissing));
        }
        let credential_operations = descriptor.credential_operations;
        let authentication = manifest.declares(Capability::Authentication);
        if !distinct_credential_operations(&credential_operations) || authentication == (
        credential_operations.len() == 0) {
            return Err(AdminError::invalid(AdminReason::CredentialOperations));
        }
        let account_operations = descriptor.account_operations;
        let managed = match manifest.get(Capability::AccountManagement) {
            Some(declaration) => account_operations.len() > 0 && covered(
                declaration,
                &account_operations,
            ),
            None => account_operations.len() == 0,
        };
        if !distinct_account_operations(&account_operations) || !managed {
            return Err(AdminError::invalid(AdminReason::AccountOperations));
        }
        let forms = descriptor.credential_forms;
        let account_configuration = match PreparedAccountConfiguration::prepare(
            descriptor.account_configuration,
            &credential_operations,
            match &forms.rotate {
                Some(schema) => Some(schema),
                None => None,
            },
        ) {
            Ok(shown) => shown,
            Err(error) => return Err(error),
        };
        let credential_inputs = match prepare_inputs(&credential_operations, forms) {
            Ok(inputs) => inputs,
            Err(error) => return Err(error),
        };
        if descriptor.models.len() > MAX_MODELS || executor.input_formats.len() == 0
            || !all_distinct(&executor.input_formats) || executor.output_formats.len() == 0 {
            return Err(AdminError::invalid(AdminReason::ModelsOrFormats));
        }
        let pricing = match billing::prepare(descriptor.billing, manifest) {
            Ok(pricing) => pricing,
            Err(error) => return Err(error),
        };
        let catalog = match ModelCatalog::prepare(
            descriptor.models,
            descriptor.model_discovery,
            manifest,
        ) {
            Ok(catalog) => catalog,
            Err(error) => return Err(error),
        };
        Ok(
            PluginProvider {
                kind,
                instance_id: binding.instance_id,
                catalog,
                exhaustive: descriptor.exhaustive,
                pricing,
                input_formats: copy_texts(&executor.input_formats),
                output_formats: ascending(&executor.output_formats),
                credential_operations,
                account_operations,
                credential_inputs,
                account_configuration,
                request_profiles,
                request_profile_refresh_enabled,
                http_endpoints,
                quota_enabled: manifest.declares(Capability::Quota),
                authorization_binding,
                continuation,
            },
        )
    }

    /// The list of models is complete: no account adds to it.
    pub fn model_catalog_is_exhaustive(&self) -> (r: bool)
        ensures
            r == (self.exhaustive && !self.catalog.asks_accounts()),
    {
        self.exhaustive && !self.catalog.discovers_accounts()
    }

    pub fn name(&self) -> (name: &str)
        ensures
            name@ == self.kind@,
    {
        self.kind.as_str()
    }

    /// The tables of the provider are in order.
    pub open spec fn well_formed(&self) -> bool {
        &&& self.http_endpoints.well_formed()
        &&& self.request_profiles matches Some(directory) ==> directory.well_formed()
    }

    /// What a chosen client stands for; a provider without clients knows none.
    pub fn resolve_request_profile(&self, configuration: &Vec<(String, Json)>) -> (result: Result<
        Vec<(String, Json)>,
        ProviderError,
    >)
        ensures
            match self.request_profiles {
                None => result matches Err(error) && error == unsent_error(
                    ProviderErrorKind::InvalidRequest,
                ),
                Some(directory) => directory.is_resolved(*configuration, result),
            },
    {
        match &self.request_profiles {
            Some(directory) => directory.resolve(configuration),
            None => Err(invalid_request_profile()),
        }
    }

    /// What the default client stands for, where the provider has clients.
    pub fn default_request_profile(&self) -> (resolved: Option<Vec<(String, Json)>>)
        requires
            self.well_formed(),
        ensures
            resolved is Some == self.request_profiles is Some,
            resolved matches Some(document) ==> {
                let directory = self.request_profiles->0;
                members_view(document@) == members_view(
                    directory.options@[directory.default as int].resolved@,
                )
            },
    {
        match &self.request_profiles {
            Some(directory) => Some(directory.default_resolved()),
            None => None,
        }
    }

    /// The clients that can be chosen, as a document.
    pub fn client_profile_options(&self) -> (result: Result<Json, ProviderAdminError>)
        requires
            self.well_formed(),
        ensures
            match self.request_profiles {
                None => result matches Err(error) && error == admin(
                    ProviderAdminErrorKind::Unsupported,
                ),
                Some(directory) => result matches Ok(json) && json@ == options_document(directory),
            },
    {
        match &self.request_profiles {
            Some(directory) => Ok(directory.options()),
            None => Err(unsupported()),
        }
    }

    /// How the default client is chosen, where the provider has clients.
    pub fn default_client_profile(&self) -> (configuration: Option<Vec<(String, Json)>>)
        requires
            self.well_formed(),
        ensures
            configuration is Some == self.request_profiles is Some,
            configuration matches Some(chosen) ==> configuration_document(chosen)
                == self.request_profiles->0.default_document(),
    {
        match &self.request_profiles {
            Some(directory) => Some(directory.default_configuration()),
            None => None,
        }
    }

    /// The document in which a chosen client is shown.
    pub fn preview_client_profile(&self, configuration: &Vec<(String, Json)>) -> (result: Result<
        Json,
        ProviderAdminError,
    >)
        requires
            self.well_formed(),
        ensures
            match self.request_profiles {
                None => result matches Err(error) && error == admin(
                    ProviderAdminErrorKind::Unsupported,
                ),
                Some(directory) => directory.is_previewed(*configuration, result),
            },
    {
        match &self.request_profiles {
            Some(directory) => directory.preview(configuration),
            None => Err(unsupported()),
        }
    }

    /// How a client is presented: the one with a configuration, or the default one.
    pub fn wire_profile(&self, configuration: Option<&Vec<(String, Json)>>) -> (presentation: Option<
        &RequestProfilePresentation,
    >)
        requires
            self.well_formed(),
        ensures
            match self.request_profiles {
                None => presentation is None,
                Some(directory) => directory.is_presented(configuration, presentation),
            },
    {
        match &self.request_profiles {
            Some(directory) => directory.dashboard(configuration),
            None => None,
        }
    }

    /// What a kept forecast says of a window, where the provider reports quotas. `forecast` is what
    /// the kept document holds, where it holds a forecast.
    pub fn quota_forecast_observation(
        &self,
        forecast: Option<QuotaForecast>,
        window: &ProviderQuotaWindow,
    ) -> (observed: Option<QuotaForecastObservation>)
        ensures
            is_foreseen(
                if self.quota_enabled {
                    forecast
                } else {
                    None
                },
                *window,
                observed,
            ),
    {
        if self.quota_enabled {
            observation(forecast, window)
        } else {
            None
        }
    }

    /// The request with which an account is tried out. `probe` is what the plugin answered, where it
    /// is a request, and `payload` the bytes that came with it.
    pub fn connection_test_operation(
        &self,
        probe: Option<ProbeOperation>,
        payload: &Vec<u8>,
    ) -> (result: Result<ProbeOperation, ProviderAdminError>)
        ensures
            self.is_test(probe, payload@, result),
    {
        let probe = match probe {
            Some(probe) => probe,
            None => return Err(invalid()),
        };
        if payload.len() > 0 || !holds(&self.input_formats, probe.protocol.as_str()) {
            return Err(invalid());
        }
        Ok(probe)
    }
}

/// A provider that is what was declared of it has its tables in order.
pub proof fn declared_is_well_formed(
    provider: PluginProvider,
    descriptor: ProviderDescriptor,
    binding: ProviderInstanceBinding,
    manifest: Manifest,
)
    requires
        provider.is_declared(descriptor, binding, manifest),
    ensures
        provider.well_formed(),
{
}

/// The stages at which a provider is called go with what it declares: an operation on accounts is
/// only there where its stage is declared.
pub proof fn operations_are_declared(
    descriptor: ProviderDescriptor,
    manifest: Manifest,
    grants: Seq<String>,
    operation: AccountOperation,
)
    requires
        preparation_fault(descriptor, manifest, grants) is None,
        descriptor.account_operations@.contains(operation),
    ensures
        manifest.contributes_at(Capability::AccountManagement, operation_stage(operation)),
{
    let declaration = manifest.declaration(Capability::AccountManagement)->0;
    let i = choose|i: int|
        0 <= i < descriptor.account_operations@.len() && descriptor.account_operations@[i]
            == operation;
    assert(declaration.stages@.contains(operation_stage(descriptor.account_operations@[i])));
}

/// A provider is ready only where it may see accounts, and it keeps no two endpoints under one name.
pub proof fn prepared_may_see_accounts(
    descriptor: ProviderDescriptor,
    manifest: Manifest,
    grants: Seq<String>,
)
    requires
        preparation_fault(descriptor, manifest, grants) is None,
    ensures
        texts(grants).contains("accounts"@),
        manifest.contributes_to(Capability::Executor),
        descriptor.http_endpoints@.len() <= MAX_HTTP_ENDPOINTS,
        endpoint_names(descriptor.http_endpoints@).no_duplicates(),
        refreshes_profiles(manifest) ==> descriptor.request_profiles is Some,
{
}

/// The endpoints of a provider are in order exactly if there are at most 64, each has a token of at
/// most 64 bytes for its name, which no other has, and at least one method, none of them twice.
pub proof fn endpoints_in_order(endpoints: Seq<ProviderHttpEndpoint>)
    ensures
        endpoints_fault(endpoints) is None <==> endpoints.len() <= 64 && (forall|i: int|
            0 <= i < endpoints.len() ==> is_token((#[trigger] endpoints[i]).id@, 64)
                && endpoints[i].methods@.len() > 0 && endpoints[i].methods@.no_duplicates()) && (
        forall|i: int, j: int|
            0 <= i < j < endpoints.len() ==> (#[trigger] endpoints[i]).id@ != (
            #[trigger] endpoints[j]).id@),
        endpoints.len() > 64 ==> endpoints_fault(endpoints) == Some(
            AdminReason::TooManyHttpEndpoints,
        ),
{
    let names = endpoint_names(endpoints);
    if endpoints_fault(endpoints) is None {
        assert forall|i: int| 0 <= i < endpoints.len() implies is_token(
            (#[trigger] endpoints[i]).id@,
            64,
        ) && endpoints[i].methods@.len() > 0 && endpoints[i].methods@.no_duplicates() by {
            assert(is_endpoint(endpoints[i]));
        }
        assert forall|i: int, j: int| 0 <= i < j < endpoints.len() implies (
        #[trigger] endpoints[i]).id@ != (#[trigger] endpoints[j]).id@ by {
            assert(names[i] != names[j]);
        }
    }
    if (forall|i: int, j: int|
        0 <= i < j < endpoints.len() ==> (#[trigger] endpoints[i]).id@ != (
        #[trigger] endpoints[j]).id@) {
        assert forall|i: int, j: int|
            0 <= i < names.len() && 0 <= j < names.len() && i != j implies names[i] != names[j] by {
            if i < j {
                assert(endpoints[i].id@ != endpoints[j].id@);
            } else {
                assert(endpoints[j].id@ != endpoints[i].id@);
            }
        }
    }
}

/// A provider is found to have an endpoint with a method exactly if one was declared so.
pub proof fn endpoints_as_declared(
    held: Map<Seq<char>, Vec<ProviderHttpMethod>>,
    endpoints: Seq<ProviderHttpEndpoint>,
    name: Seq<char>,
    method: ProviderHttpMethod,
)
    requires
        are_endpoints(held, endpoints),
    ensures
        held.contains_key(name) && held[name]@.contains(method) <==> exists|i: int|
            0 <= i < endpoints.len() && (#[trigger] endpoints[i]).id@ == name
                && endpoints[i].methods@.contains(method),
{
    if held.contains_key(name) && held[name]@.contains(method) {
        let i = choose|i: int| 0 <= i < endpoints.len() && (#[trigger] endpoints[i]).id@ == name;
        assert(endpoints[i].methods@.contains(method));
    }
}

/// Of the operations on accounts two are told what was observed; all others manage.
pub proof fn operations_by_stage(operation: AccountOperation)
    ensures
        operation_stage(operation) is Observation <==> operation is Unavailable || operation
            is FactsChanged,
        !(operation_stage(operation) is Observation) ==> operation_stage(operation) is Management,
{
}

/// Operations on credentials are declared exactly where the plugin authenticates, and operations on
/// accounts exactly where it manages accounts, each at its own stage; none is declared twice.
pub proof fn operations_in_order(
    credential_operations: Seq<CredentialOperation>,
    account_operations: Seq<AccountOperation>,
    manifest: Manifest,
)
    ensures
        are_credential_operations(credential_operations, manifest) <==> {
            &&& credential_operations.no_duplicates()
            &&& credential_operations.len() > 0 <==> manifest.contributes_to(
                Capability::Authentication,
            )
        },
        are_account_operations(account_operations, manifest) <==> {
            &&& account_operations.no_duplicates()
            &&& account_operations.len() > 0 <==> manifest.contributes_to(
                Capability::AccountManagement,
            )
            &&& forall|i: int|
                0 <= i < account_operations.len() ==> manifest.contributes_at(
                    Capability::AccountManagement,
                    operation_stage(#[trigger] account_operations[i]),
                )
        },
{
    if manifest.declaration(Capability::AccountManagement) is Some {
        let declaration = manifest.declaration(Capability::AccountManagement)->0;
        assert(covers(declaration, account_operations) == forall|i: int|
            0 <= i < account_operations.len() ==> manifest.contributes_at(
                Capability::AccountManagement,
                operation_stage(#[trigger] account_operations[i]),
            ));
    }
}

/// A provider can be prepared exactly if every part of what is declared of it is in order: its name,
/// its states, its clients, its endpoints, what it does with accounts, which it was granted to see,
/// and what it offers.
pub proof fn prepared_if_in_order(
    descriptor: ProviderDescriptor,
    manifest: Manifest,
    grants: Seq<String>,
)
    ensures
        preparation_fault(descriptor, manifest, grants) is None <==> {
            &&& descriptor.kind is Some
            &&& descriptor.continuation_state is Some ==> is_state_descriptor(
                descriptor.continuation_state->0,
            )
            &&& descriptor.request_profiles is Some ==> is_descriptor(
                descriptor.request_profiles->0.descriptor,
            )
            &&& manifest.contributes_at(Capability::RequestProfile, Stage::Maintenance)
                ==> descriptor.request_profiles is Some
            &&& endpoints_fault(descriptor.http_endpoints@) is None
            &&& manifest.contributes_to(Capability::Executor)
            &&& texts(grants).contains("accounts"@)
            &&& are_credential_operations(descriptor.credential_operations@, manifest)
            &&& are_account_operations(descriptor.account_operations@, manifest)
            &&& descriptor.account_configuration is Some ==> configuration_fault(
                descriptor.account_configuration->0.public_fields@,
                descriptor.credential_operations@,
                if descriptor.credential_forms.rotate is Some {
                    Some(descriptor.credential_forms.rotate->0@)
                } else {
                    None
                },
            ) is None
            &&& forms_fault(descriptor.credential_forms, descriptor.credential_operations@) is None
            &&& descriptor.models@.len() <= 4096
            &&& manifest.declaration(Capability::Executor)->0.input_formats@.len() > 0
            &&& manifest.declaration(Capability::Executor)->0.output_formats@.len() > 0
            &&& texts(
                manifest.declaration(Capability::Executor)->0.input_formats@,
            ).no_duplicates()
            &&& billing_fault(descriptor.billing, manifest) is None
            &&& catalog_fault(descriptor.models@, descriptor.model_discovery, manifest) is None
        },
{
}

/// A provider is what was declared of it: it has its name, its models, its operations and its
/// instance, takes the declared formats in their order, reports quotas exactly if the plugin does,
/// and stands for the authority that its instance was given.
pub proof fn provider_as_declared(
    provider: PluginProvider,
    descriptor: ProviderDescriptor,
    binding: ProviderInstanceBinding,
    manifest: Manifest,
    format: Seq<char>,
)
    requires
        provider.is_declared(descriptor, binding, manifest),
    ensures
        descriptor.kind == Some(provider.kind),
        provider.instance_id == binding.instance_id,
        provider.catalog.static_models == descriptor.models,
        provider.catalog.discovery == descriptor.model_discovery,
        provider.exhaustive == descriptor.exhaustive,
        provider.pricing is Some <==> descriptor.billing is Some,
        provider.credential_operations == descriptor.credential_operations,
        provider.account_operations == descriptor.account_operations,
        provider.account_configuration is Some <==> descriptor.account_configuration is Some,
        provider.request_profiles is Some <==> descriptor.request_profiles is Some,
        provider.request_profile_refresh_enabled <==> manifest.contributes_at(
            Capability::RequestProfile,
            Stage::Maintenance,
        ),
        provider.quota_enabled <==> manifest.contributes_to(Capability::Quota),
        provider.authorization_binding@ == binding.authorization@,
        provider.continuation.provider@ == provider.kind@,
        provider.continuation.authorization == binding.authorization,
        provider.continuation.continuation_authorization == binding.continuation_authorization,
        provider.continuation.owner == binding.continuation_owner,
        provider.continuation.continuation_state is Some <==> descriptor.continuation_state is Some,
        texts(provider.input_formats@) == texts(
            manifest.declaration(Capability::Executor)->0.input_formats@,
        ),
        texts(provider.output_formats@).contains(format) <==> texts(
            manifest.declaration(Capability::Executor)->0.output_formats@,
        ).contains(format),
{
    let out = texts(manifest.declaration(Capability::Executor)->0.output_formats@);
    assert(texts(provider.output_formats@).to_set().contains(format) == out.to_set().contains(
        format,
    ));
}

impl PluginProvider {
    /// What a connection is tested with, if the plugin can say.
    pub open spec fn is_test(
        &self,
        probe: Option<ProbeOperation>,
        payload: Seq<u8>,
        result: Result<ProbeOperation, ProviderAdminError>,
    ) -> bool {
        match probe {
            Some(probe) => if payload.len() == 0 && texts(self.input_formats@).contains(
                probe.protocol@,
            ) {
                result matches Ok(operation) && operation == probe
            } else {
                result matches Err(error) && error == admin(ProviderAdminErrorKind::Invalid)
            },
            None => result matches Err(error) && error == admin(ProviderAdminErrorKind::Invalid),
        }
    }
}

/// A connection is tested with just what the plugin proposes, in a protocol that it takes.
pub proof fn tested_as_proposed(
    provider: PluginProvider,
    probe: Option<ProbeOperation>,
    payload: Seq<u8>,
    result: Result<ProbeOperation, ProviderAdminError>,
)
    requires
        provider.is_test(probe, payload, result),
    ensures
        result matches Ok(operation) ==> probe == Some(operation) && payload.len() == 0 && exists|
            i: int,
        |
            0 <= i < provider.input_formats@.len() && (#[trigger] provider.input_formats@[i])@
                == operation.protocol@,
        probe matches Some(proposed) ==> (payload.len() == 0 && (exists|i: int|
            0 <= i < provider.input_formats@.len() && (#[trigger] provider.input_formats@[i])@
                == proposed.protocol@) ==> result is Ok),
        result matches Err(error) ==> error.kind is Invalid,
{
    if let Some(proposed) = probe {
        crate::text::texts_at_their_places(provider.input_formats@, proposed.protocol@);
    }
}

} // verus!
