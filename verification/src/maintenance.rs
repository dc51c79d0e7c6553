//! The host's tasks on a provider: what is done for an account, when it is due, and how the list of
//! clients is renewed. A task does only what the provider declares.

use vstd::prelude::*;
use vstd::string::*;

use crate::account::{CredentialState, ProviderAccount};
use crate::fault::{
    admin, invalid, refused, unavailable, AdminError, AdminErrorKind, AdminReason,
    ProviderAdminError, ProviderAdminErrorKind, UpstreamSendState,
};
use crate::management::{
    is_management_context, management_call_from, unusable, ManagementCall, ManagementOrigin,
    ProviderOperation,
};
use crate::manifest::{
    has_credential_operation, Capability, CredentialOperation, Manifest, Stage,
};
use crate::provider::PluginProvider;
use crate::provider_ports::ProviderRefreshPolicy;
use crate::request_profile::{
    is_directory_of, is_refresh, ProfileDirectory, RequestProfileLimits, RequestProfileRefresh,
};
use crate::text::same;

verus! {

/// How long a renewed list of clients is kept, in seconds.
pub const PROFILE_RETENTION_SECONDS: u64 = 2_592_000;

/// What a task of the host looks after.
#[derive(Clone, Copy, Debug, PartialEq, Eq, Structural)]
pub enum MaintenanceKind {
    Credentials,
    Quota,
    Models,
    RequestProfiles,
}

/// The kind of worker that carries out a task.
#[derive(Clone, Copy, Debug, PartialEq, Eq, Structural)]
pub enum WorkerKind {
    OAuthRefresh,
    QuotaCatalogHealth,
}

/// The worker that carries out a task: its kind, its name and every how many seconds it runs.
pub open spec fn worker_of(kind: MaintenanceKind) -> (WorkerKind, Seq<char>, u64) {
    match kind {
        MaintenanceKind::Credentials => (WorkerKind::OAuthRefresh, "plugin-credentials"@, 30),
        MaintenanceKind::Quota => (WorkerKind::QuotaCatalogHealth, "plugin-quota"@, 300),
        MaintenanceKind::Models => (WorkerKind::QuotaCatalogHealth, "plugin-models"@, 300),
        MaintenanceKind::RequestProfiles => (
            WorkerKind::QuotaCatalogHealth,
            "plugin-request-profiles"@,
            3600,
        ),
    }
}

impl MaintenanceKind {
    /// All kinds.
    pub fn all() -> (kinds: [MaintenanceKind; 4])
        ensures
            kinds@ == seq![
                MaintenanceKind::Credentials,
                MaintenanceKind::Quota,
                MaintenanceKind::Models,
                MaintenanceKind::RequestProfiles,
            ],
    {
        let kinds = [
            MaintenanceKind::Credentials,
            MaintenanceKind::Quota,
            MaintenanceKind::Models,
            MaintenanceKind::RequestProfiles,
        ];
        assert(kinds@ =~= seq![
            MaintenanceKind::Credentials,
            MaintenanceKind::Quota,
            MaintenanceKind::Models,
            MaintenanceKind::RequestProfiles,
        ]);
        kinds
    }

    pub fn worker(self) -> (worker: (WorkerKind, &'static str, u64))
        ensures
            worker.0 == worker_of(self).0,
            worker.1@ == worker_of(self).1,
            worker.2 == worker_of(self).2,
    {
        match self {
            MaintenanceKind::Credentials => (WorkerKind::OAuthRefresh, "plugin-credentials", 30),
            MaintenanceKind::Quota => (WorkerKind::QuotaCatalogHealth, "plugin-quota", 300),
            MaintenanceKind::Models => (WorkerKind::QuotaCatalogHealth, "plugin-models", 300),
            MaintenanceKind::RequestProfiles => (
                WorkerKind::QuotaCatalogHealth,
                "plugin-request-profiles",
                3600,
            ),
        }
    }
}

/// What happens to a request when a plugin fails.
#[derive(Clone, Copy, Debug, PartialEq, Eq, Structural)]
pub enum PluginFailurePolicy {
    Reject,
    /// Any other policy.
    Other,
}

/// Where a contribution of a plugin is used.
pub struct PluginCapabilityBinding {
    /// What the plugin declares under the contribution, or why that cannot be told.
    pub capability: Result<Capability, AdminError>,
    pub stage: String,
    pub failure_policy: PluginFailurePolicy,
    pub order: i64,
    pub client_key_ids: Vec<String>,
    pub account_group_ids: Vec<String>,
    pub models: Vec<String>,
    pub provider_ids: Vec<String>,
}

/// The place of the only binding to the host's tasks.
pub open spec fn maintenance_binding(bindings: Seq<PluginCapabilityBinding>) -> Result<
    Option<int>,
    AdminError,
>
    decreases bindings.len(),
{
    if bindings.len() == 0 {
        Ok(None)
    } else {
        match maintenance_binding(bindings.drop_last()) {
            Err(error) => Err(error),
            Ok(found) => match bindings.last().capability {
                Err(error) => Err(error),
                Ok(capability) => if capability != Capability::Maintenance {
                    Ok(found)
                } else if found is Some {
                    Err(refused(AdminReason::MaintenanceBindingRepeated))
                } else {
                    Ok(Some(bindings.len() - 1))
                },
            },
        }
    }
}

/// A binding to the host's tasks is at the stage for them, lets no failure pass and is for no chosen
/// clients, groups or models.
pub open spec fn is_maintenance_binding(
    binding: PluginCapabilityBinding,
    provider: Seq<char>,
) -> bool {
    &&& binding.stage@ == "maintenance"@
    &&& binding.failure_policy == PluginFailurePolicy::Reject
    &&& binding.order == 0
    &&& binding.client_key_ids@.len() == 0
    &&& binding.account_group_ids@.len() == 0
    &&& binding.models@.len() == 0
    &&& binding.provider_ids@.len() == 0 || binding.provider_ids@.len() == 1
        && binding.provider_ids@[0]@ == provider
}

fn maintenance_bound(binding: &PluginCapabilityBinding, provider: &str) -> (r: bool)
    ensures
        r == is_maintenance_binding(*binding, provider@),
{
    same(binding.stage.as_str(), "maintenance") && binding.failure_policy
        == PluginFailurePolicy::Reject && binding.order == 0 && binding.client_key_ids.len() == 0
        && binding.account_group_ids.len() == 0 && binding.models.len() == 0 && (
    binding.provider_ids.len() == 0 || (binding.provider_ids.len() == 1 && same(
        binding.provider_ids[0].as_str(),
        provider,
    )))
}

/// A failure among the first bindings stays the failure of all.
proof fn lemma_binding_failure(bindings: Seq<PluginCapabilityBinding>, n: int)
    requires
        0 <= n <= bindings.len(),
        maintenance_binding(bindings.take(n)) is Err,
    ensures
        maintenance_binding(bindings) == maintenance_binding(bindings.take(n)),
    decreases bindings.len() - n,
{
    if n == bindings.len() {
        assert(bindings.take(n) =~= bindings);
    } else {
        assert(bindings.take(n + 1).drop_last() =~= bindings.take(n));
        lemma_binding_failure(bindings, n + 1);
    }
}

fn find_maintenance(bindings: &Vec<PluginCapabilityBinding>) -> (result: Result<
    Option<usize>,
    AdminError,
>)
    ensures
        match result {
            Ok(Some(place)) => maintenance_binding(bindings@) == Ok::<Option<int>, AdminError>(
                Some(place as int),
            ) && place < bindings@.len(),
            Ok(None) => maintenance_binding(bindings@) == Ok::<Option<int>, AdminError>(None),
            Err(error) => maintenance_binding(bindings@) == Err::<Option<int>, AdminError>(error),
        },
{
    let mut selected: Option<usize> = None;
    assert(bindings@.take(0) =~= Seq::<PluginCapabilityBinding>::empty());
    for i in 0..bindings.len()
        invariant
            selected matches Some(place) ==> place < i,
            maintenance_binding(bindings@.take(i as int)) == Ok::<Option<int>, AdminError>(
                match selected {
                    Some(place) => Some(place as int),
                    None => None,
                },
            ),
    {
        proof {
            assert(bindings@.take(i + 1).drop_last() =~= bindings@.take(i as int));
            assert(bindings@.take(i + 1).last() == bindings@[i as int]);
            if maintenance_binding(bindings@.take(i + 1)) is Err {
                lemma_binding_failure(bindings@, i + 1);
            }
        }
        match bindings[i].capability {
            Err(error) => return Err(error),
            Ok(capability) => if capability == Capability::Maintenance {
                if selected.is_some() {
                    return Err(AdminError::invalid(AdminReason::MaintenanceBindingRepeated));
                }
                selected = Some(i);
            },
        }
    }
    assert(bindings@.take(bindings@.len() as int) =~= bindings@);
    Ok(selected)
}

/// What a task does for an account.
#[derive(Clone, Copy, Debug, PartialEq, Eq, Structural)]
pub enum MaintenanceStep {
    /// Nothing.
    Skip,
    /// The credential is refreshed, if it is due.
    RefreshIfDue,
    /// The quota is asked for.
    Quota,
    /// The models are asked for.
    Models,
}

/// An account that a task may touch: it is the provider's own and enabled, and its credential is good
/// or, where credentials are looked after, expired.
pub open spec fn is_maintained(
    kind: MaintenanceKind,
    account: ProviderAccount,
    provider: Seq<char>,
) -> bool {
    &&& account.enabled
    &&& account.credential_state == CredentialState::Ready || kind == MaintenanceKind::Credentials
        && account.credential_state == CredentialState::Expired
    &&& account.provider@ == provider
}

/// What a task does for an account. `is_account` says whether the account's name is one that an
/// account can have.
pub open spec fn step_for(
    kind: MaintenanceKind,
    account: ProviderAccount,
    is_account: bool,
    provider: Seq<char>,
) -> Result<MaintenanceStep, ProviderAdminError> {
    if !is_maintained(kind, account, provider) {
        Ok(MaintenanceStep::Skip)
    } else if !is_account || kind == MaintenanceKind::RequestProfiles {
        Err(admin(ProviderAdminErrorKind::Invalid))
    } else {
        Ok(
            match kind {
                MaintenanceKind::Credentials => if account.has_refresh_token {
                    MaintenanceStep::RefreshIfDue
                } else {
                    MaintenanceStep::Skip
                },
                MaintenanceKind::Quota => MaintenanceStep::Quota,
                _ => MaintenanceStep::Models,
            },
        )
    }
}

/// When a credential is due, in nanoseconds since the epoch: the time that was set for it, and when its
/// token ends.
#[derive(Clone, Copy, Debug, PartialEq, Eq, Structural)]
pub struct RefreshTimes {
    pub next_refresh_at: Option<i128>,
    pub access_token_expires_at: Option<i128>,
}

/// A credential is due: the time that was set for it has come or, where none was set, its token ends
/// soon.
pub open spec fn is_refresh_wanted(
    times: RefreshTimes,
    policy: ProviderRefreshPolicy,
    now: i128,
) -> bool {
    match times.next_refresh_at {
        Some(next) => next <= now,
        None => times.access_token_expires_at matches Some(expiry) && policy.is_due(expiry, now),
    }
}

/// Whether a credential is refreshed now. `policy` is nothing where it could not be read.
pub fn refresh_wanted(times: RefreshTimes, policy: Option<ProviderRefreshPolicy>, now: i128) -> (
    result: Result<bool, ProviderAdminError>)
    ensures
        match policy {
            Some(policy) => result matches Ok(wanted) && wanted == is_refresh_wanted(
                times,
                policy,
                now,
            ),
            None => result matches Err(error) && error == admin(
                ProviderAdminErrorKind::Unavailable,
            ),
        },
{
    let policy = match policy {
        Some(policy) => policy,
        None => return Err(unavailable()),
    };
    Ok(
        match times.next_refresh_at {
            Some(next) => next <= now,
            None => match times.access_token_expires_at {
                Some(expiry) => policy.is_refresh_due(expiry, now),
                None => false,
            },
        },
    )
}

/// What the host kept of a list of clients.
pub enum CachedProfiles {
    /// It could not be read.
    Failed,
    /// Nothing was kept.
    Nothing,
    /// What was kept is no list.
    Unreadable,
    /// A list, how many bytes it takes when it is written down, and the declaration in it as it is
    /// written down.
    Found { refresh: RequestProfileRefresh, encoded_bytes: usize, encoded: Vec<u8> },
}

/// A directory after a list was taken, and what came of it.
pub open spec fn is_applied(
    before: ProfileDirectory,
    after: ProfileDirectory,
    result: Result<(), AdminError>,
    refresh: RequestProfileRefresh,
    encoded_bytes: usize,
    encoded: Seq<u8>,
    limits: RequestProfileLimits,
) -> bool {
    if is_refresh(refresh, encoded_bytes, limits) {
        exists|next: ProfileDirectory|
            {
                &&& next.well_formed()
                &&& next.sequence == refresh.sequence
                &&& #[trigger] is_directory_of(next, refresh.profiles, encoded, before.provider@)
                &&& if next.follows(&before) {
                    result is Ok && after == (if next.sequence > before.sequence {
                        next
                    } else {
                        before
                    })
                } else {
                    result == Err::<(), AdminError>(refused(AdminReason::RequestProfiles)) && after
                        == before
                }
            }
    } else {
        result == Err::<(), AdminError>(refused(AdminReason::RequestProfiles)) && after == before
    }
}

impl PluginProvider {
    /// The provider does what a task needs.
    pub open spec fn is_supported(&self, kind: MaintenanceKind) -> bool {
        match kind {
            MaintenanceKind::Credentials => self.credential_operations@.contains(
                CredentialOperation::Refresh,
            ),
            MaintenanceKind::Quota => self.quota_enabled,
            MaintenanceKind::Models => self.catalog.asks_accounts(),
            MaintenanceKind::RequestProfiles => self.request_profile_refresh_enabled
                && self.request_profiles is Some,
        }
    }

    pub fn supports_maintenance(&self, kind: MaintenanceKind) -> (r: bool)
        ensures
            r == self.is_supported(kind),
    {
        match kind {
            MaintenanceKind::Credentials => has_credential_operation(
                &self.credential_operations,
                CredentialOperation::Refresh,
            ),
            MaintenanceKind::Quota => self.quota_enabled,
            MaintenanceKind::Models => self.catalog.discovers_accounts(),
            MaintenanceKind::RequestProfiles => self.request_profile_refresh_enabled
                && self.request_profiles.is_some(),
        }
    }

    /// The provider can be bound to the host's tasks.
    pub open spec fn may_be_maintained(
        &self,
        manifest: Manifest,
        binding: PluginCapabilityBinding,
    ) -> bool {
        &&& is_maintenance_binding(binding, self.kind@)
        &&& (manifest.declaration(Capability::Maintenance) matches Some(declaration)
            && declaration.stages@ == seq![Stage::Maintenance])
        &&& exists|kind: MaintenanceKind| #[trigger] self.is_supported(kind)
    }

    /// Whether the host's tasks look after the provider.
    pub fn maintenance_enabled(
        &self,
        manifest: &Manifest,
        bindings: &Vec<PluginCapabilityBinding>,
    ) -> (result: Result<bool, AdminError>)
        ensures
            match maintenance_binding(bindings@) {
                Err(error) => result == Err::<bool, AdminError>(error),
                Ok(None) => result == Ok::<bool, AdminError>(false),
                Ok(Some(place)) => if self.may_be_maintained(*manifest, bindings@[place]) {
                    result == Ok::<bool, AdminError>(true)
                } else {
                    result == Err::<bool, AdminError>(refused(AdminReason::MaintenanceBinding))
                },
            },
    {
        let place = match find_maintenance(bindings) {
            Ok(Some(place)) => place,
            Ok(None) => return Ok(false),
            Err(error) => return Err(error),
        };
        let staged = match manifest.get(Capability::Maintenance) {
            Some(declaration) => {
                let r = declaration.stages.len() == 1 && declaration.stages[0]
                    == Stage::Maintenance;
                proof {
                    if r {
                        assert(declaration.stages@ =~= seq![Stage::Maintenance]);
                    } else if declaration.stages@ == seq![Stage::Maintenance] {
                        assert(declaration.stages@[0] == Stage::Maintenance);
                    }
                }
                r
            },
            None => false,
        };
        let supported = self.supports_maintenance(MaintenanceKind::Credentials)
            || self.supports_maintenance(MaintenanceKind::Quota) || self.supports_maintenance(
            MaintenanceKind::Models,
        ) || self.supports_maintenance(MaintenanceKind::RequestProfiles);
        if maintenance_bound(&bindings[place], self.kind.as_str()) && staged && supported {
            Ok(true)
        } else {
            Err(AdminError::invalid(AdminReason::MaintenanceBinding))
        }
    }

    /// What a task does for an account. `is_account` says whether the account's name is one that an
    /// account can have.
    pub fn maintenance_step(
        &self,
        kind: MaintenanceKind,
        account: &ProviderAccount,
        is_account: bool,
    ) -> (result: Result<MaintenanceStep, ProviderAdminError>)
        ensures
            match step_for(kind, *account, is_account, self.kind@) {
                Ok(step) => result matches Ok(taken) && taken == step,
                Err(fault) => result matches Err(error) && error == fault,
            },
    {
        if !account.enabled || !(account.credential_state == CredentialState::Ready || (kind
            == MaintenanceKind::Credentials && account.credential_state
            == CredentialState::Expired)) || !same(account.provider.as_str(), self.kind.as_str()) {
            return Ok(MaintenanceStep::Skip);
        }
        if !is_account {
            return Err(invalid());
        }
        match kind {
            MaintenanceKind::Credentials => Ok(
                if account.has_refresh_token {
                    MaintenanceStep::RefreshIfDue
                } else {
                    MaintenanceStep::Skip
                },
            ),
            MaintenanceKind::Quota => Ok(MaintenanceStep::Quota),
            MaintenanceKind::Models => Ok(MaintenanceStep::Models),
            MaintenanceKind::RequestProfiles => Err(invalid()),
        }
    }

    /// The name under which the host keeps the list of clients: another plugin, another setting or
    /// another grant has another name.
    pub fn profile_cache_key(&self) -> (key: String)
        ensures
            key@ == "plugin-"@ + self.authorization_binding@,
    {
        let mut key = "plugin-".to_owned();
        key.append(self.authorization_binding.as_str());
        key
    }

    /// The host keeps lists of clients for the provider.
    pub fn keeps_request_profiles(&self) -> (r: bool)
        ensures
            r == self.is_supported(MaintenanceKind::RequestProfiles),
    {
        self.supports_maintenance(MaintenanceKind::RequestProfiles)
    }

    /// Takes the list of clients that the host kept.
    pub fn restore_request_profiles(
        &mut self,
        cached: CachedProfiles,
        limits: RequestProfileLimits,
    ) -> (result: Result<(), AdminError>)
        requires
            old(self).well_formed(),
        ensures
            final(self).well_formed(),
            *final(self) == (PluginProvider {
                request_profiles: final(self).request_profiles,
                ..*old(self)
            }),
            if !old(self).is_supported(MaintenanceKind::RequestProfiles) {
                result is Ok && *final(self) == *old(self)
            } else {
                match cached {
                    CachedProfiles::Failed => result == Err::<(), AdminError>(
                        AdminError {
                            kind: AdminErrorKind::Unavailable,
                            reason: AdminReason::ProfileCacheRead,
                        },
                    ) && *final(self) == *old(self),
                    CachedProfiles::Nothing => result is Ok && *final(self) == *old(self),
                    CachedProfiles::Unreadable => result == Err::<(), AdminError>(
                        refused(AdminReason::ProfileCache),
                    ) && *final(self) == *old(self),
                    CachedProfiles::Found { refresh, encoded_bytes, encoded } => final(
                        self).request_profiles matches Some(after) && is_applied(
                        old(self).request_profiles->0,
                        after,
                        result,
                        refresh,
                        encoded_bytes,
                        encoded@,
                        limits,
                    ),
                }
            },
    {
        if !self.request_profile_refresh_enabled {
            return Ok(());
        }
        match &mut self.request_profiles {
            Some(directory) => match cached {
                CachedProfiles::Failed => Err(
                    AdminError::unavailable(AdminReason::ProfileCacheRead),
                ),
                CachedProfiles::Nothing => Ok(()),
                CachedProfiles::Unreadable => Err(AdminError::invalid(AdminReason::ProfileCache)),
                CachedProfiles::Found { refresh, encoded_bytes, encoded } => directory.apply_refresh(
                    refresh,
                    encoded_bytes,
                    encoded.as_slice(),
                    limits,
                ),
            },
            None => Ok(()),
        }
    }

    /// Prepares the call that asks for a newer list of clients.
    pub fn begin_profile_refresh(&self, task_id: String) -> (result: Result<
        ManagementCall,
        ProviderAdminError,
    >)
        ensures
            match result {
                Ok(call) => {
                    &&& self.request_profiles is Some
                    &&& call.operation == ProviderOperation::Profile
                    &&& is_management_context(
                        call.context,
                        None,
                        ManagementOrigin::Maintenance { task_id, credential_revision: None },
                    )
                    &&& call.scope.proxy is None
                    &&& call.scope.state() == UpstreamSendState::NotSent
                },
                Err(error) => self.request_profiles is None && error == admin(
                    ProviderAdminErrorKind::Invalid,
                ),
            },
    {
        if self.request_profiles.is_none() {
            return Err(invalid());
        }
        management_call_from(
            ProviderOperation::Profile,
            None,
            None,
            &ManagementOrigin::Maintenance { task_id, credential_revision: None },
        )
    }

    /// Whether a newer list of clients that the plugin answered with may be kept.
    pub fn check_profile_refresh(
        &self,
        call: &ManagementCall,
        refresh: RequestProfileRefresh,
        encoded_bytes: usize,
        encoded: &[u8],
        limits: RequestProfileLimits,
    ) -> (result: Result<(), ProviderAdminError>)
        requires
            self.well_formed(),
        ensures
            match self.request_profiles {
                None => result matches Err(error) && error == admin(
                    ProviderAdminErrorKind::Invalid,
                ),
                Some(current) => match result {
                    Ok(()) => is_refresh(refresh, encoded_bytes, limits) && exists|
                        next: ProfileDirectory,
                    |
                        {
                            &&& next.well_formed()
                            &&& next.sequence == refresh.sequence
                            &&& #[trigger] is_directory_of(
                                next,
                                refresh.profiles,
                                encoded@,
                                self.kind@,
                            )
                            &&& next.follows(&current)
                        },
                    Err(error) => {
                        &&& error == unusable(call.operation, call.scope.state())
                        &&& is_refresh(refresh, encoded_bytes, limits) ==> exists|
                            next: ProfileDirectory,
                        |
                            {
                                &&& next.well_formed()
                                &&& next.sequence == refresh.sequence
                                &&& #[trigger] is_directory_of(
                                    next,
                                    refresh.profiles,
                                    encoded@,
                                    self.kind@,
                                )
                                &&& !next.follows(&current)
                            }
                    },
                },
            },
    {
        let current = match &self.request_profiles {
            Some(current) => current,
            None => return Err(invalid()),
        };
        match ProfileDirectory::prepare_refresh(
            refresh,
            encoded_bytes,
            encoded,
            limits,
            self.kind.as_str(),
        ) {
            Ok(next) => {
                assert(is_directory_of(next, refresh.profiles, encoded@, self.kind@));
                match next.validate_successor(current) {
                    Ok(()) => Ok(()),
                    Err(_) => Err(call.invalid_result()),
                }
            },
            Err(_) => Err(call.invalid_result()),
        }
    }

    /// What a task reports that renewed the list of clients: whether the list was kept, and what came
    /// of reading it back.
    pub fn finish_profile_refresh(
        call: &ManagementCall,
        kept: bool,
        restored: Result<(), AdminError>,
    ) -> (result: Result<(), ProviderAdminError>)
        ensures
            result == (if !kept {
                Err::<(), ProviderAdminError>(admin(ProviderAdminErrorKind::Unavailable))
            } else if restored is Err {
                Err(unusable(call.operation, call.scope.state()))
            } else {
                Ok(())
            }),
    {
        if !kept {
            return Err(unavailable());
        }
        match restored {
            Ok(()) => Ok(()),
            Err(_) => Err(call.invalid_result()),
        }
    }
}

/// No task touches an account that is switched off or belongs to another provider, and a credential
/// that has ended is only ever refreshed.
pub proof fn tasks_leave_others_alone(
    kind: MaintenanceKind,
    account: ProviderAccount,
    is_account: bool,
    provider: Seq<char>,
)
    ensures
        !account.enabled || account.provider@ != provider ==> step_for(
            kind,
            account,
            is_account,
            provider,
        ) == Ok::<MaintenanceStep, ProviderAdminError>(MaintenanceStep::Skip),
        account.credential_state == CredentialState::Expired ==> (step_for(
            kind,
            account,
            is_account,
            provider,
        ) matches Ok(step) ==> step == MaintenanceStep::Skip || step
            == MaintenanceStep::RefreshIfDue),
{
}

/// The tasks have names of their own, so none is taken for another.
pub proof fn tasks_are_told_apart(a: MaintenanceKind, b: MaintenanceKind)
    requires
        a != b,
    ensures
        worker_of(a).1 != worker_of(b).1,
{
    reveal_strlit("plugin-credentials");
    reveal_strlit("plugin-quota");
    reveal_strlit("plugin-models");
    reveal_strlit("plugin-request-profiles");
    assert("plugin-credentials"@.len() == 18);
    assert("plugin-quota"@.len() == 12);
    assert("plugin-models"@.len() == 13);
    assert("plugin-request-profiles"@.len() == 23);
}

/// Different plugins, settings or grants keep their lists of clients under different names.
pub proof fn cache_keys_are_told_apart(a: PluginProvider, b: PluginProvider)
    requires
        "plugin-"@ + a.authorization_binding@ == "plugin-"@ + b.authorization_binding@,
    ensures
        a.authorization_binding@ == b.authorization_binding@,
{
    let n = "plugin-"@.len() as int;
    let left = "plugin-"@ + a.authorization_binding@;
    let right = "plugin-"@ + b.authorization_binding@;
    assert(left.skip(n) =~= a.authorization_binding@);
    assert(right.skip(n) =~= b.authorization_binding@);
}

/// Credentials are looked after every half minute, quotas and models every five minutes, and lists of
/// clients every hour; each task has a worker with a name of its own.
pub proof fn workers_by_task(kind: MaintenanceKind)
    ensures
        kind is Credentials ==> worker_of(kind).0 is OAuthRefresh && worker_of(kind).1
            == "plugin-credentials"@ && worker_of(kind).2 == 30,
        kind is Quota ==> worker_of(kind).0 is QuotaCatalogHealth && worker_of(kind).1
            == "plugin-quota"@ && worker_of(kind).2 == 300,
        kind is Models ==> worker_of(kind).0 is QuotaCatalogHealth && worker_of(kind).1
            == "plugin-models"@ && worker_of(kind).2 == 300,
        kind is RequestProfiles ==> worker_of(kind).0 is QuotaCatalogHealth && worker_of(kind).1
            == "plugin-request-profiles"@ && worker_of(kind).2 == 3600,
{
}

/// The binding to the host's tasks is the only one of its kind: where one is found it is one, and no
/// other is; where none is found there is none; and where all bindings can be told, it is refused only
/// for being repeated.
pub proof fn bound_once(bindings: Seq<PluginCapabilityBinding>)
    ensures
        match maintenance_binding(bindings) {
            Ok(Some(place)) => 0 <= place < bindings.len() && forall|k: int|
                0 <= k < bindings.len() ==> (#[trigger] bindings[k]).capability is Ok && (
                bindings[k].capability->Ok_0 is Maintenance <==> k == place),
            Ok(None) => forall|k: int|
                0 <= k < bindings.len() ==> (#[trigger] bindings[k]).capability is Ok && !(
                bindings[k].capability->Ok_0 is Maintenance),
            Err(error) => (forall|k: int|
                0 <= k < bindings.len() ==> (#[trigger] bindings[k]).capability is Ok) ==> error
                == refused(AdminReason::MaintenanceBindingRepeated) && exists|i: int, j: int|
                0 <= i < j < bindings.len() && (#[trigger] bindings[i]).capability->Ok_0
                    is Maintenance && (#[trigger] bindings[j]).capability->Ok_0 is Maintenance,
        },
    decreases bindings.len(),
{
    if bindings.len() > 0 {
        let front = bindings.drop_last();
        let last = bindings.len() - 1;
        bound_once(front);
        assert(bindings[last] == bindings.last());
        assert forall|k: int| 0 <= k < front.len() implies front[k] == #[trigger] bindings[k] by {}
        if maintenance_binding(front) is Err {
            if forall|k: int|
                0 <= k < bindings.len() ==> (#[trigger] bindings[k]).capability is Ok {
                assert forall|k: int| 0 <= k < front.len() implies (
                #[trigger] front[k]).capability is Ok by {
                    assert(bindings[k].capability is Ok);
                }
                let (i, j) = choose|i: int, j: int|
                    0 <= i < j < front.len() && (#[trigger] front[i]).capability->Ok_0 is Maintenance
                        && (#[trigger] front[j]).capability->Ok_0 is Maintenance;
                assert(bindings[i].capability->Ok_0 is Maintenance);
                assert(bindings[j].capability->Ok_0 is Maintenance);
            }
        } else if maintenance_binding(front)->Ok_0 is Some {
            let place = maintenance_binding(front)->Ok_0->0;
            assert(front[place].capability->Ok_0 is Maintenance);
            assert(bindings[place].capability->Ok_0 is Maintenance);
            assert forall|k: int| 0 <= k < last implies (#[trigger] bindings[k]).capability is Ok && (
            bindings[k].capability->Ok_0 is Maintenance <==> k == place) by {
                assert(front[k] == bindings[k]);
            }
        } else {
            assert forall|k: int| 0 <= k < last implies (#[trigger] bindings[k]).capability is Ok && !(
            bindings[k].capability->Ok_0 is Maintenance) by {
                assert(front[k] == bindings[k]);
            }
        }
    }
}

/// A binding to the host's tasks is in order exactly if it is at the stage for them, lets no failure
/// pass, stands first, and is for nobody in particular, or for this provider alone.
pub proof fn bindings_in_order(binding: PluginCapabilityBinding, provider: Seq<char>)
    ensures
        is_maintenance_binding(binding, provider) <==> {
            &&& binding.stage@ == "maintenance"@
            &&& binding.failure_policy is Reject
            &&& binding.order == 0
            &&& binding.client_key_ids@.len() == 0 && binding.account_group_ids@.len() == 0
                && binding.models@.len() == 0
            &&& binding.provider_ids@.len() <= 1
            &&& binding.provider_ids@.len() == 1 ==> binding.provider_ids@[0]@ == provider
        },
{
}

/// A task does something for an account exactly if the account is enabled, the provider's own and has a
/// good credential, or an expired one that is to be refreshed: it refreshes one that can be, asks for
/// the quota or asks for the models, each under its own task.
pub proof fn steps_by_task(
    kind: MaintenanceKind,
    account: ProviderAccount,
    provider: Seq<char>,
    is_account: bool,
)
    ensures
        ({
            let step = step_for(kind, account, is_account, provider);
            let touched = account.enabled && account.provider@ == provider && (
            account.credential_state is Ready || (account.credential_state is Expired && kind
                is Credentials));
            &&& !touched ==> step == Ok::<MaintenanceStep, ProviderAdminError>(MaintenanceStep::Skip)
            &&& touched && (!is_account || kind is RequestProfiles) ==> step is Err
                && step->Err_0.kind is Invalid
            &&& touched && is_account && kind is Credentials ==> step == Ok::<
                MaintenanceStep,
                ProviderAdminError,
            >(
                if account.has_refresh_token {
                    MaintenanceStep::RefreshIfDue
                } else {
                    MaintenanceStep::Skip
                },
            )
            &&& touched && is_account && kind is Quota ==> step == Ok::<
                MaintenanceStep,
                ProviderAdminError,
            >(MaintenanceStep::Quota)
            &&& touched && is_account && kind is Models ==> step == Ok::<
                MaintenanceStep,
                ProviderAdminError,
            >(MaintenanceStep::Models)
        }),
{
}

/// A credential is refreshed when the time that was set for it has come. Where none was set, it is
/// when what is left of its token is at most the margin; and never where neither is known.
pub proof fn refreshed_when_due(times: RefreshTimes, policy: ProviderRefreshPolicy, now: i128)
    ensures
        times.next_refresh_at is Some ==> (is_refresh_wanted(times, policy, now)
            <==> times.next_refresh_at->0 <= now),
        times.next_refresh_at is None && times.access_token_expires_at is Some ==> (
        is_refresh_wanted(times, policy, now) <==> times.access_token_expires_at->0 - now
            <= policy.margin),
        times.next_refresh_at is None && times.access_token_expires_at is None
            ==> !is_refresh_wanted(times, policy, now),
{
}

/// A provider is looked after in what it does: its credentials if it refreshes them, its quotas if it
/// reports them, its models if its accounts are asked for theirs, and its clients if it has some and
/// renews them.
pub proof fn supported_tasks(provider: PluginProvider)
    ensures
        provider.is_supported(MaintenanceKind::Credentials)
            <==> provider.credential_operations@.contains(CredentialOperation::Refresh),
        provider.is_supported(MaintenanceKind::Quota) <==> provider.quota_enabled,
        provider.is_supported(MaintenanceKind::Models) <==> provider.catalog.discovery is Some,
        provider.is_supported(MaintenanceKind::RequestProfiles)
            <==> provider.request_profile_refresh_enabled && provider.request_profiles is Some,
{
}

/// Taking a list of clients never takes a step back: the number only rises, and a list that is refused
/// changes nothing.
pub proof fn lists_only_advance(
    before: ProfileDirectory,
    after: ProfileDirectory,
    result: Result<(), AdminError>,
    refresh: RequestProfileRefresh,
    encoded_bytes: usize,
    encoded: Seq<u8>,
    limits: RequestProfileLimits,
)
    requires
        is_applied(before, after, result, refresh, encoded_bytes, encoded, limits),
    ensures
        after.sequence >= before.sequence,
        result is Err ==> after == before,
        after != before ==> after.sequence == refresh.sequence && refresh.sequence > before.sequence
            && after.options == refresh.profiles.options && after.provider@ == before.provider@,
        result is Ok && refresh.sequence > before.sequence ==> after.sequence == refresh.sequence
            && after.options == refresh.profiles.options,
        !is_refresh(refresh, encoded_bytes, limits) ==> result is Err,
{
}

/// A provider may be maintained if it is bound in order, declares maintenance and nothing else for it,
/// and there is a task that it supports.
pub proof fn maintained_if_bound(
    provider: PluginProvider,
    manifest: Manifest,
    binding: PluginCapabilityBinding,
    kind: MaintenanceKind,
)
    ensures
        provider.may_be_maintained(manifest, binding) ==> is_maintenance_binding(
            binding,
            provider.kind@,
        ) && manifest.contributes_to(Capability::Maintenance) && manifest.declaration(
            Capability::Maintenance,
        )->0.stages@.len() == 1 && manifest.contributes_at(
            Capability::Maintenance,
            Stage::Maintenance,
        ),
        is_maintenance_binding(binding, provider.kind@) && manifest.declaration(
            Capability::Maintenance,
        ) is Some && manifest.declaration(Capability::Maintenance)->0.stages@ == seq![
            Stage::Maintenance,
        ] && provider.is_supported(kind) ==> provider.may_be_maintained(manifest, binding),
        (forall|kind: MaintenanceKind| !#[trigger] provider.is_supported(kind))
            ==> !provider.may_be_maintained(manifest, binding),
{
    if provider.may_be_maintained(manifest, binding) {
        let stages = manifest.declaration(Capability::Maintenance)->0.stages@;
        assert(stages[0] == Stage::Maintenance);
    }
}

} // verus!
