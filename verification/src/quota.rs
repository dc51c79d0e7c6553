//! The quota of an account: what a plugin reports of it, and what is shown of it.

use vstd::prelude::*;

use crate::account::ProviderAccount;
use crate::fault::{
    admin, conflict, invalid, unsupported, ProviderAdminError, ProviderAdminErrorKind,
};
use crate::json::{member, put, Json, JsonView};
use crate::moment::{is_optional_moment, timestamp};
use crate::percent::{amount, is_amount};
use crate::text::{is_optional_plain_text, is_plain_text, optional_plain_text, plain_text, same};

pub mod query;

verus! {

/// The most windows that a quota may have.
pub const MAX_WINDOWS: usize = 64;

/// The most bytes of a text in a quota.
pub const MAX_TEXT_BYTES: usize = 1024;

/// What a window of a quota limits.
#[derive(Clone, Copy, Debug, PartialEq, Eq, Structural)]
pub enum QuotaWindowRole {
    Primary,
    Secondary,
    Monthly,
}

/// How the provider showed that a quota is used up.
#[derive(Clone, Copy, Debug, PartialEq, Eq, Structural)]
pub enum QuotaEvidence {
    ProviderDenied,
    AccountLimitReached,
    UsageLimitReached,
    PaymentRequired,
}

/// Whether an account may be used, as a plugin reports it.
#[derive(Clone, Copy, Debug, PartialEq, Eq, Structural)]
pub enum QuotaAccess {
    Unknown,
    Allowed,
    Exhausted { evidence: QuotaEvidence, reset_at_ms: Option<i64> },
}

/// A window of a quota, as a plugin reports it.
pub struct QuotaWindow {
    pub key: String,
    pub group: String,
    pub label: String,
    pub limit_id: Option<String>,
    pub limit_name: Option<String>,
    pub role: Option<QuotaWindowRole>,
    pub account_wide: bool,
    pub window_seconds: Option<u64>,
    /// The bits of the percentage.
    pub used_percent: Option<u64>,
    pub reset_at_ms: Option<i64>,
    pub limit_reached: bool,
    pub provider_data: Option<Vec<(String, Json)>>,
}

/// A quota, as a plugin reports it.
pub struct Quota {
    pub plan_type: Option<String>,
    pub windows: Vec<QuotaWindow>,
    pub access: QuotaAccess,
    pub refresh_token_expires_at_ms: Option<i64>,
    pub provider_data: Option<Vec<(String, Json)>>,
}

/// A window that can be kept.
pub open spec fn is_quota_window(window: QuotaWindow) -> bool {
    &&& is_plain_text(window.key@, MAX_TEXT_BYTES as nat)
    &&& is_plain_text(window.group@, MAX_TEXT_BYTES as nat)
    &&& is_plain_text(window.label@, MAX_TEXT_BYTES as nat)
    &&& is_optional_plain_text(window.limit_id, MAX_TEXT_BYTES as nat)
    &&& is_optional_plain_text(window.limit_name, MAX_TEXT_BYTES as nat)
    &&& window.window_seconds != Some(0u64)
    &&& window.used_percent matches Some(bits) ==> is_amount(bits)
    &&& is_optional_moment(window.reset_at_ms)
}

/// The end of the time for which a quota is used up, where it is given.
pub open spec fn access_reset(access: QuotaAccess) -> Option<i64> {
    match access {
        QuotaAccess::Exhausted { reset_at_ms, .. } => reset_at_ms,
        _ => None,
    }
}

/// A quota that can be kept.
pub open spec fn is_quota(quota: Quota) -> bool {
    let windows = quota.windows@;
    &&& windows.len() <= MAX_WINDOWS
    &&& is_optional_plain_text(quota.plan_type, MAX_TEXT_BYTES as nat)
    &&& is_optional_moment(quota.refresh_token_expires_at_ms)
    &&& is_optional_moment(access_reset(quota.access))
    &&& forall|i: int| 0 <= i < windows.len() ==> is_quota_window(#[trigger] windows[i])
    &&& forall|i: int, j: int|
        0 <= i < j < windows.len() ==> (#[trigger] windows[i]).key@ != (#[trigger] windows[j]).key@
}

fn valid_window(window: &QuotaWindow) -> (r: bool)
    ensures
        r == is_quota_window(*window),
{
    let seconds = match window.window_seconds {
        Some(seconds) => seconds != 0,
        None => true,
    };
    let percent = match window.used_percent {
        Some(bits) => amount(bits),
        None => true,
    };
    plain_text(window.key.as_str(), MAX_TEXT_BYTES) && plain_text(
        window.group.as_str(),
        MAX_TEXT_BYTES,
    ) && plain_text(window.label.as_str(), MAX_TEXT_BYTES) && optional_plain_text(
        &window.limit_id,
        MAX_TEXT_BYTES,
    ) && optional_plain_text(&window.limit_name, MAX_TEXT_BYTES) && seconds && percent
        && timestamp(window.reset_at_ms).is_ok()
}

pub fn validate(quota: &Quota) -> (result: Result<(), ProviderAdminError>)
    ensures
        result == (if is_quota(*quota) {
            Ok::<(), ProviderAdminError>(())
        } else {
            Err(admin(ProviderAdminErrorKind::Invalid))
        }),
{
    let windows = &quota.windows;
    if windows.len() > MAX_WINDOWS || !optional_plain_text(&quota.plan_type, MAX_TEXT_BYTES) {
        return Err(invalid());
    }
    if timestamp(quota.refresh_token_expires_at_ms).is_err() {
        return Err(invalid());
    }
    for i in 0..windows.len()
        invariant
            windows@ == quota.windows@,
            forall|j: int| 0 <= j < i ==> is_quota_window(#[trigger] windows@[j]),
            forall|j: int, k: int|
                0 <= j < k < i ==> (#[trigger] windows@[j]).key@ != (#[trigger] windows@[k]).key@,
    {
        for j in 0..i
            invariant
                i < windows@.len(),
                windows@ == quota.windows@,
                forall|k: int|
                    0 <= k < j ==> (#[trigger] windows@[k]).key@ != windows@[i as int].key@,
        {
            if same(windows[j].key.as_str(), windows[i].key.as_str()) {
                return Err(invalid());
            }
        }
        if !valid_window(&windows[i]) {
            return Err(invalid());
        }
    }
    match quota_state(&quota.access, 0) {
        Ok(_) => Ok(()),
        Err(error) => Err(error),
    }
}

/// Whether an account may be used, as the gateway keeps it. Points in time are in microseconds since
/// the epoch where they are the gateway's own, and in milliseconds where they are the plugin's.
#[derive(Clone, Copy, Debug, PartialEq, Eq, Structural)]
pub enum QuotaState {
    ObservedUnknown { observed_at_us: i64 },
    Allowed { observed_at_us: i64 },
    Exhausted { evidence: QuotaEvidence, observed_at_us: i64, reset_at_ms: Option<i64> },
}

/// What is kept of an account's access.
pub open spec fn kept_state(access: QuotaAccess, observed_at_us: i64) -> QuotaState {
    match access {
        QuotaAccess::Unknown => QuotaState::ObservedUnknown { observed_at_us },
        QuotaAccess::Allowed => QuotaState::Allowed { observed_at_us },
        QuotaAccess::Exhausted { evidence, reset_at_ms } => QuotaState::Exhausted {
            evidence,
            observed_at_us,
            reset_at_ms,
        },
    }
}

pub fn quota_state(access: &QuotaAccess, observed_at_us: i64) -> (result: Result<
    QuotaState,
    ProviderAdminError,
>)
    ensures
        result == (if is_optional_moment(access_reset(*access)) {
            Ok::<QuotaState, ProviderAdminError>(kept_state(*access, observed_at_us))
        } else {
            Err(admin(ProviderAdminErrorKind::Invalid))
        }),
{
    match *access {
        QuotaAccess::Unknown => Ok(QuotaState::ObservedUnknown { observed_at_us }),
        QuotaAccess::Allowed => Ok(QuotaState::Allowed { observed_at_us }),
        QuotaAccess::Exhausted { evidence, reset_at_ms } => match timestamp(reset_at_ms) {
            Ok(reset_at_ms) => Ok(
                QuotaState::Exhausted { evidence, observed_at_us, reset_at_ms },
            ),
            Err(error) => Err(error),
        },
    }
}

/// Whether the gateway's own count of use can be held against a window.
#[derive(Clone, Copy, Debug, PartialEq, Eq, Structural)]
pub enum QuotaLocalUsageAttribution {
    AccountWide,
    Unavailable,
}

/// A window of a quota, as it is shown.
pub struct ProviderQuotaWindow {
    pub key: String,
    pub group: String,
    pub label: String,
    pub limit_id: Option<String>,
    pub limit_name: Option<String>,
    pub role: Option<QuotaWindowRole>,
    pub local_usage_attribution: QuotaLocalUsageAttribution,
    pub window_seconds: Option<u64>,
    pub used_percent: Option<u64>,
    pub reset_at_ms: Option<i64>,
    pub limit_reached: bool,
    pub provider_data: Option<Vec<(String, Json)>>,
}

/// A quota, as it is shown.
pub struct ProviderQuota {
    pub plan_type: Option<String>,
    pub observed_at_us: Option<i64>,
    pub refresh_token_expires_at_ms: Option<i64>,
    pub windows: Vec<ProviderQuotaWindow>,
    pub limit_reached: bool,
    pub provider_data: Option<Vec<(String, Json)>>,
}

/// How a window is shown.
pub open spec fn shown_window(window: QuotaWindow) -> ProviderQuotaWindow {
    ProviderQuotaWindow {
        key: window.key,
        group: window.group,
        label: window.label,
        limit_id: window.limit_id,
        limit_name: window.limit_name,
        role: window.role,
        local_usage_attribution: if window.account_wide {
            QuotaLocalUsageAttribution::AccountWide
        } else {
            QuotaLocalUsageAttribution::Unavailable
        },
        window_seconds: window.window_seconds,
        used_percent: window.used_percent,
        reset_at_ms: window.reset_at_ms,
        limit_reached: window.limit_reached,
        provider_data: window.provider_data,
    }
}

/// A limit is reached: the account may not be used, or one of the windows is full.
pub open spec fn is_limit_reached(quota: Quota) -> bool {
    quota.access is Exhausted || exists|i: int|
        0 <= i < quota.windows@.len() && (#[trigger] quota.windows@[i]).limit_reached
}

/// How a quota is shown.
pub open spec fn is_shown(quota: Quota, observed_at_us: i64, shown: ProviderQuota) -> bool {
    &&& shown.plan_type == quota.plan_type
    &&& shown.observed_at_us == Some(observed_at_us)
    &&& shown.refresh_token_expires_at_ms == quota.refresh_token_expires_at_ms
    &&& shown.windows@.len() == quota.windows@.len()
    &&& forall|i: int|
        0 <= i < quota.windows@.len() ==> #[trigger] shown.windows@[i] == shown_window(
            quota.windows@[i],
        )
    &&& shown.limit_reached == is_limit_reached(quota)
    &&& shown.provider_data == quota.provider_data
}

fn present_window(window: QuotaWindow) -> (result: Result<ProviderQuotaWindow, ProviderAdminError>)
    ensures
        match result {
            Ok(shown) => is_optional_moment(window.reset_at_ms) && shown == shown_window(window),
            Err(error) => !is_optional_moment(window.reset_at_ms) && error == admin(
                ProviderAdminErrorKind::Invalid,
            ),
        },
{
    let reset_at_ms = match timestamp(window.reset_at_ms) {
        Ok(reset_at_ms) => reset_at_ms,
        Err(error) => return Err(error),
    };
    Ok(
        ProviderQuotaWindow {
            key: window.key,
            group: window.group,
            label: window.label,
            limit_id: window.limit_id,
            limit_name: window.limit_name,
            role: window.role,
            local_usage_attribution: if window.account_wide {
                QuotaLocalUsageAttribution::AccountWide
            } else {
                QuotaLocalUsageAttribution::Unavailable
            },
            window_seconds: window.window_seconds,
            used_percent: window.used_percent,
            reset_at_ms,
            limit_reached: window.limit_reached,
            provider_data: window.provider_data,
        },
    )
}

/// Every point in time of a quota is one of the calendar.
pub open spec fn has_moments(quota: Quota) -> bool {
    &&& is_optional_moment(quota.refresh_token_expires_at_ms)
    &&& forall|i: int|
        0 <= i < quota.windows@.len() ==> is_optional_moment(
            (#[trigger] quota.windows@[i]).reset_at_ms,
        )
}

pub fn present(quota: Quota, observed_at_us: i64) -> (result: Result<
    ProviderQuota,
    ProviderAdminError,
>)
    ensures
        match result {
            Ok(shown) => has_moments(quota) && is_shown(quota, observed_at_us, shown),
            Err(error) => !has_moments(quota) && error == admin(ProviderAdminErrorKind::Invalid),
        },
{
    let ghost given = quota;
    let mut limit_reached = matches!(quota.access, QuotaAccess::Exhausted { .. });
    for i in 0..quota.windows.len()
        invariant
            given == quota,
            limit_reached == (quota.access is Exhausted || exists|j: int|
                0 <= j < i && (#[trigger] quota.windows@[j]).limit_reached),
    {
        let ghost before = limit_reached;
        if quota.windows[i].limit_reached {
            limit_reached = true;
            assert(quota.windows@[i as int].limit_reached);
        } else {
            proof {
                if before && !(quota.access is Exhausted) {
                    let j = choose|j: int| 0 <= j < i && (#[trigger] quota.windows@[j]).limit_reached;
                    assert(quota.windows@[j].limit_reached);
                }
            }
        }
    }
    let Quota {
        plan_type,
        windows: mut reported,
        access: _,
        refresh_token_expires_at_ms,
        provider_data,
    } = quota;
    let mut windows: Vec<ProviderQuotaWindow> = Vec::new();
    let total = reported.len();
    let mut i: usize = 0;
    while i < total
        invariant
            given == quota,
            i <= total,
            total == given.windows@.len(),
            reported@ == given.windows@.skip(i as int),
            windows@.len() == i,
            forall|j: int|
                0 <= j < i ==> #[trigger] windows@[j] == shown_window(given.windows@[j])
                    && is_optional_moment(given.windows@[j].reset_at_ms),
        decreases total - i,
    {
        let window = reported.remove(0);
        assert(window == given.windows@[i as int]);
        assert(reported@ =~= given.windows@.skip(i + 1));
        match present_window(window) {
            Ok(shown) => windows.push(shown),
            Err(error) => return Err(error),
        }
        i = i + 1;
    }
    proof {
        assert forall|j: int| 0 <= j < given.windows@.len() implies is_optional_moment(
            (#[trigger] given.windows@[j]).reset_at_ms,
        ) by {
            assert(windows@[j] == shown_window(given.windows@[j]));
        }
    }
    let refresh_token_expires_at_ms = match timestamp(refresh_token_expires_at_ms) {
        Ok(ms) => ms,
        Err(error) => return Err(error),
    };
    Ok(
        ProviderQuota {
            plan_type,
            observed_at_us: Some(observed_at_us),
            refresh_token_expires_at_ms,
            windows,
            limit_reached,
            provider_data,
        },
    )
}

/// A quota that can be kept can be shown.
pub proof fn kept_quota_can_be_shown(quota: Quota)
    requires
        is_quota(quota),
    ensures
        has_moments(quota),
{
}

/// What the gateway keeps of a quota that it asked for.
pub struct QuotaObservation {
    pub account_id: String,
    pub expected_revision: u64,
    /// The reported quota, or nothing where what was kept holds none.
    pub quota: Option<Quota>,
    pub observed_at_us: i64,
    pub state: QuotaState,
}

/// The quota of an account may be asked for.
pub fn allowed(quota_enabled: bool) -> (result: Result<(), ProviderAdminError>)
    ensures
        result == (if quota_enabled {
            Ok::<(), ProviderAdminError>(())
        } else {
            Err(admin(ProviderAdminErrorKind::Unsupported))
        }),
{
    if quota_enabled {
        Ok(())
    } else {
        Err(unsupported())
    }
}

/// Takes the quota that a plugin answered for an account. `unusable` is what a quota that cannot be
/// used is reported as.
pub fn observe(
    unusable: ProviderAdminError,
    account: &ProviderAccount,
    quota: Quota,
    observed_at_us: i64,
) -> (result: Result<QuotaObservation, ProviderAdminError>)
    ensures
        is_noted(unusable, *account, quota, observed_at_us, result),
{
    if validate(&quota).is_err() {
        return Err(unusable);
    }
    let state = match quota_state(&quota.access, observed_at_us) {
        Ok(state) => state,
        Err(_) => return Err(unusable),
    };
    Ok(
        QuotaObservation {
            account_id: account.id.clone(),
            expected_revision: account.revision,
            quota: Some(quota),
            observed_at_us,
            state,
        },
    )
}

/// What was observed is kept: a later observation is not replaced.
pub fn stored(updated: bool) -> (result: Result<(), ProviderAdminError>)
    ensures
        result == (if updated {
            Ok::<(), ProviderAdminError>(())
        } else {
            Err(admin(ProviderAdminErrorKind::Conflict))
        }),
{
    if updated {
        Ok(())
    } else {
        Err(conflict())
    }
}

/// What was kept belongs to an account and its present credential.
pub open spec fn is_of(observation: QuotaObservation, account: ProviderAccount) -> bool {
    observation.account_id@ == account.id@ && observation.expected_revision == account.revision
}

/// The first of several observations that belongs to an account.
pub open spec fn kept_of(observations: Seq<QuotaObservation>, account: ProviderAccount) -> Option<
    QuotaObservation,
>
    decreases observations.len(),
{
    if observations.len() == 0 {
        None
    } else if is_of(observations[0], account) {
        Some(observations[0])
    } else {
        kept_of(observations.skip(1), account)
    }
}

/// Picks the observation that belongs to an account.
pub fn pick(observations: Vec<QuotaObservation>, account: &ProviderAccount) -> (kept: Option<
    QuotaObservation,
>)
    ensures
        kept == kept_of(observations@, *account),
{
    let ghost given = observations@;
    assert(given.skip(0) =~= given);
    let mut rest = observations;
    let total = rest.len();
    let mut i: usize = 0;
    while i < total
        invariant
            given == observations@,
            i <= total,
            total == given.len(),
            rest@ == given.skip(i as int),
            kept_of(given, *account) == kept_of(given.skip(i as int), *account),
        decreases total - i,
    {
        let observation = rest.remove(0);
        assert(observation == given[i as int]);
        assert(given.skip(i as int).skip(1) =~= given.skip(i + 1));
        assert(rest@ =~= given.skip(i + 1));
        if same(observation.account_id.as_str(), account.id.as_str())
            && observation.expected_revision == account.revision {
            return Some(observation);
        }
        i = i + 1;
    }
    None
}

/// What is shown of an account of which nothing was observed.
pub open spec fn is_blank_quota(shown: ProviderQuota) -> bool {
    &&& shown.plan_type is None
    &&& shown.observed_at_us is None
    &&& shown.refresh_token_expires_at_ms is None
    &&& shown.windows@.len() == 0
    &&& !shown.limit_reached
    &&& shown.provider_data is None
}

/// What is shown of what was observed.
pub fn show(observation: Option<QuotaObservation>) -> (result: Result<
    ProviderQuota,
    ProviderAdminError,
>)
    ensures
        is_showing(observation, result),
{
    let observation = match observation {
        Some(observation) => observation,
        None => return Ok(
            ProviderQuota {
                plan_type: None,
                observed_at_us: None,
                refresh_token_expires_at_ms: None,
                windows: Vec::new(),
                limit_reached: false,
                provider_data: None,
            },
        ),
    };
    let quota = match observation.quota {
        Some(quota) => quota,
        None => return Err(invalid()),
    };
    match validate(&quota) {
        Ok(()) => present(quota, observation.observed_at_us),
        Err(error) => Err(error),
    }
}

/// The document that is stored of a quota.
pub open spec fn quota_document(quota: JsonView) -> JsonView {
    JsonView::Object(Map::empty().insert("plugin_quota_v1"@, quota))
}

/// Puts a quota, as it is written down, into the document that is stored of it.
pub fn store_quota(quota: Json) -> (document: Json)
    ensures
        document@ == quota_document(quota@),
{
    let mut members: Vec<(String, Json)> = Vec::new();
    put(&mut members, "plugin_quota_v1", quota);
    Json::Object(members)
}

/// The quota in a document that is stored, where there is one.
pub fn kept_quota(document: &Json) -> (quota: Option<&Json>)
    ensures
        quota is Some == member(document@, "plugin_quota_v1"@) is Some,
        quota matches Some(kept) ==> member(document@, "plugin_quota_v1"@) == Some(kept@),
{
    document.get("plugin_quota_v1")
}

/// What was stored of a quota is read back.
pub proof fn stored_quota_is_kept(quota: JsonView)
    ensures
        member(quota_document(quota), "plugin_quota_v1"@) == Some(quota),
{
}

/// A quota is shown as used up exactly if the account may not be used or a window that is shown is
/// full.
pub proof fn limit_is_shown(quota: Quota, observed_at_us: i64, shown: ProviderQuota)
    requires
        is_shown(quota, observed_at_us, shown),
    ensures
        forall|i: int|
            0 <= i < shown.windows@.len() && (#[trigger] shown.windows@[i]).limit_reached
                ==> shown.limit_reached,
        quota.access is Exhausted ==> shown.limit_reached,
        shown.limit_reached ==> quota.access is Exhausted || exists|i: int|
            0 <= i < shown.windows@.len() && (#[trigger] shown.windows@[i]).limit_reached,
{
    assert forall|i: int|
        0 <= i < shown.windows@.len() && (
        #[trigger] shown.windows@[i]).limit_reached implies shown.limit_reached by {
        assert(shown.windows@[i] == shown_window(quota.windows@[i]));
        assert(quota.windows@[i].limit_reached);
    }
    if shown.limit_reached && !(quota.access is Exhausted) {
        let i = choose|i: int|
            0 <= i < quota.windows@.len() && (#[trigger] quota.windows@[i]).limit_reached;
        assert(shown.windows@[i] == shown_window(quota.windows@[i]));
        assert(shown.windows@[i].limit_reached);
    }
}

/// Every window is shown, in its place and as it was reported; the gateway's own count is held against
/// exactly those that are for the whole account.
pub proof fn windows_are_shown(quota: Quota, observed_at_us: i64, shown: ProviderQuota, i: int)
    requires
        is_shown(quota, observed_at_us, shown),
        0 <= i < quota.windows@.len(),
    ensures
        shown.windows@.len() == quota.windows@.len(),
        shown.windows@[i].key == quota.windows@[i].key,
        shown.windows@[i].group == quota.windows@[i].group,
        shown.windows@[i].label == quota.windows@[i].label,
        shown.windows@[i].limit_id == quota.windows@[i].limit_id,
        shown.windows@[i].limit_name == quota.windows@[i].limit_name,
        shown.windows@[i].role == quota.windows@[i].role,
        shown.windows@[i].window_seconds == quota.windows@[i].window_seconds,
        shown.windows@[i].used_percent == quota.windows@[i].used_percent,
        shown.windows@[i].reset_at_ms == quota.windows@[i].reset_at_ms,
        shown.windows@[i].limit_reached == quota.windows@[i].limit_reached,
        shown.windows@[i].provider_data == quota.windows@[i].provider_data,
        shown.windows@[i].local_usage_attribution is AccountWide <==> quota.windows@[i].account_wide,
{
    assert(shown.windows@[i] == shown_window(quota.windows@[i]));
}

/// What is shown of a quota besides its windows is what was reported and when.
pub proof fn quota_is_shown(quota: Quota, observed_at_us: i64, shown: ProviderQuota)
    requires
        is_shown(quota, observed_at_us, shown),
    ensures
        shown.plan_type == quota.plan_type,
        shown.observed_at_us == Some(observed_at_us),
        shown.refresh_token_expires_at_ms == quota.refresh_token_expires_at_ms,
        shown.provider_data == quota.provider_data,
{
}

/// Of an account of which nothing was observed nothing is shown, and no limit is.
pub proof fn nothing_observed_is_blank(shown: ProviderQuota)
    requires
        is_blank_quota(shown),
    ensures
        shown.windows@.len() == 0,
        !shown.limit_reached,
        shown.observed_at_us is None && shown.plan_type is None && shown.provider_data is None
            && shown.refresh_token_expires_at_ms is None,
{
}

/// An account is kept as used up exactly if it was reported so, with the same evidence and the same
/// end; as usable exactly if it was reported usable; and the moment that is kept is that of the
/// observation.
pub proof fn state_by_access(access: QuotaAccess, observed_at_us: i64)
    ensures
        match kept_state(access, observed_at_us) {
            QuotaState::Exhausted { evidence, observed_at_us: at, reset_at_ms } => at
                == observed_at_us && access is Exhausted && access->evidence == evidence
                && access->reset_at_ms == reset_at_ms,
            QuotaState::Allowed { observed_at_us: at } => at == observed_at_us && access is Allowed,
            QuotaState::ObservedUnknown { observed_at_us: at } => at == observed_at_us && access
                is Unknown,
        },
{
}

/// The observation that is picked for an account is of its name and its present revision, none before
/// it is, and one is picked wherever there is one.
pub proof fn kept_is_the_first(observations: Seq<QuotaObservation>, account: ProviderAccount)
    ensures
        match kept_of(observations, account) {
            Some(kept) => exists|k: int|
                0 <= k < observations.len() && #[trigger] observations[k] == kept
                    && kept.account_id@ == account.id@ && kept.expected_revision == account.revision
                    && (forall|j: int|
                    0 <= j < k ==> (#[trigger] observations[j]).account_id@ != account.id@
                        || observations[j].expected_revision != account.revision),
            None => forall|k: int|
                0 <= k < observations.len() ==> (#[trigger] observations[k]).account_id@
                    != account.id@ || observations[k].expected_revision != account.revision,
        },
    decreases observations.len(),
{
    if observations.len() > 0 {
        if !is_of(observations[0], account) {
            let rest = observations.skip(1);
            kept_is_the_first(rest, account);
            if kept_of(rest, account) is Some {
                let kept = kept_of(rest, account)->0;
                let k = choose|k: int|
                    0 <= k < rest.len() && #[trigger] rest[k] == kept && kept.account_id@
                        == account.id@ && kept.expected_revision == account.revision && (forall|
                        j: int,
                    |
                        0 <= j < k ==> (#[trigger] rest[j]).account_id@ != account.id@
                            || rest[j].expected_revision != account.revision);
                assert(observations[k + 1] == rest[k]);
                assert forall|j: int| 0 <= j < k + 1 implies (#[trigger] observations[j]).account_id@
                    != account.id@ || observations[j].expected_revision != account.revision by {
                    if j > 0 {
                        assert(rest[j - 1] == observations[j]);
                    }
                }
            } else {
                assert forall|k: int| 0 <= k < observations.len() implies (
                #[trigger] observations[k]).account_id@ != account.id@
                    || observations[k].expected_revision != account.revision by {
                    if k > 0 {
                        assert(rest[k - 1] == observations[k]);
                    }
                }
            }
        } else {
            assert(observations[0].account_id@ == account.id@);
        }
    }
}

/// A quota can be kept exactly if it has at most 64 windows, no two of the same key, each of a length
/// that is not nothing, every text is plain and has at most 1024 bytes, every amount is one, and
/// every point in time is one of the calendar.
pub proof fn quota_in_order(quota: Quota)
    ensures
        is_quota(quota) <==> {
            &&& quota.windows@.len() <= 64
            &&& quota.plan_type is Some ==> is_plain_text(quota.plan_type->0@, 1024)
            &&& is_optional_moment(quota.refresh_token_expires_at_ms)
            &&& quota.access is Exhausted ==> is_optional_moment(quota.access->reset_at_ms)
            &&& forall|i: int|
                0 <= i < quota.windows@.len() ==> {
                    let window = #[trigger] quota.windows@[i];
                    &&& is_plain_text(window.key@, 1024)
                    &&& is_plain_text(window.group@, 1024)
                    &&& is_plain_text(window.label@, 1024)
                    &&& window.limit_id is Some ==> is_plain_text(window.limit_id->0@, 1024)
                    &&& window.limit_name is Some ==> is_plain_text(window.limit_name->0@, 1024)
                    &&& window.window_seconds is Some ==> window.window_seconds->0 > 0
                    &&& window.used_percent is Some ==> is_amount(window.used_percent->0)
                    &&& is_optional_moment(window.reset_at_ms)
                }
            &&& forall|i: int, j: int|
                0 <= i < j < quota.windows@.len() ==> (#[trigger] quota.windows@[i]).key@ != (
                #[trigger] quota.windows@[j]).key@
        },
{
    assert forall|i: int| 0 <= i < quota.windows@.len() implies is_quota_window(
        #[trigger] quota.windows@[i],
    ) == {
        let window = quota.windows@[i];
        &&& is_plain_text(window.key@, 1024)
        &&& is_plain_text(window.group@, 1024)
        &&& is_plain_text(window.label@, 1024)
        &&& window.limit_id is Some ==> is_plain_text(window.limit_id->0@, 1024)
        &&& window.limit_name is Some ==> is_plain_text(window.limit_name->0@, 1024)
        &&& window.window_seconds is Some ==> window.window_seconds->0 > 0
        &&& window.used_percent is Some ==> is_amount(window.used_percent->0)
        &&& is_optional_moment(window.reset_at_ms)
    } by {}
}

/// What is kept of a quota that was observed.
pub open spec fn is_noted(
    unusable: ProviderAdminError,
    account: ProviderAccount,
    quota: Quota,
    observed_at_us: i64,
    result: Result<QuotaObservation, ProviderAdminError>,
) -> bool {
    match result {
        Ok(observation) => {
            &&& is_quota(quota)
            &&& observation.account_id@ == account.id@
            &&& observation.expected_revision == account.revision
            &&& observation.quota == Some(quota)
            &&& observation.observed_at_us == observed_at_us
            &&& observation.state == kept_state(quota.access, observed_at_us)
        },
        Err(error) => !is_quota(quota) && error == unusable,
    }
}

/// What is shown of what is kept.
pub open spec fn is_showing(
    observation: Option<QuotaObservation>,
    result: Result<ProviderQuota, ProviderAdminError>,
) -> bool {
    match observation {
        None => result matches Ok(shown) && is_blank_quota(shown),
        Some(observation) => match observation.quota {
            Some(quota) if is_quota(quota) => result matches Ok(shown) && is_shown(
                quota,
                observation.observed_at_us,
                shown,
            ),
            _ => result matches Err(error) && error == admin(ProviderAdminErrorKind::Invalid),
        },
    }
}

/// A quota that was observed is shown again as it was observed: with its windows, its plan and the time
/// of the observation. It is found again for the same version of the account only.
pub proof fn observed_is_shown(
    unusable: ProviderAdminError,
    account: ProviderAccount,
    quota: Quota,
    observed_at_us: i64,
    observation: QuotaObservation,
    result: Result<ProviderQuota, ProviderAdminError>,
    reader: ProviderAccount,
)
    requires
        is_noted(unusable, account, quota, observed_at_us, Ok(observation)),
        is_showing(Some(observation), result),
    ensures
        result matches Ok(shown) && shown.windows@.len() == quota.windows@.len() && shown.plan_type
            == quota.plan_type && shown.observed_at_us == Some(observed_at_us) && (shown.limit_reached
            <==> quota.access is Exhausted || exists|i: int|
            0 <= i < quota.windows@.len() && (#[trigger] quota.windows@[i]).limit_reached),
        kept_of(seq![observation], reader) is Some <==> reader.id@ == account.id@ && reader.revision
            == account.revision,
{
    kept_is_the_first(seq![observation], reader);
    assert(seq![observation][0] == observation);
}

} // verus!
