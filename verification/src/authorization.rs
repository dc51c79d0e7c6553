//! Logins. A login only prepares what is known of a credential; what it needs to remember meanwhile
//! is kept by the host, bound to who started it and to the plugin that it was started with.

use vstd::prelude::*;
use vstd::string::*;

pub mod poll;
pub mod start;

use crate::account::CredentialFacts;
use crate::address::{is_web_address, web_address};
use crate::credential_form::{is_input, validate_credential_input, CredentialInputs};
use crate::credentials::ensure_operation;
use crate::fault::{
    admin, conflict, invalid, not_found, unavailable, AdminError, AdminErrorKind, AdminReason,
    ProviderAdminError, ProviderAdminErrorKind, UpstreamSendState,
};
use crate::identifier::{is_uuid, new_uuid};
use crate::json::{
    copy_members, fits, members_view, put, within, Json, JsonNumber, JsonView, NumberView,
};
use crate::management::{ensure_provider, unusable, unusable_answer, ProviderOperation};
use crate::manifest::CredentialOperation;
use crate::moment::{is_moment, is_timestamp};
use crate::provider_ports::{
    is_pending_time, NewOAuthPendingFlow, OAuthPendingBinding, MAX_PENDING_NANOS,
};
use crate::record::{
    field_names, holds_only, integer_field, integer_part, object_field, object_part, only_fields,
    text_field, text_part, unsigned_field, unsigned_part,
};
use crate::text::{byte_len, length_in_bytes, same};

verus! {

/// How long a login is held while it is asked after, in milliseconds.
pub const CLAIM_TTL_MS: u64 = 120_000;

/// The most bytes of what a plugin wants remembered of a login.
pub const MAX_STATE_BYTES: usize = 65536;

/// The most bytes of an address that people are sent to.
pub const MAX_URL_BYTES: usize = 8192;

/// The most bytes of an address that people came back to.
pub const MAX_CALLBACK_BYTES: usize = 65536;

/// The longest time that a plugin may ask to wait, in milliseconds.
pub const MAX_RETRY_MS: u64 = 300_000;

/// The form in which a login is remembered.
pub const STORED_VERSION: u32 = 1;

/// Who started a login.
pub enum AuthorizationOwner {
    AdminSession { admin_user_id: String },
    AdminApiKey,
    System,
}

/// The text by which it is known who started a login.
pub open spec fn owner_text(owner: AuthorizationOwner) -> Seq<char> {
    match owner {
        AuthorizationOwner::AdminSession { admin_user_id } => "admin_session:"@ + admin_user_id@,
        AuthorizationOwner::AdminApiKey => "admin_api_key"@,
        AuthorizationOwner::System => "system"@,
    }
}

fn binding(value: &str) -> (result: Result<OAuthPendingBinding, ProviderAdminError>)
    ensures
        match result {
            Ok(binding) => value@.len() > 0 && binding@ == value@,
            Err(error) => value@.len() == 0 && error == admin(ProviderAdminErrorKind::Invalid),
        },
{
    match OAuthPendingBinding::try_new(value) {
        Ok(binding) => Ok(binding),
        Err(_) => Err(invalid()),
    }
}

pub fn owner_binding(owner: &AuthorizationOwner) -> (result: Result<
    OAuthPendingBinding,
    ProviderAdminError,
>)
    ensures
        result matches Ok(binding) && binding@ == owner_text(*owner),
{
    proof {
        reveal_strlit("admin_session:");
        reveal_strlit("admin_api_key");
        reveal_strlit("system");
    }
    match owner {
        AuthorizationOwner::AdminSession { admin_user_id } => {
            let mut text = "admin_session:".to_owned();
            text.append(admin_user_id.as_str());
            binding(text.as_str())
        },
        AuthorizationOwner::AdminApiKey => binding("admin_api_key"),
        AuthorizationOwner::System => binding("system"),
    }
}

/// The sessions of different people are told apart.
pub proof fn owners_are_told_apart(a: Seq<char>, b: Seq<char>)
    requires
        a != b,
    ensures
        "admin_session:"@ + a != "admin_session:"@ + b,
{
    let prefix = "admin_session:"@;
    if prefix + a == prefix + b {
        assert(a =~= (prefix + a).skip(prefix.len() as int));
        assert(b =~= (prefix + b).skip(prefix.len() as int));
    }
}

/// What a login is for.
pub enum AuthorizationMutationTarget {
    Create { name: String },
    Reauthorize { account_id: String },
}

/// A login may be made with a provider.
pub open spec fn login_fault(
    operations: Seq<CredentialOperation>,
    provider: Seq<char>,
    kind: Seq<char>,
) -> Option<ProviderAdminErrorKind> {
    if !operations.contains(CredentialOperation::Login) {
        Some(ProviderAdminErrorKind::Unsupported)
    } else if provider != kind {
        Some(ProviderAdminErrorKind::Invalid)
    } else {
        None
    }
}

pub fn authorize_login(
    operations: &Vec<CredentialOperation>,
    provider: &str,
    kind: &str,
) -> (result: Result<(), ProviderAdminError>)
    ensures
        result == match login_fault(operations@, provider@, kind@) {
            Some(fault) => Err::<(), ProviderAdminError>(admin(fault)),
            None => Ok(()),
        },
{
    match ensure_operation(operations, CredentialOperation::Login) {
        Ok(()) => ensure_provider(provider, kind),
        Err(error) => Err(error),
    }
}

/// What a plugin is given to start a login.
pub struct LoginStart {
    pub name: Option<String>,
    pub account_id: Option<String>,
    pub input: Vec<(String, Json)>,
}

/// What a plugin is given to start a login.
pub open spec fn start_of(
    target: AuthorizationMutationTarget,
    input: Vec<(String, Json)>,
) -> LoginStart {
    match target {
        AuthorizationMutationTarget::Create { name } => LoginStart {
            name: Some(name),
            account_id: None,
            input,
        },
        AuthorizationMutationTarget::Reauthorize { account_id } => LoginStart {
            name: None,
            account_id: Some(account_id),
            input,
        },
    }
}

/// What is wrong with a login that is to be started.
pub open spec fn start_fault(
    operations: Seq<CredentialOperation>,
    inputs: CredentialInputs,
    provider: Seq<char>,
    kind: Seq<char>,
    input: Vec<(String, Json)>,
) -> Option<ProviderAdminErrorKind> {
    if login_fault(operations, provider, kind) is Some {
        login_fault(operations, provider, kind)
    } else {
        match inputs.form(CredentialOperation::Login) {
            None => Some(ProviderAdminErrorKind::Unsupported),
            Some(form) => if is_input(
                form,
                CredentialOperation::Login,
                JsonView::Object(members_view(input@)),
            ) {
                None
            } else {
                Some(ProviderAdminErrorKind::Invalid)
            },
        }
    }
}

/// A login may be started: what the plugin is given.
pub fn begin_login(
    operations: &Vec<CredentialOperation>,
    inputs: &CredentialInputs,
    provider: &str,
    kind: &str,
    target: &AuthorizationMutationTarget,
    input: Vec<(String, Json)>,
) -> (result: Result<LoginStart, ProviderAdminError>)
    ensures
        match start_fault(operations@, *inputs, provider@, kind@, input) {
            Some(fault) => result matches Err(error) && error == admin(fault),
            None => result matches Ok(start) && start == start_of(*target, input),
        },
{
    match authorize_login(operations, provider, kind) {
        Ok(()) => {},
        Err(error) => return Err(error),
    }
    match validate_credential_input(inputs, CredentialOperation::Login, &input) {
        Ok(()) => {},
        Err(error) => return Err(error),
    }
    Ok(
        match target {
            AuthorizationMutationTarget::Create { name } => LoginStart {
                name: Some(name.clone()),
                account_id: None,
                input,
            },
            AuthorizationMutationTarget::Reauthorize { account_id } => LoginStart {
                name: None,
                account_id: Some(account_id.clone()),
                input,
            },
        },
    )
}

/// What a plugin answered to the start of a login.
pub struct LoginStarted {
    pub authorization_url: String,
    pub expires_at_ms: i64,
    pub state: Vec<(String, Json)>,
}

/// How long a login is pending, in nanoseconds.
pub open spec fn pending_nanos(expires_at_ms: i64, now_nanos: int) -> int {
    expires_at_ms * 1_000_000 - now_nanos
}

/// A login that people can be sent to: it ends within half an hour, its address is one on the web
/// without a login in it, and what is to be remembered is not too large.
pub open spec fn is_started(started: LoginStarted, now_nanos: int) -> bool {
    &&& is_moment(started.expires_at_ms)
    &&& 0 < pending_nanos(started.expires_at_ms, now_nanos) <= MAX_PENDING_NANOS
    &&& byte_len(started.authorization_url@) <= MAX_URL_BYTES
    &&& is_web_address(started.authorization_url@)
    &&& fits(JsonView::Object(members_view(started.state@)), MAX_STATE_BYTES as nat)
}

/// Takes what a plugin answered to the start of a login: how long it is pending, in nanoseconds. `state`
/// is how far the requests of the call went.
pub fn login_started(
    state: UpstreamSendState,
    started: &LoginStarted,
    now_nanos: i128,
) -> (result: Result<u128, ProviderAdminError>)
    ensures
        match result {
            Ok(ttl) => is_started(*started, now_nanos as int) && ttl == pending_nanos(
                started.expires_at_ms,
                now_nanos as int,
            ) && is_pending_time(ttl),
            Err(error) => !is_started(*started, now_nanos as int) && error == unusable(
                ProviderOperation::Login,
                state,
            ),
        },
{
    if !is_timestamp(started.expires_at_ms) {
        return Err(unusable_answer(ProviderOperation::Login, state));
    }
    let expires: i128 = started.expires_at_ms as i128 * 1_000_000;
    let ttl: i128 = match expires.checked_sub(now_nanos) {
        Some(ttl) => ttl,
        None => return Err(unusable_answer(ProviderOperation::Login, state)),
    };
    if ttl <= 0 || ttl > MAX_PENDING_NANOS as i128 || length_in_bytes(
        started.authorization_url.as_str(),
    ) > MAX_URL_BYTES || !web_address(started.authorization_url.as_str()) || !within(
        &Json::Object(copy_members(&started.state)),
        MAX_STATE_BYTES,
    ) {
        return Err(unusable_answer(ProviderOperation::Login, state));
    }
    Ok(ttl as u128)
}

/// A login, as it is remembered.
pub struct StoredLoginView {
    pub version: u32,
    pub binding: Seq<char>,
    pub expires_at_ms: i64,
    pub mutation: Map<Seq<char>, JsonView>,
    pub state: Map<Seq<char>, JsonView>,
}

/// A login, as it is remembered.
pub struct StoredLogin {
    pub version: u32,
    pub binding: String,
    pub expires_at_ms: i64,
    pub mutation: Vec<(String, Json)>,
    pub state: Vec<(String, Json)>,
}

impl View for StoredLogin {
    type V = StoredLoginView;

    open spec fn view(&self) -> StoredLoginView {
        StoredLoginView {
            version: self.version,
            binding: self.binding@,
            expires_at_ms: self.expires_at_ms,
            mutation: members_view(self.mutation@),
            state: members_view(self.state@),
        }
    }
}

/// The fields of a login that is remembered.
pub open spec fn stored_fields() -> Seq<Seq<char>> {
    seq!["version"@, "binding"@, "expires_at_ms"@, "mutation"@, "state"@]
}

/// What is said of an integer.
pub open spec fn integer_view(n: i64) -> NumberView {
    if n < 0 {
        NumberView::Negative(n)
    } else {
        NumberView::Unsigned(n as u64)
    }
}

/// The members of the document in which a login is remembered.
pub open spec fn stored_members(stored: StoredLoginView) -> Map<Seq<char>, JsonView> {
    Map::empty().insert(
        "version"@,
        JsonView::Number(NumberView::Unsigned(stored.version as u64)),
    ).insert("binding"@, JsonView::Text(stored.binding)).insert(
        "expires_at_ms"@,
        JsonView::Number(integer_view(stored.expires_at_ms)),
    ).insert("mutation"@, JsonView::Object(stored.mutation)).insert(
        "state"@,
        JsonView::Object(stored.state),
    )
}

/// The login that a document remembers.
pub open spec fn read_stored(document: JsonView) -> Option<StoredLoginView> {
    match (
        unsigned_part(document, "version"@, 0),
        text_part(document, "binding"@, 1),
        integer_part(document, "expires_at_ms"@, 2),
        object_part(document, "mutation"@, 3),
        object_part(document, "state"@, 4),
    ) {
        (Some(version), Some(binding), Some(expires_at_ms), Some(mutation), Some(state)) => if holds_only(
            document,
            stored_fields(),
        ) && version <= u32::MAX {
            Some(
                StoredLoginView {
                    version: version as u32,
                    binding,
                    expires_at_ms,
                    mutation,
                    state,
                },
            )
        } else {
            None
        },
        _ => None,
    }
}

fn write_stored(stored: StoredLogin) -> (members: Vec<(String, Json)>)
    ensures
        members_view(members@) == stored_members(stored@),
{
    let mut members: Vec<(String, Json)> = Vec::new();
    put(&mut members, "version", Json::unsigned(stored.version as u64));
    put(&mut members, "binding", Json::Text(stored.binding));
    put(
        &mut members,
        "expires_at_ms",
        Json::Number(JsonNumber::integer(stored.expires_at_ms)),
    );
    put(&mut members, "mutation", Json::Object(stored.mutation));
    put(&mut members, "state", Json::Object(stored.state));
    members
}

fn parse_stored(json: &Json) -> (stored: Option<StoredLogin>)
    ensures
        stored is Some == read_stored(json@) is Some,
        stored matches Some(s) ==> read_stored(json@) == Some(s@),
{
    let names: Vec<&'static str> =
        vec!["version", "binding", "expires_at_ms", "mutation", "state"];
    assert(field_names(names@) =~= stored_fields());
    if !only_fields(json, &names) {
        return None;
    }
    let version = unsigned_field(json, "version", 0)?;
    let binding = text_field(json, "binding", 1)?;
    let expires_at_ms = integer_field(json, "expires_at_ms", 2)?;
    let mutation = object_field(json, "mutation", 3)?;
    let state = object_field(json, "state", 4)?;
    if version > u32::MAX as u64 {
        return None;
    }
    Some(
        StoredLogin {
            version: version as u32,
            binding: binding.clone(),
            expires_at_ms,
            mutation: copy_members(mutation),
            state: copy_members(state),
        },
    )
}

/// A login is remembered as it was: the document in which it is kept holds it.
pub proof fn stored_login_round_trip(stored: StoredLoginView)
    ensures
        read_stored(JsonView::Object(stored_members(stored))) == Some(stored),
{
    reveal_strlit("version");
    reveal_strlit("binding");
    reveal_strlit("expires_at_ms");
    reveal_strlit("mutation");
    reveal_strlit("state");
    assert("version"@[0] != "binding"@[0]);
    assert("version"@.len() == 7);
    assert("binding"@.len() == 7);
    assert("expires_at_ms"@.len() == 13);
    assert("mutation"@.len() == 8);
    assert("state"@.len() == 5);
    let fields = stored_fields();
    assert(fields[0] == "version"@ && fields[1] == "binding"@ && fields[2] == "expires_at_ms"@
        && fields[3] == "mutation"@ && fields[4] == "state"@);
}

/// Where people are sent to log in.
pub struct AuthorizationStarted {
    pub flow_id: String,
    pub authorization_url: String,
    pub expires_at_ms: i64,
}

/// A login that is kept under a name.
pub open spec fn is_kept(
    flow: NewOAuthPendingFlow,
    flow_id: Seq<char>,
    kind: Seq<char>,
    owner: AuthorizationOwner,
    ttl: u128,
    stored: StoredLoginView,
) -> bool {
    &&& flow.provider@ == kind
    &&& flow.flow@ == flow_id
    &&& flow.owner@ == owner_text(owner)
    &&& flow.ttl_nanos == ttl
    &&& members_view(flow.payload@) == stored_members(stored)
}

/// What is kept of a login that was started under a given name.
pub fn keep_login(
    flow_id: &str,
    kind: &str,
    authorization_binding: &str,
    owner: &AuthorizationOwner,
    ttl_nanos: u128,
    mutation: Vec<(String, Json)>,
    started: LoginStarted,
) -> (result: Result<NewOAuthPendingFlow, ProviderAdminError>)
    ensures
        ({
            let stored = StoredLoginView {
                version: STORED_VERSION,
                binding: authorization_binding@,
                expires_at_ms: started.expires_at_ms,
                mutation: members_view(mutation@),
                state: members_view(started.state@),
            };
            if flow_id@.len() > 0 && is_pending_time(ttl_nanos) {
                result matches Ok(flow) && is_kept(
                    flow,
                    flow_id@,
                    kind@,
                    *owner,
                    ttl_nanos,
                    stored,
                )
            } else {
                result matches Err(error) && error == admin(ProviderAdminErrorKind::Invalid)
            }
        }),
{
    let owner = match owner_binding(owner) {
        Ok(owner) => owner,
        Err(error) => return Err(error),
    };
    let payload = write_stored(
        StoredLogin {
            version: STORED_VERSION,
            binding: authorization_binding.to_owned(),
            expires_at_ms: started.expires_at_ms,
            mutation,
            state: started.state,
        },
    );
    let flow = match binding(flow_id) {
        Ok(flow) => flow,
        Err(error) => return Err(error),
    };
    match NewOAuthPendingFlow::try_new(kind.to_owned(), flow, owner, ttl_nanos, payload) {
        Ok(flow) => Ok(flow),
        Err(_) => Err(invalid()),
    }
}

/// What is kept of a login that was started, under a new name, and where people are sent.
pub fn keep_new_login(
    kind: &str,
    authorization_binding: &str,
    owner: &AuthorizationOwner,
    ttl_nanos: u128,
    mutation: Vec<(String, Json)>,
    started: LoginStarted,
) -> (result: Result<(NewOAuthPendingFlow, AuthorizationStarted), ProviderAdminError>)
    ensures
        match result {
            Ok((flow, shown)) => {
                &&& is_pending_time(ttl_nanos)
                &&& is_uuid(shown.flow_id@)
                &&& shown.authorization_url@ == started.authorization_url@
                &&& shown.expires_at_ms == started.expires_at_ms
                &&& is_kept(
                    flow,
                    shown.flow_id@,
                    kind@,
                    *owner,
                    ttl_nanos,
                    StoredLoginView {
                        version: STORED_VERSION,
                        binding: authorization_binding@,
                        expires_at_ms: started.expires_at_ms,
                        mutation: members_view(mutation@),
                        state: members_view(started.state@),
                    },
                )
            },
            Err(error) => !is_pending_time(ttl_nanos) && error == admin(
                ProviderAdminErrorKind::Invalid,
            ),
        },
{
    let flow_id = new_uuid();
    let authorization_url = started.authorization_url.clone();
    let expires_at_ms = started.expires_at_ms;
    match keep_login(
        flow_id.as_str(),
        kind,
        authorization_binding,
        owner,
        ttl_nanos,
        mutation,
        started,
    ) {
        Ok(flow) => Ok((flow, AuthorizationStarted { flow_id, authorization_url, expires_at_ms })),
        Err(error) => Err(error),
    }
}

/// What came of keeping a login.
#[derive(Clone, Copy, Debug, PartialEq, Eq, Structural)]
pub enum PutReply {
    Stored,
    /// Something else is kept under the name.
    Exists,
    Failed,
}

/// People are sent to log in only where the login is kept.
pub fn login_kept(reply: PutReply) -> (result: Result<(), ProviderAdminError>)
    ensures
        result == (if reply == PutReply::Stored {
            Ok::<(), ProviderAdminError>(())
        } else {
            Err(admin(ProviderAdminErrorKind::Unavailable))
        }),
{
    match reply {
        PutReply::Stored => Ok(()),
        _ => Err(unavailable()),
    }
}

/// A login may be asked after.
pub fn begin_poll(
    operations: &Vec<CredentialOperation>,
    callback_url: &Option<String>,
) -> (result: Result<(), ProviderAdminError>)
    ensures
        result == (if !operations@.contains(CredentialOperation::Login) {
            Err::<(), ProviderAdminError>(admin(ProviderAdminErrorKind::Unsupported))
        } else if *callback_url matches Some(url) && byte_len(url@) > MAX_CALLBACK_BYTES {
            Err(admin(ProviderAdminErrorKind::Invalid))
        } else {
            Ok(())
        }),
{
    match ensure_operation(operations, CredentialOperation::Login) {
        Ok(()) => {},
        Err(error) => return Err(error),
    }
    match callback_url {
        Some(url) => if length_in_bytes(url.as_str()) > MAX_CALLBACK_BYTES {
            return Err(invalid());
        },
        None => {},
    }
    Ok(())
}

/// A login that is held while it is asked after: which, for whom, and by which token.
pub struct Claim {
    pub flow: OAuthPendingBinding,
    pub owner: OAuthPendingBinding,
    pub token: OAuthPendingBinding,
}

/// A login to hold, by a new token.
pub fn new_claim(flow_id: &str, owner: &AuthorizationOwner) -> (result: Result<
    Claim,
    ProviderAdminError,
>)
    ensures
        match result {
            Ok(claim) => flow_id@.len() > 0 && claim.flow@ == flow_id@ && claim.owner@ == owner_text(
                *owner,
            ) && is_uuid(claim.token@),
            Err(error) => flow_id@.len() == 0 && error == admin(ProviderAdminErrorKind::Invalid),
        },
{
    let flow = match binding(flow_id) {
        Ok(flow) => flow,
        Err(error) => return Err(error),
    };
    let owner = match owner_binding(owner) {
        Ok(owner) => owner,
        Err(error) => return Err(error),
    };
    match binding(new_uuid().as_str()) {
        Ok(token) => Ok(Claim { flow, owner, token }),
        Err(error) => Err(error),
    }
}

/// What came of holding a login.
pub enum ClaimReply {
    Claimed(Vec<(String, Json)>),
    NotFound,
    OwnerMismatch,
    InProgress,
    Failed,
}

/// The login that is held.
pub fn claimed(reply: ClaimReply) -> (result: Result<Vec<(String, Json)>, ProviderAdminError>)
    ensures
        match reply {
            ClaimReply::Claimed(payload) => result matches Ok(found) && found == payload,
            ClaimReply::NotFound => result matches Err(error) && error == admin(
                ProviderAdminErrorKind::NotFound,
            ),
            ClaimReply::OwnerMismatch => result matches Err(error) && error == admin(
                ProviderAdminErrorKind::Invalid,
            ),
            ClaimReply::InProgress => result matches Err(error) && error == admin(
                ProviderAdminErrorKind::Conflict,
            ),
            ClaimReply::Failed => result matches Err(error) && error == admin(
                ProviderAdminErrorKind::Unavailable,
            ),
        },
{
    match reply {
        ClaimReply::Claimed(payload) => Ok(payload),
        ClaimReply::NotFound => Err(not_found()),
        ClaimReply::OwnerMismatch => Err(invalid()),
        ClaimReply::InProgress => Err(conflict()),
        ClaimReply::Failed => Err(unavailable()),
    }
}

/// A login that can go on: it is remembered in a known form, was started with this plugin as it is
/// now, and has not ended.
pub open spec fn is_open(stored: StoredLoginView, binding: Seq<char>, now_ms: i64) -> bool {
    &&& stored.version == STORED_VERSION
    &&& stored.binding == binding
    &&& stored.expires_at_ms > now_ms
}

/// The login that was held, if it can go on.
pub fn open_login(payload: Vec<(String, Json)>, binding: &str, now_ms: i64) -> (result: Result<
    StoredLogin,
    ProviderAdminError,
>)
    ensures
        match read_stored(JsonView::Object(members_view(payload@))) {
            Some(stored) if is_open(stored, binding@, now_ms) => result matches Ok(found) && found@
                == stored,
            _ => result matches Err(error) && error == admin(ProviderAdminErrorKind::Invalid),
        },
{
    match parse_stored(&Json::Object(payload)) {
        Some(stored) => if stored.version != STORED_VERSION || !same(
            stored.binding.as_str(),
            binding,
        ) || stored.expires_at_ms <= now_ms {
            Err(invalid())
        } else {
            Ok(stored)
        },
        None => Err(invalid()),
    }
}

/// A login that was kept can be gone on with by the plugin that it was started with, until it ends.
pub proof fn kept_login_is_open(
    flow: NewOAuthPendingFlow,
    flow_id: Seq<char>,
    kind: Seq<char>,
    owner: AuthorizationOwner,
    ttl: u128,
    stored: StoredLoginView,
    now_ms: i64,
)
    requires
        is_kept(flow, flow_id, kind, owner, ttl, stored),
        stored.version == STORED_VERSION,
    ensures
        read_stored(JsonView::Object(members_view(flow.payload@))) == Some(stored),
        is_open(stored, stored.binding, now_ms) <==> now_ms < stored.expires_at_ms,
{
    stored_login_round_trip(stored);
}

/// What is known of the request that a login belongs to, as it was read from what is remembered.
pub struct PendingMutation {
    pub provider: String,
    /// It was started by whoever asks after it.
    pub owner_matches: bool,
}

/// The request that a login belongs to may go on.
pub fn check_pending(
    pending: Option<&PendingMutation>,
    operations: &Vec<CredentialOperation>,
    kind: &str,
) -> (result: Result<(), ProviderAdminError>)
    ensures
        result == match pending {
            Some(pending) if pending.owner_matches => match login_fault(
                operations@,
                pending.provider@,
                kind@,
            ) {
                Some(fault) => Err::<(), ProviderAdminError>(admin(fault)),
                None => Ok(()),
            },
            _ => Err(admin(ProviderAdminErrorKind::Invalid)),
        },
{
    match pending {
        Some(pending) => if pending.owner_matches {
            authorize_login(operations, pending.provider.as_str(), kind)
        } else {
            Err(invalid())
        },
        None => Err(invalid()),
    }
}

/// What a plugin answered when it was asked after a login.
pub enum LoginPollResult {
    Pending { retry_after_ms: u64 },
    Complete { accounts: Vec<CredentialFacts> },
}

/// What is done with the answer.
pub enum PollStep {
    /// People have to wait.
    Pending { retry_after_ms: u64 },
    /// Accounts are created.
    Create(Vec<CredentialFacts>),
    /// The credential of an account is replaced.
    Replace(CredentialFacts),
}

/// An answer that can be used: it came in time, asks for a bearable delay, and brings one account
/// where one is logged in again.
pub open spec fn is_poll_answer(
    reply: LoginPollResult,
    expires_at_ms: i64,
    now_ms: i64,
    reauthorizes: bool,
) -> bool {
    &&& expires_at_ms > now_ms
    &&& match reply {
        LoginPollResult::Pending { retry_after_ms } => 0 < retry_after_ms <= MAX_RETRY_MS,
        LoginPollResult::Complete { accounts } => reauthorizes ==> accounts@.len() == 1,
    }
}

/// Takes what a plugin answered when it was asked after a login. `state` is how far the requests of the
/// call went.
pub fn poll_answered(
    state: UpstreamSendState,
    reply: LoginPollResult,
    expires_at_ms: i64,
    now_ms: i64,
    reauthorizes: bool,
) -> (result: Result<PollStep, ProviderAdminError>)
    ensures
        if is_poll_answer(reply, expires_at_ms, now_ms, reauthorizes) {
            match reply {
                LoginPollResult::Pending { retry_after_ms } => result matches Ok(
                    PollStep::Pending { retry_after_ms: delay },
                ) && delay == retry_after_ms,
                LoginPollResult::Complete { accounts } => if reauthorizes {
                    result matches Ok(PollStep::Replace(facts)) && facts == accounts@[0]
                } else {
                    result matches Ok(PollStep::Create(found)) && found == accounts
                },
            }
        } else {
            result matches Err(error) && error == unusable(
                ProviderOperation::Login,
                state,
            )
        },
{
    if expires_at_ms <= now_ms {
        return Err(unusable_answer(ProviderOperation::Login, state));
    }
    match reply {
        LoginPollResult::Pending { retry_after_ms } => {
            if retry_after_ms == 0 || retry_after_ms > MAX_RETRY_MS {
                return Err(unusable_answer(ProviderOperation::Login, state));
            }
            Ok(PollStep::Pending { retry_after_ms })
        },
        LoginPollResult::Complete { accounts } => {
            if !reauthorizes {
                return Ok(PollStep::Create(accounts));
            }
            if accounts.len() != 1 {
                return Err(unusable_answer(ProviderOperation::Login, state));
            }
            let mut accounts = accounts;
            Ok(PollStep::Replace(accounts.remove(0)))
        },
    }
}

/// What came of letting a login go.
#[derive(Clone, Copy, Debug, PartialEq, Eq, Structural)]
pub enum ReleaseReply {
    Released,
    NotFound,
    /// It is held by somebody else, or could not be let go.
    Failed,
}

/// What came of using a login up.
#[derive(Clone, Copy, Debug, PartialEq, Eq, Structural)]
pub enum ConsumeReply {
    Consumed,
    /// It was not there, is held by somebody else, or could not be used up.
    Failed,
}

/// A login that is held until its result is saved. It is used up or let go once.
pub struct LoginGuard {
    pub held: bool,
}

impl LoginGuard {
    /// Takes the login out, to use it up or let it go.
    pub fn take(&mut self) -> (result: Result<(), AdminError>)
        ensures
            !final(self).held,
            result == (if old(self).held {
                Ok::<(), AdminError>(())
            } else {
                Err(
                    AdminError {
                        kind: AdminErrorKind::Internal,
                        reason: AdminReason::LoginMissing,
                    },
                )
            }),
    {
        if !self.held {
            return Err(AdminError::internal(AdminReason::LoginMissing));
        }
        self.held = false;
        Ok(())
    }
}

pub fn released(reply: ReleaseReply) -> (result: Result<(), AdminError>)
    ensures
        result == (if reply == ReleaseReply::Failed {
            Err::<(), AdminError>(
                AdminError { kind: AdminErrorKind::Unavailable, reason: AdminReason::LoginRelease },
            )
        } else {
            Ok(())
        }),
{
    match reply {
        ReleaseReply::Released | ReleaseReply::NotFound => Ok(()),
        ReleaseReply::Failed => Err(AdminError::unavailable(AdminReason::LoginRelease)),
    }
}

pub fn consumed(reply: ConsumeReply) -> (result: Result<(), AdminError>)
    ensures
        result == (if reply == ConsumeReply::Consumed {
            Ok::<(), AdminError>(())
        } else {
            Err(
                AdminError {
                    kind: AdminErrorKind::Unavailable,
                    reason: AdminReason::LoginSettlement,
                },
            )
        }),
{
    match reply {
        ConsumeReply::Consumed => Ok(()),
        ConsumeReply::Failed => Err(AdminError::unavailable(AdminReason::LoginSettlement)),
    }
}

/// Who started a login is told apart by kind: a session of a person, a key and the system itself are
/// never taken for one another.
pub proof fn owners_by_kind(person: String)
    ensures
        owner_text(AuthorizationOwner::AdminApiKey) == "admin_api_key"@,
        owner_text(AuthorizationOwner::System) == "system"@,
        owner_text(AuthorizationOwner::AdminSession { admin_user_id: person }) == "admin_session:"@
            + person@,
        owner_text(AuthorizationOwner::AdminApiKey) != owner_text(AuthorizationOwner::System),
        owner_text(AuthorizationOwner::AdminSession { admin_user_id: person }) != owner_text(
            AuthorizationOwner::AdminApiKey,
        ),
        owner_text(AuthorizationOwner::AdminSession { admin_user_id: person }) != owner_text(
            AuthorizationOwner::System,
        ),
{
    reveal_strlit("admin_session:");
    reveal_strlit("admin_api_key");
    reveal_strlit("system");
    let session = owner_text(AuthorizationOwner::AdminSession { admin_user_id: person });
    assert(session[6] == 's');
    assert(session[0] == 'a');
    assert("admin_api_key"@[6] == 'a');
    assert("admin_api_key"@[0] == 'a');
    assert("system"@[0] == 's');
}

/// A login may be made exactly with a provider that takes logins and is the one that is asked.
pub proof fn logins_in_order(
    operations: Seq<CredentialOperation>,
    provider: Seq<char>,
    kind: Seq<char>,
)
    ensures
        login_fault(operations, provider, kind) is None <==> operations.contains(
            CredentialOperation::Login,
        ) && provider == kind,
        !operations.contains(CredentialOperation::Login) ==> login_fault(operations, provider, kind)
            == Some(ProviderAdminErrorKind::Unsupported),
        operations.contains(CredentialOperation::Login) && provider != kind ==> login_fault(
            operations,
            provider,
            kind,
        ) == Some(ProviderAdminErrorKind::Invalid),
{
}

/// A plugin is given the name of the account that is to be made, or the account that is logged in
/// again, and what was put into the form.
pub proof fn started_with_its_target(
    target: AuthorizationMutationTarget,
    input: Vec<(String, Json)>,
)
    ensures
        start_of(target, input).input == input,
        target matches AuthorizationMutationTarget::Create { name } ==> start_of(
            target,
            input,
        ).name == Some(name) && start_of(target, input).account_id is None,
        target matches AuthorizationMutationTarget::Reauthorize { account_id } ==> start_of(
            target,
            input,
        ).account_id == Some(account_id) && start_of(target, input).name is None,
{
}

/// A login is started exactly if it may be made, there is a form for it, and the form accepts what was
/// put into it.
pub proof fn starts_in_order(
    operations: Seq<CredentialOperation>,
    inputs: CredentialInputs,
    provider: Seq<char>,
    kind: Seq<char>,
    input: Vec<(String, Json)>,
)
    ensures
        start_fault(operations, inputs, provider, kind, input) is None <==> {
            &&& operations.contains(CredentialOperation::Login)
            &&& provider == kind
            &&& inputs.form(CredentialOperation::Login) is Some
            &&& is_input(
                inputs.form(CredentialOperation::Login)->0,
                CredentialOperation::Login,
                JsonView::Object(members_view(input@)),
            )
        },
{
}

/// People are sent to log in exactly if the login ends after now and within half an hour, at a web
/// address of at most 8192 bytes, and at most 65536 bytes are to be remembered.
pub proof fn started_logins(started: LoginStarted, now_nanos: int)
    ensures
        is_started(started, now_nanos) <==> {
            &&& is_moment(started.expires_at_ms)
            &&& now_nanos < started.expires_at_ms * 1_000_000
            &&& started.expires_at_ms * 1_000_000 <= now_nanos + 30 * 60 * 1_000_000_000
            &&& byte_len(started.authorization_url@) <= 8192
            &&& is_web_address(started.authorization_url@)
            &&& fits(JsonView::Object(members_view(started.state@)), 65536)
        },
        is_started(started, now_nanos) ==> now_nanos + pending_nanos(
            started.expires_at_ms,
            now_nanos,
        ) == started.expires_at_ms * 1_000_000,
{
}

/// The document in which a login is remembered says its form, what it is bound to, when it ends, the
/// request that it belongs to, and what the plugin wants remembered.
pub proof fn stored_login_says(stored: StoredLoginView)
    ensures
        ({
            let kept = stored_members(stored);
            &&& kept.dom() == set![
            "version"@,
            "binding"@,
            "expires_at_ms"@,
            "mutation"@,
            "state"@,
        ]
            &&& kept["version"@] == JsonView::Number(NumberView::Unsigned(stored.version as u64))
            &&& kept["binding"@] == JsonView::Text(stored.binding)
            &&& stored.expires_at_ms >= 0 ==> kept["expires_at_ms"@] == JsonView::Number(
                NumberView::Unsigned(stored.expires_at_ms as u64),
            )
            &&& stored.expires_at_ms < 0 ==> kept["expires_at_ms"@] == JsonView::Number(
                NumberView::Negative(stored.expires_at_ms),
            )
            &&& kept["mutation"@] == JsonView::Object(stored.mutation)
            &&& kept["state"@] == JsonView::Object(stored.state)
        }),
{
    reveal_strlit("version");
    reveal_strlit("binding");
    reveal_strlit("expires_at_ms");
    reveal_strlit("mutation");
    reveal_strlit("state");
    assert("version"@.len() == 7);
    assert("binding"@.len() == 7);
    assert("expires_at_ms"@.len() == 13);
    assert("mutation"@.len() == 8);
    assert("state"@.len() == 5);
    assert("version"@[0] != "binding"@[0]);
    assert(stored_members(stored).dom() =~= set![
            "version"@,
            "binding"@,
            "expires_at_ms"@,
            "mutation"@,
            "state"@,
        ]);
}

/// A login is kept under its name for the provider, for whoever started it and as long as it is
/// pending, and what is kept of it is what is remembered.
pub proof fn kept_as_started(
    flow: NewOAuthPendingFlow,
    flow_id: Seq<char>,
    kind: Seq<char>,
    owner: AuthorizationOwner,
    ttl: u128,
    stored: StoredLoginView,
)
    requires
        is_kept(flow, flow_id, kind, owner, ttl, stored),
    ensures
        flow.provider@ == kind,
        flow.flow@ == flow_id,
        flow.owner@ == owner_text(owner),
        flow.ttl_nanos == ttl,
        read_stored(JsonView::Object(members_view(flow.payload@))) == Some(stored),
{
    stored_login_round_trip(stored);
}

/// A login goes on exactly if it is remembered in the first form, is bound to the plugin as it is now,
/// and ends after now.
pub proof fn open_logins(stored: StoredLoginView, binding: Seq<char>, now_ms: i64)
    ensures
        is_open(stored, binding, now_ms) <==> stored.version == 1 && stored.binding == binding
            && now_ms < stored.expires_at_ms,
{
}

/// What a plugin answers after a login is used exactly if it came before the login ended, and asks to
/// wait for a millisecond to five minutes, or brings accounts: one of them where one is logged in
/// again.
pub proof fn poll_answers_in_order(
    reply: LoginPollResult,
    expires_at_ms: i64,
    now_ms: i64,
    reauthorizes: bool,
)
    ensures
        is_poll_answer(reply, expires_at_ms, now_ms, reauthorizes) <==> {
            &&& now_ms < expires_at_ms
            &&& reply matches LoginPollResult::Pending { retry_after_ms } ==> 1 <= retry_after_ms
                && retry_after_ms <= 300_000
            &&& reply matches LoginPollResult::Complete { accounts } ==> (reauthorizes
                ==> accounts@.len() == 1)
        },
{
}

} // verus!
