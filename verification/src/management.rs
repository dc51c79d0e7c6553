//! Calls that manage the accounts of a provider: which may be made, and what their failures mean.

use vstd::prelude::*;

use crate::account::{is_same_subject, same_subject, CredentialState, LoadedCredential, ProviderAccount};
use crate::fault::{
    admin, conflict, invalid, not_found, unavailable, AdminErrorKind, ErrorCode, ProviderAdminError,
    ProviderAdminErrorKind, RpcError, UpstreamSendState,
};
use crate::json::{Json, JsonView};
use crate::manifest::Stage;
use crate::scope::{CallContext, NetworkScope};
use crate::text::{same, text_of};

verus! {

/// How long a management call may take, in milliseconds.
pub const MANAGEMENT_TIMEOUT_MS: u64 = 30_000;

/// What a management call does.
#[derive(Clone, Copy, Debug, PartialEq, Eq, Structural)]
pub enum ProviderOperation {
    Import,
    Rotate,
    Refresh,
    Login,
    Quota,
    Models,
    Profile,
    ResetCredits,
    ConsumeResetCredit,
}

/// An operation that changes something upstream.
pub open spec fn is_mutating(operation: ProviderOperation) -> bool {
    operation is Import || operation is Rotate || operation is Refresh || operation is Login
        || operation is ConsumeResetCredit
}

pub fn mutating(operation: ProviderOperation) -> (r: bool)
    ensures
        r == is_mutating(operation),
{
    matches!(
        operation,
        ProviderOperation::Import | ProviderOperation::Rotate | ProviderOperation::Refresh
            | ProviderOperation::Login | ProviderOperation::ConsumeResetCredit
    )
}

/// Who asked for a management call.
pub enum ManagementOrigin {
    /// A person.
    Interactive,
    /// A task of the host, which read the account at a revision.
    Maintenance { task_id: String, credential_revision: Option<u64> },
}

/// A task of the host may use an account: it is enabled, and its credential is good or, where it is
/// to be refreshed, expired.
pub open spec fn is_serviceable(account: ProviderAccount, operation: ProviderOperation) -> bool {
    account.enabled && (account.credential_state == CredentialState::Ready || operation
        == ProviderOperation::Refresh && account.credential_state == CredentialState::Expired)
}

/// A call may be made. A task of the host finds the account as it read it.
pub open spec fn is_admitted(
    operation: ProviderOperation,
    account: Option<&ProviderAccount>,
    origin: ManagementOrigin,
) -> bool {
    match origin {
        ManagementOrigin::Interactive => true,
        ManagementOrigin::Maintenance { task_id, credential_revision } => {
            &&& account matches Some(account) ==> is_serviceable(*account, operation)
            &&& credential_revision matches Some(expected) ==> (account matches Some(account)
                && account.revision == expected)
        },
    }
}

/// The context of a management call.
pub open spec fn is_management_context(
    context: CallContext,
    account: Option<&ProviderAccount>,
    origin: ManagementOrigin,
) -> bool {
    &&& context.timeout_ms == MANAGEMENT_TIMEOUT_MS
    &&& context.attempt_id is None
    &&& match origin {
        ManagementOrigin::Interactive => context.stage == Stage::Management
            && context.request_id is None,
        ManagementOrigin::Maintenance { task_id, .. } => context.stage == Stage::Maintenance
            && text_of(context.request_id) == Some(task_id@),
    }
    &&& match account {
        Some(account) => text_of(context.account_id) == Some(account.id@)
            && context.credential_revision == Some(account.revision),
        None => context.account_id is None && context.credential_revision is None,
    }
}

/// A management call: its context, what it does on the network and what it is for.
pub struct ManagementCall {
    pub context: CallContext,
    pub scope: NetworkScope,
    pub operation: ProviderOperation,
}

/// A call that is prepared: nothing was sent yet, and what it does is done through the proxy.
pub open spec fn is_prepared_call(
    call: ManagementCall,
    operation: ProviderOperation,
    account: Option<&ProviderAccount>,
    proxy: Option<String>,
    origin: ManagementOrigin,
) -> bool {
    &&& is_management_context(call.context, account, origin)
    &&& call.operation == operation
    &&& call.scope.stage == call.context.stage
    &&& call.scope.account_id == call.context.account_id
    &&& call.scope.credential_revision == call.context.credential_revision
    &&& call.scope.proxy == proxy
    &&& call.scope.active
    &&& call.scope.state() == UpstreamSendState::NotSent
}

/// Prepares a management call.
pub fn management_call_from(
    operation: ProviderOperation,
    account: Option<&ProviderAccount>,
    proxy: Option<String>,
    origin: &ManagementOrigin,
) -> (result: Result<ManagementCall, ProviderAdminError>)
    ensures
        match result {
            Ok(call) => is_admitted(operation, account, *origin) && is_prepared_call(
                call,
                operation,
                account,
                proxy,
                *origin,
            ),
            Err(error) => !is_admitted(operation, account, *origin) && error == admin(
                ProviderAdminErrorKind::Conflict,
            ),
        },
{
    let (stage, request_id) = match origin {
        ManagementOrigin::Interactive => (Stage::Management, None),
        ManagementOrigin::Maintenance { task_id, credential_revision } => {
            match account {
                Some(account) => {
                    if !account.enabled || !(account.credential_state == CredentialState::Ready || (
                    operation == ProviderOperation::Refresh && account.credential_state
                        == CredentialState::Expired)) {
                        return Err(conflict());
                    }
                },
                None => {},
            }
            match (credential_revision, account) {
                (Some(expected), Some(account)) => if account.revision != *expected {
                    return Err(conflict());
                },
                (Some(_), None) => return Err(conflict()),
                (None, _) => {},
            }
            (Stage::Maintenance, Some(task_id.clone()))
        },
    };
    let (account_id, credential_revision) = match account {
        Some(account) => (Some(account.id.clone()), Some(account.revision)),
        None => (None, None),
    };
    let context = CallContext {
        stage,
        request_id,
        attempt_id: None,
        account_id,
        credential_revision,
        timeout_ms: MANAGEMENT_TIMEOUT_MS,
    };
    let scope = NetworkScope::new(&context, proxy);
    Ok(ManagementCall { context, scope, operation })
}

/// A call that a person asked for is always made.
pub fn management_call(
    operation: ProviderOperation,
    account: Option<&ProviderAccount>,
    proxy: Option<String>,
) -> (result: Result<ManagementCall, ProviderAdminError>)
    ensures
        result matches Ok(call) && is_prepared_call(
            call,
            operation,
            account,
            proxy,
            ManagementOrigin::Interactive,
        ),
{
    management_call_from(operation, account, proxy, &ManagementOrigin::Interactive)
}

/// An answer that cannot be used: where the operation may have taken effect, nobody knows whether it
/// did.
pub open spec fn unusable(operation: ProviderOperation, state: UpstreamSendState) ->
    ProviderAdminError {
    admin(
        if operation == ProviderOperation::ConsumeResetCredit || is_mutating(operation) && state
            != UpstreamSendState::NotSent {
            ProviderAdminErrorKind::Ambiguous
        } else {
            ProviderAdminErrorKind::BadGateway
        },
    )
}

/// What a failed read means.
pub open spec fn read_failure(error: RpcError) -> ProviderAdminError {
    admin(
        match error {
            RpcError::Remote(fault) => match fault.code {
                ErrorCode::InvalidInput
                | ErrorCode::Rejected
                | ErrorCode::PermissionDenied => ProviderAdminErrorKind::Invalid,
                ErrorCode::Unsupported => ProviderAdminErrorKind::Unsupported,
                ErrorCode::Conflict => ProviderAdminErrorKind::Conflict,
                ErrorCode::Uncertain => ProviderAdminErrorKind::Ambiguous,
                _ => ProviderAdminErrorKind::Unavailable,
            },
            _ => ProviderAdminErrorKind::Unavailable,
        },
    )
}

/// The host saw a request go out, or the plugin says that one did.
pub open spec fn may_be_sent(state: UpstreamSendState, error: RpcError) -> bool {
    state != UpstreamSendState::NotSent || (error matches RpcError::Remote(fault)
        && fault.send_state != UpstreamSendState::NotSent)
}

/// A credit may have been consumed though no request was seen: the other side vanished or broke the
/// protocol.
pub open spec fn may_be_consumed(operation: ProviderOperation, error: RpcError) -> bool {
    operation == ProviderOperation::ConsumeResetCredit && (error is Closed || error is Protocol
        || error is Timeout || error is Cancelled)
}

/// What the failure of an operation means.
pub open spec fn failure(
    operation: ProviderOperation,
    state: UpstreamSendState,
    error: RpcError,
) -> ProviderAdminError {
    if is_mutating(operation) && (may_be_sent(state, error) || may_be_consumed(operation, error)) {
        admin(ProviderAdminErrorKind::Ambiguous)
    } else {
        read_failure(error)
    }
}

pub fn map_read_error(error: RpcError) -> (result: ProviderAdminError)
    ensures
        result == read_failure(error),
{
    ProviderAdminError::new(
        match error {
            RpcError::Remote(fault) => match fault.code {
                ErrorCode::InvalidInput | ErrorCode::Rejected | ErrorCode::PermissionDenied => {
                    ProviderAdminErrorKind::Invalid
                },
                ErrorCode::Unsupported => ProviderAdminErrorKind::Unsupported,
                ErrorCode::Conflict => ProviderAdminErrorKind::Conflict,
                ErrorCode::Uncertain => ProviderAdminErrorKind::Ambiguous,
                _ => ProviderAdminErrorKind::Unavailable,
            },
            _ => ProviderAdminErrorKind::Unavailable,
        },
    )
}

/// What an answer that cannot be used is reported as, by how far the requests of the call went.
pub fn unusable_answer(operation: ProviderOperation, state: UpstreamSendState) -> (error:
    ProviderAdminError)
    ensures
        error == unusable(operation, state),
{
    ProviderAdminError::new(
        if operation == ProviderOperation::ConsumeResetCredit || (mutating(operation) && state
            != UpstreamSendState::NotSent) {
            ProviderAdminErrorKind::Ambiguous
        } else {
            ProviderAdminErrorKind::BadGateway
        },
    )
}

impl ManagementCall {
    pub fn invalid_result(&self) -> (error: ProviderAdminError)
        ensures
            error == unusable(self.operation, self.scope.state()),
    {
        unusable_answer(self.operation, self.scope.send_state())
    }

    pub fn map_error(&self, error: RpcError) -> (result: ProviderAdminError)
        ensures
            result == failure(self.operation, self.scope.state(), error),
    {
        let reported = match error {
            RpcError::Remote(fault) => fault.send_state != UpstreamSendState::NotSent,
            _ => false,
        };
        let sent = self.scope.send_state() != UpstreamSendState::NotSent || reported;
        let uncertain_consumption = self.operation == ProviderOperation::ConsumeResetCredit
            && matches!(
            error,
            RpcError::Closed | RpcError::Protocol | RpcError::Timeout | RpcError::Cancelled
        );
        if mutating(self.operation) && (sent || uncertain_consumption) {
            return ProviderAdminError::new(ProviderAdminErrorKind::Ambiguous);
        }
        map_read_error(error)
    }

    /// What comes of a call that was answered. `value` is what the bytes that came with the answer
    /// hold, where that is what was asked for; the answer itself has nothing to say.
    pub fn replied<T>(&self, answer: &Json, value: Option<T>) -> (result: Result<
        T,
        ProviderAdminError,
    >)
        ensures
            self.is_reply(answer@ == JsonView::Object(Map::empty()), value, result),
    {
        if !answer.is_empty_object() {
            return Err(self.invalid_result());
        }
        match value {
            Some(told) => Ok(told),
            None => Err(self.invalid_result()),
        }
    }

    /// What comes of a call that is answered by a stream. `metadata` is what the answer says, where
    /// that is what was asked for; no bytes come with it.
    pub fn opened<T>(&self, payload: &Vec<u8>, metadata: Option<T>) -> (result: Result<
        T,
        ProviderAdminError,
    >)
        ensures
            self.is_reply(payload@.len() == 0, metadata, result),
    {
        if payload.len() > 0 {
            return Err(self.invalid_result());
        }
        match metadata {
            Some(told) => Ok(told),
            None => Err(self.invalid_result()),
        }
    }
}

/// An operation that changes something and may have been sent is never reported as failed: a caller
/// that repeats it would do it twice.
pub proof fn sent_mutation_is_ambiguous(
    operation: ProviderOperation,
    state: UpstreamSendState,
    error: RpcError,
)
    requires
        is_mutating(operation),
        state != UpstreamSendState::NotSent,
    ensures
        failure(operation, state, error).kind == ProviderAdminErrorKind::Ambiguous,
        unusable(operation, state).kind == ProviderAdminErrorKind::Ambiguous,
{
}

/// A read is never ambiguous on account of what was sent: only the plugin itself can say so.
pub proof fn read_is_not_ambiguous(
    operation: ProviderOperation,
    state: UpstreamSendState,
    error: RpcError,
)
    requires
        !is_mutating(operation),
    ensures
        unusable(operation, state).kind == ProviderAdminErrorKind::BadGateway,
        failure(operation, state, error).kind == ProviderAdminErrorKind::Ambiguous ==> (error
            matches RpcError::Remote(fault) && fault.code == ErrorCode::Uncertain),
{
}

/// What a failure to save an account means to the operation that wanted it saved.
pub open spec fn save_failure(kind: AdminErrorKind) -> ProviderAdminErrorKind {
    match kind {
        AdminErrorKind::Invalid
        | AdminErrorKind::Unauthorized
        | AdminErrorKind::Forbidden => ProviderAdminErrorKind::Invalid,
        AdminErrorKind::NotFound => ProviderAdminErrorKind::NotFound,
        AdminErrorKind::Conflict => ProviderAdminErrorKind::Conflict,
        AdminErrorKind::BadGateway => ProviderAdminErrorKind::BadGateway,
        AdminErrorKind::UpstreamResultUnknown => ProviderAdminErrorKind::Ambiguous,
        AdminErrorKind::Unavailable | AdminErrorKind::RateLimited =>
            ProviderAdminErrorKind::Unavailable,
        AdminErrorKind::Internal => ProviderAdminErrorKind::Internal,
    }
}

pub fn map_account_save_error(kind: AdminErrorKind) -> (error: ProviderAdminError)
    ensures
        error == admin(save_failure(kind)),
{
    ProviderAdminError::new(
        match kind {
            AdminErrorKind::Invalid | AdminErrorKind::Unauthorized | AdminErrorKind::Forbidden => {
                ProviderAdminErrorKind::Invalid
            },
            AdminErrorKind::NotFound => ProviderAdminErrorKind::NotFound,
            AdminErrorKind::Conflict => ProviderAdminErrorKind::Conflict,
            AdminErrorKind::BadGateway => ProviderAdminErrorKind::BadGateway,
            AdminErrorKind::UpstreamResultUnknown => ProviderAdminErrorKind::Ambiguous,
            AdminErrorKind::Unavailable | AdminErrorKind::RateLimited => {
                ProviderAdminErrorKind::Unavailable
            },
            AdminErrorKind::Internal => ProviderAdminErrorKind::Internal,
        },
    )
}

/// What a store answered that was asked for something.
pub enum StoreReply<T> {
    Done(T),
    /// It was changed by somebody else.
    Conflict,
    /// Any other failure.
    Failed,
}

pub fn ensure_provider(kind: &str, provider: &str) -> (result: Result<(), ProviderAdminError>)
    ensures
        result == (if kind@ == provider@ {
            Ok::<(), ProviderAdminError>(())
        } else {
            Err(admin(ProviderAdminErrorKind::Invalid))
        }),
{
    if !same(kind, provider) {
        return Err(invalid());
    }
    Ok(())
}

/// The account that an operation is for, as the store gave it.
pub fn managed_account(reply: StoreReply<Option<ProviderAccount>>, provider: &str) -> (result:
    Result<ProviderAccount, ProviderAdminError>)
    ensures
        is_managed(reply, provider@, result),
{
    match reply {
        StoreReply::Done(Some(account)) => match ensure_provider(
            account.provider.as_str(),
            provider,
        ) {
            Ok(()) => Ok(account),
            Err(error) => Err(error),
        },
        StoreReply::Done(None) => Err(not_found()),
        _ => Err(unavailable()),
    }
}

/// The credential of the account that an operation is for, as the store gave it.
pub fn managed_credential(reply: StoreReply<LoadedCredential>) -> (result: Result<
    LoadedCredential,
    ProviderAdminError,
>)
    ensures
        is_loaded(reply, result),
{
    match reply {
        StoreReply::Done(credential) => Ok(credential),
        StoreReply::Conflict => Err(conflict()),
        StoreReply::Failed => Err(unavailable()),
    }
}

/// The account that an operation was for is still the same.
pub fn ensure_management_identity(
    reply: StoreReply<Option<ProviderAccount>>,
    account: &ProviderAccount,
) -> (result: Result<(), ProviderAdminError>)
    ensures
        is_confirmed(reply, *account, result),
{
    match reply {
        StoreReply::Done(Some(current)) => if same_subject(&current, account) {
            Ok(())
        } else {
            Err(conflict())
        },
        StoreReply::Done(None) => Err(conflict()),
        _ => Err(unavailable()),
    }
}

/// What changes something upstream is an import, a rotation, a refresh, a login and the use of a
/// credit; what only reads is the rest.
pub proof fn reads_change_nothing(operation: ProviderOperation)
    ensures
        !is_mutating(operation) <==> operation is Quota || operation is Models || operation
            is Profile || operation is ResetCredits,
{
}

/// A person's call is always made. A task's is made exactly if the account, where there is one, is
/// enabled and its credential is good, or expired and to be refreshed, and if it is at the revision
/// that the task read, where it read one.
pub proof fn admitted_calls(
    operation: ProviderOperation,
    account: Option<&ProviderAccount>,
    origin: ManagementOrigin,
)
    ensures
        origin is Interactive ==> is_admitted(operation, account, origin),
        origin is Maintenance && account is Some ==> (is_admitted(operation, account, origin) <==> {
            &&& account->0.enabled
            &&& account->0.credential_state is Ready || (account->0.credential_state is Expired
                && operation is Refresh)
            &&& origin->credential_revision is Some ==> origin->credential_revision->0
                == account->0.revision
        }),
        origin is Maintenance && account is None ==> (is_admitted(operation, account, origin)
            <==> origin->credential_revision is None),
{
}

/// A call is made for the account that it is for and at its revision, may take half a minute, has sent
/// nothing yet, and goes through the proxy that was given. It is known by the task that made it, or
/// by nothing where a person did.
pub proof fn prepared_calls(
    call: ManagementCall,
    operation: ProviderOperation,
    account: Option<&ProviderAccount>,
    proxy: Option<String>,
    origin: ManagementOrigin,
)
    requires
        is_prepared_call(call, operation, account, proxy, origin),
    ensures
        call.operation == operation,
        call.context.timeout_ms == 30_000,
        call.context.attempt_id is None,
        call.scope.proxy == proxy,
        call.scope.active,
        call.scope.state() is NotSent,
        origin is Interactive ==> call.context.stage is Management && call.context.request_id is None
            && call.scope.stage is Management,
        origin is Maintenance ==> call.context.stage is Maintenance && call.scope.stage
            is Maintenance && call.context.request_id is Some && call.context.request_id->0@
            == origin->task_id@,
        account is Some ==> call.context.account_id is Some && call.context.account_id->0@
            == account->0.id@ && call.context.credential_revision == Some(account->0.revision)
            && call.scope.account_id is Some && call.scope.account_id->0@ == account->0.id@
            && call.scope.credential_revision == Some(account->0.revision),
        account is None ==> call.context.account_id is None && call.scope.account_id is None
            && call.context.credential_revision is None && call.scope.credential_revision is None,
{
}

/// The failure of an operation is in doubt exactly if the operation changes something and a request
/// may have gone out, as the host saw or the plugin said; if a credit was to be used and the other
/// side vanished or broke the protocol; or if the plugin itself does not know.
pub proof fn doubtful_failures(
    operation: ProviderOperation,
    state: UpstreamSendState,
    error: RpcError,
)
    ensures
        failure(operation, state, error).kind is Ambiguous <==> {
            ||| is_mutating(operation) && !(state is NotSent)
            ||| is_mutating(operation) && error is Remote && !(error->Remote_0.send_state is NotSent)
            ||| operation is ConsumeResetCredit && (error is Closed || error is Protocol || error
                is Timeout || error is Cancelled)
            ||| error is Remote && error->Remote_0.code is Uncertain
        },
        !(failure(operation, state, error).kind is Ambiguous) ==> failure(operation, state, error)
            == read_failure(error),
{
}

/// A failed read is invalid exactly if the plugin refused the input, the request or its permission;
/// unsupported or a conflict exactly if it said so; and otherwise, unless it does not know, the
/// other side could not be reached.
pub proof fn failed_reads_by_kind(error: RpcError)
    ensures
        ({
            let kind = read_failure(error).kind;
            let remote = error is Remote;
            let code = error->Remote_0.code;
            &&& kind is Invalid <==> remote && (code is InvalidInput || code is Rejected || code
                is PermissionDenied)
            &&& kind is Unsupported <==> remote && code is Unsupported
            &&& kind is Conflict <==> remote && code is Conflict
            &&& kind is Ambiguous <==> remote && code is Uncertain
            &&& kind is Unavailable <==> !(kind is Invalid || kind is Unsupported || kind is Conflict
                || kind is Ambiguous)
        }),
{
}

/// An answer that cannot be used leaves in doubt the use of a credit in any case, and any other change
/// exactly if something may have been sent; otherwise the other side answered badly.
pub proof fn doubtful_answers(operation: ProviderOperation, state: UpstreamSendState)
    ensures
        unusable(operation, state).kind is Ambiguous <==> operation is ConsumeResetCredit || (
        is_mutating(operation) && !(state is NotSent)),
        !(unusable(operation, state).kind is Ambiguous) ==> unusable(operation, state).kind
            is BadGateway,
{
}

/// Each failure to save an account keeps its meaning: in doubt exactly if the outcome is unknown, not
/// to be reached exactly if the store or its limits say so, invalid if the request was or had no
/// right to be made.
pub proof fn failed_saves_by_kind(kind: AdminErrorKind)
    ensures
        save_failure(kind) is Ambiguous <==> kind is UpstreamResultUnknown,
        save_failure(kind) is Unavailable <==> kind is Unavailable || kind is RateLimited,
        save_failure(kind) is Invalid <==> kind is Invalid || kind is Unauthorized || kind
            is Forbidden,
        save_failure(kind) is NotFound <==> kind is NotFound,
        save_failure(kind) is Conflict <==> kind is Conflict,
        save_failure(kind) is BadGateway <==> kind is BadGateway,
        save_failure(kind) is Internal <==> kind is Internal,
{
}

/// The account that is managed, as it is read.
pub open spec fn is_managed(
    reply: StoreReply<Option<ProviderAccount>>,
    provider: Seq<char>,
    result: Result<ProviderAccount, ProviderAdminError>,
) -> bool {
    match reply {
        StoreReply::Done(Some(account)) => if account.provider@ == provider {
            result matches Ok(found) && found == account
        } else {
            result matches Err(error) && error == admin(ProviderAdminErrorKind::Invalid)
        },
        StoreReply::Done(None) => result matches Err(error) && error == admin(
            ProviderAdminErrorKind::NotFound,
        ),
        _ => result matches Err(error) && error == admin(ProviderAdminErrorKind::Unavailable),
    }
}

/// The credential that is used, as it is read.
pub open spec fn is_loaded(
    reply: StoreReply<LoadedCredential>,
    result: Result<LoadedCredential, ProviderAdminError>,
) -> bool {
    match reply {
        StoreReply::Done(credential) => result matches Ok(found) && found == credential,
        StoreReply::Conflict => result matches Err(error) && error == admin(
            ProviderAdminErrorKind::Conflict,
        ),
        StoreReply::Failed => result matches Err(error) && error == admin(
            ProviderAdminErrorKind::Unavailable,
        ),
    }
}

/// Whether an account is still the one that a call was made for.
pub open spec fn is_confirmed(
    reply: StoreReply<Option<ProviderAccount>>,
    account: ProviderAccount,
    result: Result<(), ProviderAdminError>,
) -> bool {
    match reply {
        StoreReply::Done(Some(current)) if is_same_subject(current, account) => result is Ok,
        StoreReply::Done(_) => result matches Err(error) && error == admin(
            ProviderAdminErrorKind::Conflict,
        ),
        _ => result matches Err(error) && error == admin(ProviderAdminErrorKind::Unavailable),
    }
}

impl ManagementCall {
    /// What comes of a call: what was told, where there is something and nothing else was said.
    pub open spec fn is_reply<T>(
        &self,
        says_nothing_else: bool,
        value: Option<T>,
        result: Result<T, ProviderAdminError>,
    ) -> bool {
        match value {
            Some(told) if says_nothing_else => result == Ok::<T, ProviderAdminError>(told),
            _ => result matches Err(error) && error == unusable(
                self.operation,
                self.scope.state(),
            ),
        }
    }
}

/// An account is managed as it is stored, and by its own provider only.
pub proof fn managed_by_its_provider(
    reply: StoreReply<Option<ProviderAccount>>,
    provider: Seq<char>,
    result: Result<ProviderAccount, ProviderAdminError>,
)
    requires
        is_managed(reply, provider, result),
    ensures
        result matches Ok(account) ==> reply == StoreReply::Done(Some(account)) && account.provider@
            == provider,
        reply matches StoreReply::Done(Some(account)) ==> (account.provider@ == provider ==> result
            is Ok),
        result matches Err(error) ==> (error.kind is NotFound <==> reply == StoreReply::<
            Option<ProviderAccount>,
        >::Done(None)) && (error.kind is Unavailable <==> !(reply is Done)),
{
}

/// A credential is used as it is stored; that it changed meanwhile is told apart from that it could not
/// be read.
pub proof fn loaded_as_stored(
    reply: StoreReply<LoadedCredential>,
    result: Result<LoadedCredential, ProviderAdminError>,
)
    requires
        is_loaded(reply, result),
    ensures
        result is Ok <==> reply is Done,
        result matches Ok(credential) ==> reply == StoreReply::Done(credential),
        result matches Err(error) ==> (error.kind is Conflict <==> reply is Conflict) && (error.kind
            is Unavailable <==> reply is Failed),
{
}

/// A call is confirmed only while the account that it was made for is still there and the same.
pub proof fn confirmed_if_the_same(
    reply: StoreReply<Option<ProviderAccount>>,
    account: ProviderAccount,
    result: Result<(), ProviderAdminError>,
)
    requires
        is_confirmed(reply, account, result),
    ensures
        result is Ok <==> (reply matches StoreReply::Done(Some(current)) && is_same_subject(
            current,
            account,
        )),
        reply == StoreReply::<Option<ProviderAccount>>::Done(None) ==> (result matches Err(error)
            && error.kind is Conflict),
        !(reply is Done) ==> (result matches Err(error) && error.kind is Unavailable),
{
}

/// What a plugin tells is taken if it tells something and nothing besides. What cannot be taken leaves
/// open what was done, if something may have been sent that changes anything.
pub proof fn taken_if_nothing_else_is_said<T>(
    call: ManagementCall,
    says_nothing_else: bool,
    value: Option<T>,
    result: Result<T, ProviderAdminError>,
)
    requires
        call.is_reply(says_nothing_else, value, result),
    ensures
        result is Ok <==> says_nothing_else && value is Some,
        result matches Ok(told) ==> value == Some(told),
        result matches Err(error) ==> (error.kind is Ambiguous || error.kind is BadGateway),
        result matches Err(error) ==> (is_mutating(call.operation) && !(call.scope.state() is NotSent)
            ==> error.kind is Ambiguous),
        result matches Err(error) ==> (!is_mutating(call.operation) && !(call.operation
            is ConsumeResetCredit) ==> error.kind is BadGateway),
{
    doubtful_answers(call.operation, call.scope.state());
}

} // verus!
