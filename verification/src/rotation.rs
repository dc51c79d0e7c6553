//! Credentials that take the place of others.

use vstd::prelude::*;

pub mod change;
pub mod lock;

use crate::account::{agree, CredentialFacts, ProviderAccount};
use crate::credential_form::{is_input, validate_credential_input, CredentialInputs};
use crate::credentials::{are_facts, ensure_operation, has_moments, validate_facts};
use crate::fault::{
    admin, conflict, invalid, unavailable, ProviderAdminError, ProviderAdminErrorKind,
    UpstreamSendState,
};
use crate::json::{members_view, Json, JsonView};
use crate::management::{ensure_provider, unusable, unusable_answer, ProviderOperation};
use crate::manifest::CredentialOperation;
use crate::moment::timestamp;
use crate::text::{same, same_optional, text_of};

verus! {

/// Why a credential is replaced.
#[derive(Clone, Copy, Debug, PartialEq, Eq, Structural)]
pub enum CredentialChange {
    /// The provider renews it.
    Refresh,
    /// A person gives another one.
    Rotate,
    /// A person logs in again.
    Reauthorize,
}

/// What a replacement is called, by the operation that people declare and the one that is carried
/// out.
pub open spec fn replacement_operations(refresh: bool) -> (CredentialOperation, ProviderOperation) {
    if refresh {
        (CredentialOperation::Refresh, ProviderOperation::Refresh)
    } else {
        (CredentialOperation::Rotate, ProviderOperation::Rotate)
    }
}

/// What is wrong with a replacement before the account is touched.
pub open spec fn replacement_fault(
    operations: Seq<CredentialOperation>,
    inputs: CredentialInputs,
    account: ProviderAccount,
    kind: Seq<char>,
    replacement: Option<Vec<(String, Json)>>,
) -> Option<ProviderAdminErrorKind> {
    let (declared, _) = replacement_operations(replacement is None);
    if !operations.contains(declared) {
        Some(ProviderAdminErrorKind::Unsupported)
    } else if account.provider@ != kind {
        Some(ProviderAdminErrorKind::Invalid)
    } else {
        match replacement {
            None => None,
            Some(document) => match inputs.form(CredentialOperation::Rotate) {
                None => Some(ProviderAdminErrorKind::Unsupported),
                Some(form) => if is_input(
                    form,
                    CredentialOperation::Rotate,
                    JsonView::Object(members_view(document@)),
                ) {
                    None
                } else {
                    Some(ProviderAdminErrorKind::Invalid)
                },
            },
        }
    }
}

/// A replacement may begin: which operation is carried out.
pub fn begin(
    operations: &Vec<CredentialOperation>,
    inputs: &CredentialInputs,
    account: &ProviderAccount,
    kind: &str,
    replacement: &Option<Vec<(String, Json)>>,
) -> (result: Result<ProviderOperation, ProviderAdminError>)
    ensures
        match replacement_fault(operations@, *inputs, *account, kind@, *replacement) {
            Some(fault) => result matches Err(error) && error == admin(fault),
            None => result matches Ok(operation) && operation == replacement_operations(
                *replacement is None,
            ).1,
        },
{
    let (declared, operation) = match replacement {
        None => (CredentialOperation::Refresh, ProviderOperation::Refresh),
        Some(_) => (CredentialOperation::Rotate, ProviderOperation::Rotate),
    };
    match ensure_operation(operations, declared) {
        Ok(()) => {},
        Err(error) => return Err(error),
    }
    match ensure_provider(account.provider.as_str(), kind) {
        Ok(()) => {},
        Err(error) => return Err(error),
    }
    match replacement {
        Some(document) => match validate_credential_input(
            inputs,
            CredentialOperation::Rotate,
            document,
        ) {
            Ok(()) => {},
            Err(error) => return Err(error),
        },
        None => {},
    }
    Ok(operation)
}

/// What came of asking for a lease.
#[derive(Clone, Copy, Debug, PartialEq, Eq, Structural)]
pub enum LeaseReply {
    Acquired,
    Busy,
    Failed,
}

/// A lease is needed: nobody waits for it.
pub fn leased(reply: LeaseReply) -> (result: Result<(), ProviderAdminError>)
    ensures
        result == match reply {
            LeaseReply::Acquired => Ok::<(), ProviderAdminError>(()),
            LeaseReply::Busy => Err(admin(ProviderAdminErrorKind::Conflict)),
            LeaseReply::Failed => Err(admin(ProviderAdminErrorKind::Unavailable)),
        },
{
    match reply {
        LeaseReply::Acquired => Ok(()),
        LeaseReply::Busy => Err(conflict()),
        LeaseReply::Failed => Err(unavailable()),
    }
}

/// The credential, read again once the leases are held, is still at a revision.
pub fn ensure_revision(current: &ProviderAccount, revision: u64) -> (result: Result<
    (),
    ProviderAdminError,
>)
    ensures
        result == (if current.revision == revision {
            Ok::<(), ProviderAdminError>(())
        } else {
            Err(admin(ProviderAdminErrorKind::Conflict))
        }),
{
    if current.revision == revision {
        Ok(())
    } else {
        Err(conflict())
    }
}

/// The identity of an account with its provider.
pub struct ProviderAccountIdentity {
    pub user: String,
    pub account: Option<String>,
}

/// A credential that is to take the place of another.
pub struct PreparedCredentialRotation {
    pub account_id: String,
    pub provider_kind: String,
    pub expected_credential_revision: u64,
    pub replacement_identity: Option<ProviderAccountIdentity>,
    pub name: String,
    pub email: Option<String>,
    pub plan_type: Option<String>,
    pub preserve_profile: bool,
    pub provider_material: Vec<(String, Json)>,
    pub has_refresh_token: bool,
    pub access_token_expires_at_ms: Option<i64>,
    pub next_refresh_at_ms: Option<i64>,
}

/// A credential may take the place of another: it is of the same kind and, where the provider renews
/// it, for the same identity. A person may bring another identity, but not none in place of one.
pub open spec fn may_replace(
    current: ProviderAccount,
    facts: CredentialFacts,
    change: CredentialChange,
) -> bool {
    let refresh = change == CredentialChange::Refresh;
    &&& are_facts(facts)
    &&& has_moments(facts)
    &&& facts.authentication_kind@ == current.authentication_kind@
    &&& refresh ==> agree(facts.upstream_user_id, current.upstream_user_id) && agree(
        facts.upstream_account_id,
        current.upstream_account_id,
    )
    &&& !refresh && current.upstream_user_id is Some ==> facts.upstream_user_id is Some
    &&& current.revision > 0
}

/// A credential that takes the place of another.
pub open spec fn is_replacement(
    prepared: PreparedCredentialRotation,
    current: ProviderAccount,
    facts: CredentialFacts,
    change: CredentialChange,
    kind: Seq<char>,
) -> bool {
    &&& prepared.account_id@ == current.id@
    &&& prepared.provider_kind@ == kind
    &&& prepared.expected_credential_revision == current.revision
    &&& match facts.upstream_user_id {
        Some(user) if change != CredentialChange::Refresh => prepared.replacement_identity
            == Some(ProviderAccountIdentity { user, account: facts.upstream_account_id }),
        _ => prepared.replacement_identity is None,
    }
    &&& prepared.name == facts.name
    &&& prepared.email == facts.email
    &&& prepared.plan_type == facts.plan_type
    &&& prepared.preserve_profile == (change != CredentialChange::Rotate)
    &&& prepared.provider_material == facts.material
    &&& prepared.has_refresh_token == facts.has_refresh_token
    &&& prepared.access_token_expires_at_ms == facts.access_token_expires_at_ms
    &&& prepared.next_refresh_at_ms == facts.next_refresh_at_ms
}

pub fn prepare_changed_credential(
    current: &ProviderAccount,
    facts: CredentialFacts,
    change: CredentialChange,
    kind: &str,
) -> (result: Result<PreparedCredentialRotation, ProviderAdminError>)
    ensures
        match result {
            Ok(prepared) => may_replace(*current, facts, change) && is_replacement(
                prepared,
                *current,
                facts,
                change,
                kind@,
            ),
            Err(error) => !may_replace(*current, facts, change) && error == admin(
                ProviderAdminErrorKind::Invalid,
            ),
        },
{
    let refresh = change == CredentialChange::Refresh;
    match validate_facts(&facts) {
        Ok(()) => {},
        Err(error) => return Err(error),
    }
    if !same(facts.authentication_kind.as_str(), current.authentication_kind.as_str()) || (refresh
        && (!same_optional(&facts.upstream_user_id, &current.upstream_user_id) || !same_optional(
        &facts.upstream_account_id,
        &current.upstream_account_id,
    ))) || (!refresh && facts.upstream_user_id.is_none() && current.upstream_user_id.is_some()) {
        return Err(invalid());
    }
    let access_token_expires_at_ms = match timestamp(facts.access_token_expires_at_ms) {
        Ok(ms) => ms,
        Err(error) => return Err(error),
    };
    let next_refresh_at_ms = match timestamp(facts.next_refresh_at_ms) {
        Ok(ms) => ms,
        Err(error) => return Err(error),
    };
    if current.revision == 0 {
        return Err(invalid());
    }
    let replacement_identity = match facts.upstream_user_id {
        Some(user) => if refresh {
            None
        } else {
            Some(ProviderAccountIdentity { user, account: facts.upstream_account_id })
        },
        None => None,
    };
    Ok(
        PreparedCredentialRotation {
            account_id: current.id.clone(),
            provider_kind: kind.to_owned(),
            expected_credential_revision: current.revision,
            replacement_identity,
            name: facts.name,
            email: facts.email,
            plan_type: facts.plan_type,
            preserve_profile: change != CredentialChange::Rotate,
            provider_material: facts.material,
            has_refresh_token: facts.has_refresh_token,
            access_token_expires_at_ms,
            next_refresh_at_ms,
        },
    )
}

/// Takes the credential that a plugin answered. `state` is how far the requests of the call went.
pub fn take_changed(
    operation: ProviderOperation,
    state: UpstreamSendState,
    current: &ProviderAccount,
    facts: CredentialFacts,
    change: CredentialChange,
    kind: &str,
) -> (result: Result<PreparedCredentialRotation, ProviderAdminError>)
    ensures
        match result {
            Ok(prepared) => may_replace(*current, facts, change) && is_replacement(
                prepared,
                *current,
                facts,
                change,
                kind@,
            ),
            Err(error) => !may_replace(*current, facts, change) && error == unusable(operation, state),
        },
{
    match prepare_changed_credential(current, facts, change, kind) {
        Ok(prepared) => Ok(prepared),
        Err(_) => Err(unusable_answer(operation, state)),
    }
}

/// A credential that the provider renewed never changes whose account it is, and keeps what people
/// set for the account.
pub proof fn refresh_keeps_identity(
    prepared: PreparedCredentialRotation,
    current: ProviderAccount,
    facts: CredentialFacts,
    kind: Seq<char>,
)
    requires
        may_replace(current, facts, CredentialChange::Refresh),
        is_replacement(prepared, current, facts, CredentialChange::Refresh, kind),
    ensures
        prepared.replacement_identity is None,
        agree(facts.upstream_user_id, current.upstream_user_id),
        agree(facts.upstream_account_id, current.upstream_account_id),
        prepared.preserve_profile,
        prepared.expected_credential_revision == current.revision,
{
}

/// What takes a credential's place is what the plugin answered, and depends on the account only through
/// its name and its version: for two accounts that agree on these the prepared credentials agree in
/// everything. Nothing of the credential that is replaced is carried over.
pub proof fn replaced_by_the_answer(
    one: PreparedCredentialRotation,
    other: PreparedCredentialRotation,
    account: ProviderAccount,
    like: ProviderAccount,
    facts: CredentialFacts,
    change: CredentialChange,
    kind: Seq<char>,
)
    requires
        account.id@ == like.id@,
        account.revision == like.revision,
        is_replacement(one, account, facts, change, kind),
        is_replacement(other, like, facts, change, kind),
    ensures
        one.account_id@ == other.account_id@,
        one.provider_kind@ == other.provider_kind@,
        one.expected_credential_revision == other.expected_credential_revision,
        one.replacement_identity == other.replacement_identity,
        one.name@ == other.name@,
        one.email == other.email,
        one.plan_type == other.plan_type,
        one.preserve_profile == other.preserve_profile,
        one.provider_material@ == other.provider_material@,
        one.has_refresh_token == other.has_refresh_token,
        one.access_token_expires_at_ms == other.access_token_expires_at_ms,
        one.next_refresh_at_ms == other.next_refresh_at_ms,
        one.account_id@ == account.id@,
        one.provider_kind@ == kind,
        one.expected_credential_revision == account.revision,
        one.name@ == facts.name@,
        one.email == facts.email,
        one.plan_type == facts.plan_type,
        one.provider_material@ == facts.material@,
        one.has_refresh_token == facts.has_refresh_token,
        one.access_token_expires_at_ms == facts.access_token_expires_at_ms,
        one.next_refresh_at_ms == facts.next_refresh_at_ms,
{
}

/// Two answers that differ in what they say of the token, when it ends or when it is renewed, are not
/// prepared alike.
pub proof fn different_answers_differ(
    one: PreparedCredentialRotation,
    other: PreparedCredentialRotation,
    current: ProviderAccount,
    facts: CredentialFacts,
    others: CredentialFacts,
    change: CredentialChange,
    kind: Seq<char>,
)
    requires
        is_replacement(one, current, facts, change, kind),
        is_replacement(other, current, others, change, kind),
        one == other,
    ensures
        facts.material == others.material,
        facts.has_refresh_token == others.has_refresh_token,
        facts.access_token_expires_at_ms == others.access_token_expires_at_ms,
        facts.next_refresh_at_ms == others.next_refresh_at_ms,
        facts.name == others.name,
        facts.email == others.email,
        facts.plan_type == others.plan_type,
        change != CredentialChange::Refresh ==> agree(
            facts.upstream_user_id,
            others.upstream_user_id,
        ),
{
}

/// Whose account it is, is replaced where a person brought a credential that says so, never where the
/// provider renewed one; what people set for the account is given up only where a person gave another
/// credential by hand.
pub proof fn identity_by_change(
    prepared: PreparedCredentialRotation,
    current: ProviderAccount,
    facts: CredentialFacts,
    change: CredentialChange,
    kind: Seq<char>,
)
    requires
        is_replacement(prepared, current, facts, change, kind),
    ensures
        prepared.replacement_identity is Some <==> (change == CredentialChange::Rotate || change
            == CredentialChange::Reauthorize) && facts.upstream_user_id is Some,
        prepared.replacement_identity matches Some(identity) ==> Some(identity.user)
            == facts.upstream_user_id && identity.account == facts.upstream_account_id,
        prepared.preserve_profile <==> change == CredentialChange::Refresh || change
            == CredentialChange::Reauthorize,
{
}

/// When a credential may take the place of another: the kind of login stays, a renewal keeps the
/// identity as it is, a person may bring another but not drop a known one, and an account without a
/// version is not replaced. Who may be renewed may also be replaced by a person, and both ways in which
/// a person replaces a credential admit the same.
pub proof fn replacements_by_change(current: ProviderAccount, facts: CredentialFacts)
    requires
        are_facts(facts),
        has_moments(facts),
    ensures
        may_replace(current, facts, CredentialChange::Refresh) <==> current.revision >= 1
            && facts.authentication_kind@ == current.authentication_kind@ && text_of(
            facts.upstream_user_id,
        ) == text_of(current.upstream_user_id) && text_of(facts.upstream_account_id) == text_of(
            current.upstream_account_id,
        ),
        may_replace(current, facts, CredentialChange::Rotate) <==> current.revision >= 1
            && facts.authentication_kind@ == current.authentication_kind@ && !(
        facts.upstream_user_id is None && current.upstream_user_id is Some),
        may_replace(current, facts, CredentialChange::Rotate) <==> may_replace(
            current,
            facts,
            CredentialChange::Reauthorize,
        ),
        may_replace(current, facts, CredentialChange::Refresh) ==> may_replace(
            current,
            facts,
            CredentialChange::Rotate,
        ),
{
}

/// Facts that cannot be kept replace nothing.
pub proof fn unusable_facts_replace_nothing(
    current: ProviderAccount,
    facts: CredentialFacts,
    change: CredentialChange,
)
    requires
        may_replace(current, facts, change),
    ensures
        are_facts(facts),
        has_moments(facts),
{
}

/// Whether a replacement may begin does not depend on the version or the credential of the account: a
/// renewal needs the plugin to declare renewals, a replacement by hand that it declares those and a
/// document that fits its form.
pub proof fn replacement_is_declared(
    operations: Seq<CredentialOperation>,
    inputs: CredentialInputs,
    account: ProviderAccount,
    kind: Seq<char>,
    replacement: Option<Vec<(String, Json)>>,
)
    ensures
        replacement_fault(operations, inputs, account, kind, None) is None <==> operations.contains(
            CredentialOperation::Refresh,
        ) && account.provider@ == kind,
        replacement is Some && replacement_fault(operations, inputs, account, kind, replacement)
            is None ==> operations.contains(CredentialOperation::Rotate) && account.provider@
            == kind && inputs.form(CredentialOperation::Rotate) is Some && is_input(
            inputs.form(CredentialOperation::Rotate)->0,
            CredentialOperation::Rotate,
            JsonView::Object(members_view(replacement->0@)),
        ),
        replacement is Some && operations.contains(CredentialOperation::Rotate) && account.provider@
            == kind && inputs.form(CredentialOperation::Rotate) is Some && is_input(
            inputs.form(CredentialOperation::Rotate)->0,
            CredentialOperation::Rotate,
            JsonView::Object(members_view(replacement->0@)),
        ) ==> replacement_fault(operations, inputs, account, kind, replacement) is None,
        replacement_operations(true).1 is Refresh,
        replacement_operations(false).1 is Rotate,
        replacement_fault(operations, inputs, account, kind, replacement) == Some(
            ProviderAdminErrorKind::Unsupported,
        ) || replacement_fault(operations, inputs, account, kind, replacement) == Some(
            ProviderAdminErrorKind::Invalid,
        ) || replacement_fault(operations, inputs, account, kind, replacement) is None,
        replacement is None && !operations.contains(CredentialOperation::Refresh)
            ==> replacement_fault(operations, inputs, account, kind, replacement) == Some(
            ProviderAdminErrorKind::Unsupported,
        ),
        replacement is Some && !operations.contains(CredentialOperation::Rotate)
            ==> replacement_fault(operations, inputs, account, kind, replacement) == Some(
            ProviderAdminErrorKind::Unsupported,
        ),
{
}

} // verus!
