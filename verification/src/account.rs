//! The accounts of a provider.

use vstd::prelude::*;

use crate::json::{members_eq, members_view, same_document, Json, JsonView};
use crate::text::{same, same_optional, text_of};

verus! {

/// Whether the credential of an account can be used.
#[derive(Clone, Copy, Debug, PartialEq, Eq, Structural)]
pub enum CredentialState {
    Ready,
    Expired,
    /// Any other state.
    Other,
}

/// An account of a provider. Points in time are in milliseconds since the epoch.
pub struct ProviderAccount {
    pub id: String,
    pub provider: String,
    pub revision: u64,
    pub name: String,
    pub email: Option<String>,
    pub authentication_kind: String,
    pub upstream_user_id: Option<String>,
    pub upstream_account_id: Option<String>,
    pub plan_type: Option<String>,
    pub has_refresh_token: bool,
    pub access_token_expires_at_ms: Option<i64>,
    pub next_refresh_at_ms: Option<i64>,
    pub enabled: bool,
    pub credential_state: CredentialState,
    pub has_error: bool,
    pub outbound_proxy: Option<String>,
}

impl Clone for ProviderAccount {
    fn clone(&self) -> (copy: Self)
        ensures
            copy == *self,
    {
        ProviderAccount {
            id: self.id.clone(),
            provider: self.provider.clone(),
            revision: self.revision,
            name: self.name.clone(),
            email: self.email.clone(),
            authentication_kind: self.authentication_kind.clone(),
            upstream_user_id: self.upstream_user_id.clone(),
            upstream_account_id: self.upstream_account_id.clone(),
            plan_type: self.plan_type.clone(),
            has_refresh_token: self.has_refresh_token,
            access_token_expires_at_ms: self.access_token_expires_at_ms,
            next_refresh_at_ms: self.next_refresh_at_ms,
            enabled: self.enabled,
            credential_state: self.credential_state,
            has_error: self.has_error,
            outbound_proxy: self.outbound_proxy.clone(),
        }
    }
}

/// An account with its credential.
pub struct LoadedCredential {
    pub account: ProviderAccount,
    pub credential: Vec<(String, Json)>,
}

/// What a plugin says of a credential.
pub struct CredentialFacts {
    pub name: String,
    pub authentication_kind: String,
    pub material: Vec<(String, Json)>,
    pub email: Option<String>,
    pub upstream_user_id: Option<String>,
    pub upstream_account_id: Option<String>,
    pub plan_type: Option<String>,
    pub has_refresh_token: bool,
    pub access_token_expires_at_ms: Option<i64>,
    pub next_refresh_at_ms: Option<i64>,
}

/// Two texts that say the same, as far as they are given.
pub open spec fn agree(a: Option<String>, b: Option<String>) -> bool {
    text_of(a) == text_of(b)
}

/// Two pictures of one account with one credential, such that what was asked with the one holds of
/// the other.
pub open spec fn is_same_identity(left: ProviderAccount, right: ProviderAccount) -> bool {
    &&& left.id@ == right.id@
    &&& left.provider@ == right.provider@
    &&& left.revision == right.revision
    &&& left.authentication_kind@ == right.authentication_kind@
    &&& agree(left.upstream_user_id, right.upstream_user_id)
    &&& agree(left.upstream_account_id, right.upstream_account_id)
    &&& agree(left.plan_type, right.plan_type)
    &&& agree(left.outbound_proxy, right.outbound_proxy)
}

pub fn same_identity(left: &ProviderAccount, right: &ProviderAccount) -> (r: bool)
    ensures
        r == is_same_identity(*left, *right),
{
    same(left.id.as_str(), right.id.as_str()) && same(
        left.provider.as_str(),
        right.provider.as_str(),
    ) && left.revision == right.revision && same(
        left.authentication_kind.as_str(),
        right.authentication_kind.as_str(),
    ) && same_optional(&left.upstream_user_id, &right.upstream_user_id) && same_optional(
        &left.upstream_account_id,
        &right.upstream_account_id,
    ) && same_optional(&left.plan_type, &right.plan_type) && same_optional(
        &left.outbound_proxy,
        &right.outbound_proxy,
    )
}

/// To be the same account is an equivalence.
pub proof fn identity_is_equivalence(a: ProviderAccount, b: ProviderAccount, c: ProviderAccount)
    ensures
        is_same_identity(a, a),
        is_same_identity(a, b) ==> is_same_identity(b, a),
        is_same_identity(a, b) && is_same_identity(b, c) ==> is_same_identity(a, c),
{
}

/// An account that still stands for the one that a management operation was started with.
pub open spec fn is_same_subject(current: ProviderAccount, account: ProviderAccount) -> bool {
    &&& current.provider@ == account.provider@
    &&& current.revision == account.revision
    &&& agree(current.upstream_account_id, account.upstream_account_id)
    &&& agree(current.upstream_user_id, account.upstream_user_id)
}

pub fn same_subject(current: &ProviderAccount, account: &ProviderAccount) -> (r: bool)
    ensures
        r == is_same_subject(*current, *account),
{
    same(current.provider.as_str(), account.provider.as_str()) && current.revision
        == account.revision && same_optional(
        &current.upstream_account_id,
        &account.upstream_account_id,
    ) && same_optional(&current.upstream_user_id, &account.upstream_user_id)
}

fn same_time(a: Option<i64>, b: Option<i64>) -> (r: bool)
    ensures
        r == (a == b),
{
    match (a, b) {
        (None, None) => true,
        (Some(a), Some(b)) => a == b,
        _ => false,
    }
}

/// A plugin says of a credential what is on record already, and the record shows no trouble.
pub open spec fn is_known(credential: LoadedCredential, facts: CredentialFacts) -> bool {
    let account = credential.account;
    &&& account.credential_state == CredentialState::Ready
    &&& !account.has_error
    &&& facts.name@ == account.name@
    &&& facts.authentication_kind@ == account.authentication_kind@
    &&& same_document(
        JsonView::Object(members_view(facts.material@)),
        JsonView::Object(members_view(credential.credential@)),
    )
    &&& agree(facts.email, account.email)
    &&& agree(facts.upstream_user_id, account.upstream_user_id)
    &&& agree(facts.upstream_account_id, account.upstream_account_id)
    &&& agree(facts.plan_type, account.plan_type)
    &&& facts.has_refresh_token == account.has_refresh_token
    &&& facts.access_token_expires_at_ms == account.access_token_expires_at_ms
    &&& facts.next_refresh_at_ms == account.next_refresh_at_ms
}

pub fn same_credential_facts(credential: &LoadedCredential, facts: &CredentialFacts) -> (r: bool)
    ensures
        r == is_known(*credential, *facts),
{
    let account = &credential.account;
    account.credential_state == CredentialState::Ready && !account.has_error && same(
        facts.name.as_str(),
        account.name.as_str(),
    ) && same(facts.authentication_kind.as_str(), account.authentication_kind.as_str())
        && members_eq(&facts.material, &credential.credential) && same_optional(
        &facts.email,
        &account.email,
    ) && same_optional(&facts.upstream_user_id, &account.upstream_user_id) && same_optional(
        &facts.upstream_account_id,
        &account.upstream_account_id,
    ) && same_optional(&facts.plan_type, &account.plan_type) && facts.has_refresh_token
        == account.has_refresh_token && same_time(
        facts.access_token_expires_at_ms,
        account.access_token_expires_at_ms,
    ) && same_time(facts.next_refresh_at_ms, account.next_refresh_at_ms)
}

/// Two pictures are of one account with one credential exactly where nothing differs that a question
/// to the provider depends on. What people call the account, and whether it may be used, is not part of
/// that.
pub proof fn identity_by_parts(left: ProviderAccount, right: ProviderAccount)
    ensures
        is_same_identity(left, right) <==> !(left.id@ != right.id@ || left.provider@
            != right.provider@ || left.revision != right.revision || left.authentication_kind@
            != right.authentication_kind@ || text_of(left.upstream_user_id) != text_of(
            right.upstream_user_id,
        ) || text_of(left.upstream_account_id) != text_of(right.upstream_account_id) || text_of(
            left.plan_type,
        ) != text_of(right.plan_type) || text_of(left.outbound_proxy) != text_of(
            right.outbound_proxy,
        )),
        is_same_identity(
            left,
            ProviderAccount {
                name: right.name,
                email: right.email,
                has_refresh_token: right.has_refresh_token,
                access_token_expires_at_ms: right.access_token_expires_at_ms,
                next_refresh_at_ms: right.next_refresh_at_ms,
                enabled: right.enabled,
                credential_state: right.credential_state,
                has_error: right.has_error,
                ..left
            },
        ),
        is_same_identity(left, right) ==> is_same_subject(left, right),
{
}

/// A management operation still has its subject exactly where neither the provider, the version nor the
/// identity with the provider has changed.
pub proof fn subject_by_parts(current: ProviderAccount, account: ProviderAccount)
    ensures
        is_same_subject(current, account) <==> !(current.provider@ != account.provider@
            || current.revision != account.revision || text_of(current.upstream_user_id) != text_of(
            account.upstream_user_id,
        ) || text_of(current.upstream_account_id) != text_of(account.upstream_account_id)),
        is_same_subject(current, account) <==> is_same_subject(account, current),
{
}

/// A plugin says nothing new exactly where every single thing that it says is on record and the account
/// is in order; whatever it says otherwise of one of them is new.
pub proof fn known_by_parts(credential: LoadedCredential, facts: CredentialFacts)
    ensures
        is_known(credential, facts) ==> credential.account.credential_state is Ready
            && !credential.account.has_error,
        is_known(credential, facts) ==> facts.name@ == credential.account.name@
            && facts.authentication_kind@ == credential.account.authentication_kind@ && text_of(
            facts.email,
        ) == text_of(credential.account.email) && text_of(facts.upstream_user_id) == text_of(
            credential.account.upstream_user_id,
        ) && text_of(facts.upstream_account_id) == text_of(credential.account.upstream_account_id)
            && text_of(facts.plan_type) == text_of(credential.account.plan_type),
        is_known(credential, facts) ==> facts.has_refresh_token
            == credential.account.has_refresh_token && facts.access_token_expires_at_ms
            == credential.account.access_token_expires_at_ms && facts.next_refresh_at_ms
            == credential.account.next_refresh_at_ms && same_document(
            JsonView::Object(members_view(facts.material@)),
            JsonView::Object(members_view(credential.credential@)),
        ),
        credential.account.credential_state is Ready && !credential.account.has_error
            && same_document(
            JsonView::Object(members_view(facts.material@)),
            JsonView::Object(members_view(credential.credential@)),
        ) && facts.name == credential.account.name && facts.authentication_kind
            == credential.account.authentication_kind && facts.email == credential.account.email
            && facts.upstream_user_id == credential.account.upstream_user_id
            && facts.upstream_account_id == credential.account.upstream_account_id
            && facts.plan_type == credential.account.plan_type && facts.has_refresh_token
            == credential.account.has_refresh_token && facts.access_token_expires_at_ms
            == credential.account.access_token_expires_at_ms && facts.next_refresh_at_ms
            == credential.account.next_refresh_at_ms ==> is_known(credential, facts),
{
}

} // verus!
