//! Credentials that a plugin makes or takes: what it says of them, and what is kept.

use vstd::prelude::*;
use vstd::string::*;

use crate::account::{CredentialFacts, CredentialState, ProviderAccount};
use crate::fault::{
    admin, invalid, unsupported, ProviderAdminError, ProviderAdminErrorKind, UpstreamSendState,
};
use crate::identifier::{is_hex_digit, new_simple_uuid};
use crate::json::{decode, members_view, parsed_json, Json, JsonView};
use crate::management::{unusable, unusable_answer, ProviderOperation};
use crate::manifest::{has_credential_operation, CredentialOperation};
use crate::moment::{is_optional_moment, timestamp};
use crate::text::{
    is_optional_plain_text, is_plain_text, optional_plain_text, plain_text, same,
};

verus! {

/// The most accounts that are imported or exported at a time.
pub const MAX_ACCOUNTS: usize = 200;

/// The most bytes of the name of an account.
pub const MAX_NAME_BYTES: usize = 200;

/// The most bytes of the name of a kind of login.
pub const MAX_KIND_BYTES: usize = 64;

/// The most bytes of what else is said of an account.
pub const MAX_FACT_BYTES: usize = 1024;

/// What a plugin says of a credential can be kept.
pub open spec fn are_facts(facts: CredentialFacts) -> bool {
    &&& is_plain_text(facts.name@, MAX_NAME_BYTES as nat)
    &&& is_plain_text(facts.authentication_kind@, MAX_KIND_BYTES as nat)
    &&& is_optional_plain_text(facts.email, MAX_FACT_BYTES as nat)
    &&& is_optional_plain_text(facts.upstream_user_id, MAX_FACT_BYTES as nat)
    &&& is_optional_plain_text(facts.upstream_account_id, MAX_FACT_BYTES as nat)
    &&& is_optional_plain_text(facts.plan_type, MAX_FACT_BYTES as nat)
    &&& facts.material@.len() > 0
}

pub fn validate_facts(facts: &CredentialFacts) -> (result: Result<(), ProviderAdminError>)
    ensures
        result == (if are_facts(*facts) {
            Ok::<(), ProviderAdminError>(())
        } else {
            Err(admin(ProviderAdminErrorKind::Invalid))
        }),
{
    if !plain_text(facts.name.as_str(), MAX_NAME_BYTES) || !plain_text(
        facts.authentication_kind.as_str(),
        MAX_KIND_BYTES,
    ) || !optional_plain_text(&facts.email, MAX_FACT_BYTES) || !optional_plain_text(
        &facts.upstream_user_id,
        MAX_FACT_BYTES,
    ) || !optional_plain_text(&facts.upstream_account_id, MAX_FACT_BYTES) || !optional_plain_text(
        &facts.plan_type,
        MAX_FACT_BYTES,
    ) || facts.material.len() == 0 {
        return Err(invalid());
    }
    Ok(())
}

/// The points in time that a plugin says of a credential are those of the calendar.
pub open spec fn has_moments(facts: CredentialFacts) -> bool {
    is_optional_moment(facts.access_token_expires_at_ms) && is_optional_moment(
        facts.next_refresh_at_ms,
    )
}

/// An account that is to be created.
pub struct PreparedCredentialCreate {
    pub account_id: String,
    pub provider_kind: String,
    pub outbound_proxy: Option<String>,
    pub name: String,
    pub email: Option<String>,
    pub upstream_user_id: Option<String>,
    pub upstream_account_id: Option<String>,
    pub plan_type: Option<String>,
    pub authentication_kind: String,
    pub provider_material: Vec<(String, Json)>,
    pub has_refresh_token: bool,
    pub access_token_expires_at_ms: Option<i64>,
    pub next_refresh_at_ms: Option<i64>,
    pub enabled: bool,
    pub credential_state: CredentialState,
    pub credential_observed_at_ms: i64,
}

/// The account that is created with a credential.
pub open spec fn is_created(
    created: PreparedCredentialCreate,
    facts: CredentialFacts,
    kind: Seq<char>,
    proxy: Option<String>,
    observed_at_ms: i64,
) -> bool {
    &&& created.provider_kind@ == kind
    &&& created.outbound_proxy == proxy
    &&& created.name == facts.name
    &&& created.email == facts.email
    &&& created.upstream_user_id == facts.upstream_user_id
    &&& created.upstream_account_id == facts.upstream_account_id
    &&& created.plan_type == facts.plan_type
    &&& created.authentication_kind == facts.authentication_kind
    &&& created.provider_material == facts.material
    &&& created.has_refresh_token == facts.has_refresh_token
    &&& created.access_token_expires_at_ms == facts.access_token_expires_at_ms
    &&& created.next_refresh_at_ms == facts.next_refresh_at_ms
    &&& created.enabled
    &&& created.credential_state == CredentialState::Ready
    &&& created.credential_observed_at_ms == observed_at_ms
}

/// The account that is created with a credential, under a given name.
pub fn create_credential(
    facts: CredentialFacts,
    account_id: String,
    kind: &str,
    proxy: &Option<String>,
    observed_at_ms: i64,
) -> (result: Result<PreparedCredentialCreate, ProviderAdminError>)
    ensures
        match result {
            Ok(created) => are_facts(facts) && has_moments(facts) && created.account_id
                == account_id && is_created(created, facts, kind@, *proxy, observed_at_ms),
            Err(error) => !(are_facts(facts) && has_moments(facts)) && error == admin(
                ProviderAdminErrorKind::Invalid,
            ),
        },
{
    match validate_facts(&facts) {
        Ok(()) => {},
        Err(error) => return Err(error),
    }
    let access_token_expires_at_ms = match timestamp(facts.access_token_expires_at_ms) {
        Ok(ms) => ms,
        Err(error) => return Err(error),
    };
    let next_refresh_at_ms = match timestamp(facts.next_refresh_at_ms) {
        Ok(ms) => ms,
        Err(error) => return Err(error),
    };
    Ok(
        PreparedCredentialCreate {
            account_id,
            provider_kind: kind.to_owned(),
            outbound_proxy: match proxy {
                Some(proxy) => Some(proxy.clone()),
                None => None,
            },
            name: facts.name,
            email: facts.email,
            upstream_user_id: facts.upstream_user_id,
            upstream_account_id: facts.upstream_account_id,
            plan_type: facts.plan_type,
            authentication_kind: facts.authentication_kind,
            provider_material: facts.material,
            has_refresh_token: facts.has_refresh_token,
            access_token_expires_at_ms,
            next_refresh_at_ms,
            enabled: true,
            credential_state: CredentialState::Ready,
            credential_observed_at_ms: observed_at_ms,
        },
    )
}

/// The name of a new account.
pub open spec fn is_account_name(name: Seq<char>) -> bool {
    let prefix = "acct_"@;
    &&& name.len() == prefix.len() + 32
    &&& name.take(prefix.len() as int) == prefix
    &&& forall|i: int| prefix.len() <= i < name.len() ==> is_hex_digit(#[trigger] name[i])
}

/// A new name for an account, drawn at random.
pub fn new_account_name() -> (name: String)
    ensures
        is_account_name(name@),
{
    let mut name = "acct_".to_owned();
    let drawn = new_simple_uuid();
    name.append(drawn.as_str());
    proof {
        let prefix = "acct_"@;
        assert(name@ == prefix + drawn@);
        assert(name@.take(prefix.len() as int) =~= prefix);
        assert forall|i: int| prefix.len() <= i < name@.len() implies is_hex_digit(
            #[trigger] name@[i],
        ) by {
            assert(name@[i] == drawn@[i - prefix.len()]);
        }
    }
    name
}

/// Every one of several credentials can be kept.
pub open spec fn can_be_created(accounts: Seq<CredentialFacts>) -> bool {
    0 < accounts.len() <= MAX_ACCOUNTS && forall|i: int|
        0 <= i < accounts.len() ==> are_facts(#[trigger] accounts[i]) && has_moments(accounts[i])
}

/// The accounts that are created with several credentials, under new names.
pub fn prepare_created_credentials(
    accounts: Vec<CredentialFacts>,
    kind: &str,
    proxy: &Option<String>,
    observed_at_ms: i64,
) -> (result: Result<Vec<PreparedCredentialCreate>, ProviderAdminError>)
    ensures
        match result {
            Ok(created) => can_be_created(accounts@) && created@.len() == accounts@.len()
                && forall|i: int|
                0 <= i < created@.len() ==> is_created(
                    #[trigger] created@[i],
                    accounts@[i],
                    kind@,
                    *proxy,
                    observed_at_ms,
                ) && is_account_name(created@[i].account_id@),
            Err(error) => !can_be_created(accounts@) && error == admin(
                ProviderAdminErrorKind::Invalid,
            ),
        },
{
    if accounts.len() == 0 || accounts.len() > MAX_ACCOUNTS {
        return Err(invalid());
    }
    let mut created: Vec<PreparedCredentialCreate> = Vec::new();
    let mut rest = accounts;
    let total = rest.len();
    let mut i: usize = 0;
    while i < total
        invariant
            i <= total,
            total == accounts@.len(),
            0 < total <= MAX_ACCOUNTS,
            rest@ == accounts@.skip(i as int),
            created@.len() == i,
            forall|j: int|
                0 <= j < i ==> is_created(
                    #[trigger] created@[j],
                    accounts@[j],
                    kind@,
                    *proxy,
                    observed_at_ms,
                ) && is_account_name(created@[j].account_id@),
            forall|j: int|
                0 <= j < i ==> are_facts(#[trigger] accounts@[j]) && has_moments(accounts@[j]),
        decreases total - i,
    {
        let facts = rest.remove(0);
        assert(facts == accounts@[i as int]);
        assert(rest@ =~= accounts@.skip(i + 1));
        match create_credential(facts, new_account_name(), kind, proxy, observed_at_ms) {
            Ok(account) => created.push(account),
            Err(error) => {
                assert(!(are_facts(accounts@[i as int]) && has_moments(accounts@[i as int])));
                return Err(error);
            },
        }
        i = i + 1;
    }
    Ok(created)
}

/// Takes the credentials that a plugin answered to an import or a login. `state` is how far the requests
/// of the call went.
pub fn take_created(
    operation: ProviderOperation,
    state: UpstreamSendState,
    accounts: Vec<CredentialFacts>,
    kind: &str,
    proxy: &Option<String>,
    observed_at_ms: i64,
) -> (result: Result<Vec<PreparedCredentialCreate>, ProviderAdminError>)
    ensures
        match result {
            Ok(created) => can_be_created(accounts@) && created@.len() == accounts@.len()
                && forall|i: int|
                0 <= i < created@.len() ==> is_created(
                    #[trigger] created@[i],
                    accounts@[i],
                    kind@,
                    *proxy,
                    observed_at_ms,
                ) && is_account_name(created@[i].account_id@),
            Err(error) => !can_be_created(accounts@) && error == unusable(operation, state),
        },
{
    match prepare_created_credentials(accounts, kind, proxy, observed_at_ms) {
        Ok(created) => Ok(created),
        Err(_) => Err(unusable_answer(operation, state)),
    }
}

/// An operation may be asked for.
pub fn ensure_operation(
    operations: &Vec<CredentialOperation>,
    operation: CredentialOperation,
) -> (result: Result<(), ProviderAdminError>)
    ensures
        result == (if operations@.contains(operation) {
            Ok::<(), ProviderAdminError>(())
        } else {
            Err(admin(ProviderAdminErrorKind::Unsupported))
        }),
{
    if has_credential_operation(operations, operation) {
        Ok(())
    } else {
        Err(unsupported())
    }
}

/// An account that is to be exported, with its credential.
pub struct ExportInput {
    pub account: ProviderAccount,
    pub provider_material: Vec<(String, Json)>,
}

/// An account that is given to a plugin for export.
pub struct ExportCredential {
    pub account_id: String,
    pub credential_revision: u64,
    pub facts: CredentialFacts,
}

/// What is given to a plugin of an account and its credential.
pub open spec fn known_facts(
    account: ProviderAccount,
    material: Vec<(String, Json)>,
) -> CredentialFacts {
    CredentialFacts {
        name: account.name,
        authentication_kind: account.authentication_kind,
        material,
        email: account.email,
        upstream_user_id: account.upstream_user_id,
        upstream_account_id: account.upstream_account_id,
        plan_type: account.plan_type,
        has_refresh_token: account.has_refresh_token,
        access_token_expires_at_ms: account.access_token_expires_at_ms,
        next_refresh_at_ms: account.next_refresh_at_ms,
    }
}

/// An account as it is given to a plugin.
pub open spec fn exported(account: ProviderAccount, material: Vec<(String, Json)>) ->
    ExportCredential {
    ExportCredential {
        account_id: account.id,
        credential_revision: account.revision,
        facts: known_facts(account, material),
    }
}

/// Gives an account and its credential to a plugin.
pub fn export_credential(account: ProviderAccount, material: Vec<(String, Json)>) -> (given:
    ExportCredential)
    ensures
        given == exported(account, material),
{
    ExportCredential {
        account_id: account.id,
        credential_revision: account.revision,
        facts: CredentialFacts {
            name: account.name,
            authentication_kind: account.authentication_kind,
            material,
            email: account.email,
            upstream_user_id: account.upstream_user_id,
            upstream_account_id: account.upstream_account_id,
            plan_type: account.plan_type,
            has_refresh_token: account.has_refresh_token,
            access_token_expires_at_ms: account.access_token_expires_at_ms,
            next_refresh_at_ms: account.next_refresh_at_ms,
        },
    }
}

/// What is wrong with an export.
pub open spec fn export_fault(
    inputs: Seq<ExportInput>,
    operations: Seq<CredentialOperation>,
    kind: Seq<char>,
) -> Option<ProviderAdminErrorKind> {
    if !operations.contains(CredentialOperation::Export) {
        Some(ProviderAdminErrorKind::Unsupported)
    } else if inputs.len() == 0 || inputs.len() > MAX_ACCOUNTS || exists|i: int|
        0 <= i < inputs.len() && (#[trigger] inputs[i]).account.provider@ != kind {
        Some(ProviderAdminErrorKind::Invalid)
    } else {
        None
    }
}

/// The accounts that are given to a plugin for export.
pub fn prepare_export(
    inputs: Vec<ExportInput>,
    operations: &Vec<CredentialOperation>,
    kind: &str,
) -> (result: Result<Vec<ExportCredential>, ProviderAdminError>)
    ensures
        is_export(inputs@, operations@, kind@, result),
{
    match ensure_operation(operations, CredentialOperation::Export) {
        Ok(()) => {},
        Err(error) => return Err(error),
    }
    if inputs.len() == 0 || inputs.len() > MAX_ACCOUNTS {
        return Err(invalid());
    }
    let mut documents: Vec<ExportCredential> = Vec::new();
    let mut rest = inputs;
    let total = rest.len();
    let mut i: usize = 0;
    while i < total
        invariant
            i <= total,
            total == inputs@.len(),
            0 < total <= MAX_ACCOUNTS,
            operations@.contains(CredentialOperation::Export),
            rest@ == inputs@.skip(i as int),
            documents@.len() == i,
            forall|j: int|
                0 <= j < i ==> #[trigger] documents@[j] == exported(
                    inputs@[j].account,
                    inputs@[j].provider_material,
                ),
            forall|j: int| 0 <= j < i ==> (#[trigger] inputs@[j]).account.provider@ == kind@,
        decreases total - i,
    {
        let input = rest.remove(0);
        assert(input == inputs@[i as int]);
        assert(rest@ =~= inputs@.skip(i + 1));
        if !same(input.account.provider.as_str(), kind) {
            assert(inputs@[i as int].account.provider@ != kind@);
            return Err(invalid());
        }
        documents.push(export_credential(input.account, input.provider_material));
        i = i + 1;
    }
    Ok(documents)
}

/// The document that a plugin answered to an export: its own result is empty, and its payload holds
/// an object.
pub fn exported_document(result: &Json, payload: &Vec<u8>) -> (document: Result<
    Vec<(String, Json)>,
    ProviderAdminError,
>)
    ensures
        is_exported_document(result@, payload@, document),
{
    if !result.is_empty_object() {
        return Err(invalid());
    }
    match decode(payload.as_slice()) {
        Some(Json::Object(members)) => Ok(members),
        _ => Err(invalid()),
    }
}

/// What is given to a plugin of a credential that was just created is what the plugin said of it.
pub proof fn created_is_exported_as_said(
    created: PreparedCredentialCreate,
    facts: CredentialFacts,
    account: ProviderAccount,
    kind: Seq<char>,
    proxy: Option<String>,
    observed_at_ms: i64,
)
    requires
        is_created(created, facts, kind, proxy, observed_at_ms),
        account.name == created.name,
        account.email == created.email,
        account.authentication_kind == created.authentication_kind,
        account.upstream_user_id == created.upstream_user_id,
        account.upstream_account_id == created.upstream_account_id,
        account.plan_type == created.plan_type,
        account.has_refresh_token == created.has_refresh_token,
        account.access_token_expires_at_ms == created.access_token_expires_at_ms,
        account.next_refresh_at_ms == created.next_refresh_at_ms,
    ensures
        exported(account, created.provider_material).facts == facts,
{
}

/// What a plugin says of a credential can be kept exactly if its name is a plain text of at most 200
/// bytes, its kind one of at most 64, whatever else is said one of at most 1024, and there is a
/// credential.
pub proof fn facts_in_order(facts: CredentialFacts)
    ensures
        are_facts(facts) <==> {
            &&& is_plain_text(facts.name@, 200)
            &&& is_plain_text(facts.authentication_kind@, 64)
            &&& facts.email is Some ==> is_plain_text(facts.email->0@, 1024)
            &&& facts.upstream_user_id is Some ==> is_plain_text(facts.upstream_user_id->0@, 1024)
            &&& facts.upstream_account_id is Some ==> is_plain_text(
                facts.upstream_account_id->0@,
                1024,
            )
            &&& facts.plan_type is Some ==> is_plain_text(facts.plan_type->0@, 1024)
            &&& facts.material@.len() > 0
        },
{
}

/// A new account is usable at once: it is switched on, ready, and of the provider; every fact of it
/// is one that the plugin said, so that two accounts that are alike came of facts that are.
pub proof fn created_as_said(
    created: PreparedCredentialCreate,
    facts: CredentialFacts,
    kind: Seq<char>,
    proxy: Option<String>,
    observed_at_ms: i64,
)
    requires
        is_created(created, facts, kind, proxy, observed_at_ms),
    ensures
        created.enabled && created.credential_state is Ready,
        created.credential_observed_at_ms == observed_at_ms,
        created.provider_kind@ == kind,
        created.outbound_proxy == proxy,
        facts == (CredentialFacts {
            name: created.name,
            authentication_kind: created.authentication_kind,
            material: created.provider_material,
            email: created.email,
            upstream_user_id: created.upstream_user_id,
            upstream_account_id: created.upstream_account_id,
            plan_type: created.plan_type,
            has_refresh_token: created.has_refresh_token,
            access_token_expires_at_ms: created.access_token_expires_at_ms,
            next_refresh_at_ms: created.next_refresh_at_ms,
        }),
{
}

/// What is given to a plugin of an account is what is on record of it, and its credential; two
/// accounts of which the same is given agree in all of it.
pub proof fn exported_as_recorded(
    a: ProviderAccount,
    b: ProviderAccount,
    a_material: Vec<(String, Json)>,
    b_material: Vec<(String, Json)>,
)
    ensures
        exported(a, a_material) == exported(b, b_material) <==> {
            &&& a.id == b.id
            &&& a.revision == b.revision
            &&& a.name == b.name
            &&& a.authentication_kind == b.authentication_kind
            &&& a.email == b.email
            &&& a.upstream_user_id == b.upstream_user_id
            &&& a.upstream_account_id == b.upstream_account_id
            &&& a.plan_type == b.plan_type
            &&& a.has_refresh_token == b.has_refresh_token
            &&& a.access_token_expires_at_ms == b.access_token_expires_at_ms
            &&& a.next_refresh_at_ms == b.next_refresh_at_ms
            &&& a_material == b_material
        },
        exported(a, a_material).account_id == a.id,
        exported(a, a_material).credential_revision == a.revision,
        exported(a, a_material).facts.material == a_material,
        exported(a, a_material).facts.name == a.name,
        exported(a, a_material).facts.authentication_kind == a.authentication_kind,
        exported(a, a_material).facts.email == a.email,
        exported(a, a_material).facts.upstream_user_id == a.upstream_user_id,
        exported(a, a_material).facts.upstream_account_id == a.upstream_account_id,
        exported(a, a_material).facts.plan_type == a.plan_type,
        exported(a, a_material).facts.has_refresh_token == a.has_refresh_token,
        exported(a, a_material).facts.access_token_expires_at_ms == a.access_token_expires_at_ms,
        exported(a, a_material).facts.next_refresh_at_ms == a.next_refresh_at_ms,
{
}

/// Accounts are exported exactly if the plugin exports, there are 1 to 200 of them, and each is of
/// the provider.
pub proof fn exports_in_order(
    inputs: Seq<ExportInput>,
    operations: Seq<CredentialOperation>,
    kind: Seq<char>,
)
    ensures
        export_fault(inputs, operations, kind) is None <==> operations.contains(
            CredentialOperation::Export,
        ) && 1 <= inputs.len() <= 200 && forall|i: int|
            0 <= i < inputs.len() ==> (#[trigger] inputs[i]).account.provider@ == kind,
        !operations.contains(CredentialOperation::Export) ==> export_fault(inputs, operations, kind)
            == Some(ProviderAdminErrorKind::Unsupported),
        operations.contains(CredentialOperation::Export) && export_fault(inputs, operations, kind)
            is Some ==> export_fault(inputs, operations, kind) == Some(
            ProviderAdminErrorKind::Invalid,
        ),
{
}

/// Accounts are created all or none: 1 to 200 of them, each of which can be.
pub proof fn created_all_or_none(accounts: Seq<CredentialFacts>)
    ensures
        can_be_created(accounts) <==> 1 <= accounts.len() <= 200 && forall|i: int|
            0 <= i < accounts.len() ==> are_facts(#[trigger] accounts[i]) && is_optional_moment(
                accounts[i].access_token_expires_at_ms,
            ) && is_optional_moment(accounts[i].next_refresh_at_ms),
{
    assert forall|i: int| 0 <= i < accounts.len() implies has_moments(#[trigger] accounts[i]) == (
    is_optional_moment(accounts[i].access_token_expires_at_ms) && is_optional_moment(
        accounts[i].next_refresh_at_ms,
    )) by {}
}

/// The name of an account is `acct_` and thirty-two lower-case hexadecimal digits.
pub proof fn account_names(name: Seq<char>)
    ensures
        is_account_name(name) <==> name.len() == 37 && name[0] == 'a' && name[1] == 'c' && name[2]
            == 'c' && name[3] == 't' && name[4] == '_' && forall|i: int|
            5 <= i < 37 ==> '0' <= (#[trigger] name[i]) <= '9' || 'a' <= name[i] <= 'f',
{
    reveal_strlit("acct_");
    let prefix = "acct_"@;
    assert(prefix.len() == 5);
    if is_account_name(name) {
        assert(name.take(5)[0] == prefix[0] && name.take(5)[1] == prefix[1] && name.take(5)[2]
            == prefix[2] && name.take(5)[3] == prefix[3] && name.take(5)[4] == prefix[4]);
        assert forall|i: int| 5 <= i < 37 implies '0' <= (#[trigger] name[i]) <= '9' || 'a' <= name[i]
            <= 'f' by {
            assert(is_hex_digit(name[i]));
        }
    }
    if name.len() == 37 && name[0] == 'a' && name[1] == 'c' && name[2] == 'c' && name[3] == 't'
        && name[4] == '_' {
        assert(name.take(5) =~= prefix);
    }
}

/// What is handed out when credentials are exported.
pub open spec fn is_export(
    inputs: Seq<ExportInput>,
    operations: Seq<CredentialOperation>,
    kind: Seq<char>,
    result: Result<Vec<ExportCredential>, ProviderAdminError>,
) -> bool {
    match export_fault(inputs, operations, kind) {
        Some(fault) => result matches Err(error) && error == admin(fault),
        None => result matches Ok(documents) && documents@.len() == inputs.len() && forall|i: int|
            0 <= i < documents@.len() ==> #[trigger] documents@[i] == exported(
                inputs[i].account,
                inputs[i].provider_material,
            ),
    }
}

/// The document that the plugin makes of exported credentials.
pub open spec fn is_exported_document(
    answer: JsonView,
    payload: Seq<u8>,
    document: Result<Vec<(String, Json)>, ProviderAdminError>,
) -> bool {
    match parsed_json(payload) {
        Some(JsonView::Object(members)) if answer == JsonView::Object(Map::empty()) => document
            matches Ok(found) && members_view(found@) == members,
        _ => document matches Err(error) && error == admin(ProviderAdminErrorKind::Invalid),
    }
}

/// All accounts are exported or none is, each at its place and with the credential that belongs to it.
pub proof fn exported_each_at_its_place(
    inputs: Seq<ExportInput>,
    operations: Seq<CredentialOperation>,
    kind: Seq<char>,
    result: Result<Vec<ExportCredential>, ProviderAdminError>,
    i: int,
)
    requires
        is_export(inputs, operations, kind, result),
        0 <= i < inputs.len(),
    ensures
        result is Ok <==> operations.contains(CredentialOperation::Export) && inputs.len() <= 200 && (
        forall|k: int| 0 <= k < inputs.len() ==> (#[trigger] inputs[k]).account.provider@ == kind),
        result matches Ok(documents) ==> documents@.len() == inputs.len() && documents@[i].account_id
            == inputs[i].account.id && documents@[i].credential_revision == inputs[i].account.revision
            && documents@[i].facts.material == inputs[i].provider_material && documents@[i].facts.name
            == inputs[i].account.name,
{
    exports_in_order(inputs, operations, kind);
    if let Ok(documents) = result {
        assert(documents@[i] == exported(inputs[i].account, inputs[i].provider_material));
        exported_as_recorded(
            inputs[i].account,
            inputs[i].account,
            inputs[i].provider_material,
            inputs[i].provider_material,
        );
    }
}

/// What the plugin makes of exported credentials is passed on as it is, if it is an object and nothing
/// else was said.
pub proof fn documents_as_made(
    answer: JsonView,
    payload: Seq<u8>,
    document: Result<Vec<(String, Json)>, ProviderAdminError>,
)
    requires
        is_exported_document(answer, payload, document),
    ensures
        document is Ok <==> answer == JsonView::Object(Map::empty()) && (parsed_json(payload)
            matches Some(made) && made is Object),
        document matches Ok(found) ==> parsed_json(payload) == Some(
            JsonView::Object(members_view(found@)),
        ),
        document matches Err(error) ==> error.kind is Invalid,
{
}

} // verus!
