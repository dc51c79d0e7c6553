//! What can be done with the accounts of a provider, as it is shown to people. That something is
//! shown does not stand in for the checks when it is done.

use vstd::prelude::*;

use crate::json::{put, Json, JsonView};
use crate::manifest::{has_account_operation, AccountOperation};

verus! {

/// A provider and what can be done with its credentials.
pub struct ProviderCredentialDescriptor {
    pub provider: String,
    pub capabilities: ProviderCredentialCapabilities,
}

/// What can be done with an account.
#[derive(Debug, Clone, Copy, PartialEq, Eq, Structural)]
pub struct ProviderAccountCapabilities {
    pub quota: bool,
    pub quota_refresh: bool,
    pub profile: bool,
    pub subscription: bool,
    pub avatar: bool,
    pub reset_credits: bool,
    pub consume_reset_credit: bool,
}

impl Default for ProviderAccountCapabilities {
    fn default() -> (capabilities: Self)
        ensures
            capabilities == (ProviderAccountCapabilities {
                quota: false,
                quota_refresh: false,
                profile: false,
                subscription: false,
                avatar: false,
                reset_credits: false,
                consume_reset_credit: false,
            }),
    {
        ProviderAccountCapabilities {
            quota: false,
            quota_refresh: false,
            profile: false,
            subscription: false,
            avatar: false,
            reset_credits: false,
            consume_reset_credit: false,
        }
    }
}

/// What can be done with the accounts of a provider that reports quotas or not and declares some
/// operations.
pub fn account_capabilities(quota_enabled: bool, operations: &Vec<AccountOperation>) -> (capabilities:
    ProviderAccountCapabilities)
    ensures
        capabilities == offered(quota_enabled, operations@),
{
    ProviderAccountCapabilities {
        quota: quota_enabled,
        quota_refresh: quota_enabled,
        profile: has_account_operation(operations, AccountOperation::Profile),
        subscription: has_account_operation(operations, AccountOperation::Subscription),
        avatar: has_account_operation(operations, AccountOperation::Avatar),
        reset_credits: has_account_operation(operations, AccountOperation::ResetCredits),
        consume_reset_credit: has_account_operation(
            operations,
            AccountOperation::ConsumeResetCredit,
        ),
    }
}

/// What can be done with the credentials of a provider: the form for each kind of input, where there
/// is one.
pub struct ProviderCredentialCapabilities {
    pub import: Option<Json>,
    pub login: Option<ProviderLoginCapability>,
    pub refresh: bool,
    pub export: bool,
}

impl Default for ProviderCredentialCapabilities {
    fn default() -> (capabilities: Self)
        ensures
            capabilities == (ProviderCredentialCapabilities {
                import: None,
                login: None,
                refresh: false,
                export: false,
            }),
    {
        ProviderCredentialCapabilities { import: None, login: None, refresh: false, export: false }
    }
}

/// How a login starts and ends.
pub struct ProviderLoginCapability {
    pub input_schema: Json,
    pub completion: AuthorizationCompletion,
}

/// How a login ends.
#[derive(Debug, Clone, Copy, PartialEq, Eq, Structural)]
pub enum AuthorizationCompletion {
    Callback,
    Poll,
}

/// A provider and what can be done with its credentials, as it is shown.
pub struct AccountProviderData {
    pub provider: String,
    pub credentials: AccountCredentialCapabilitiesData,
}

/// What can be done with the credentials of a provider, as it is shown.
pub struct AccountCredentialCapabilitiesData {
    pub import: Option<Json>,
    pub login: Option<AccountLoginCapabilityData>,
    pub refresh: bool,
    pub export: bool,
}

/// How a login starts and ends, as it is shown.
pub struct AccountLoginCapabilityData {
    pub input_schema: Json,
    pub completion: AccountAuthorizationCompletion,
}

/// How a login ends, as it is shown.
#[derive(Debug, Clone, Copy, PartialEq, Eq, Structural)]
pub enum AccountAuthorizationCompletion {
    Callback,
    Poll,
}

/// How the end of a login is shown.
pub open spec fn shown_completion(completion: AuthorizationCompletion) ->
    AccountAuthorizationCompletion {
    match completion {
        AuthorizationCompletion::Callback => AccountAuthorizationCompletion::Callback,
        AuthorizationCompletion::Poll => AccountAuthorizationCompletion::Poll,
    }
}

/// How a provider is shown.
pub open spec fn shown_provider(value: ProviderCredentialDescriptor) -> AccountProviderData {
    AccountProviderData {
        provider: value.provider,
        credentials: AccountCredentialCapabilitiesData {
            import: value.capabilities.import,
            login: match value.capabilities.login {
                Some(login) => Some(
                    AccountLoginCapabilityData {
                        input_schema: login.input_schema,
                        completion: shown_completion(login.completion),
                    },
                ),
                None => None,
            },
            refresh: value.capabilities.refresh,
            export: value.capabilities.export,
        },
    }
}

impl vstd::std_specs::convert::FromSpecImpl<ProviderCredentialDescriptor> for AccountProviderData {
    open spec fn obeys_from_spec() -> bool {
        true
    }

    open spec fn from_spec(value: ProviderCredentialDescriptor) -> Self {
        shown_provider(value)
    }
}

impl From<ProviderCredentialDescriptor> for AccountProviderData {
    fn from(value: ProviderCredentialDescriptor) -> (data: Self) {
        let capabilities = value.capabilities;
        AccountProviderData {
            provider: value.provider,
            credentials: AccountCredentialCapabilitiesData {
                import: capabilities.import,
                login: match capabilities.login {
                    Some(login) => Some(
                        AccountLoginCapabilityData {
                            input_schema: login.input_schema,
                            completion: match login.completion {
                                AuthorizationCompletion::Callback => {
                                    AccountAuthorizationCompletion::Callback
                                },
                                AuthorizationCompletion::Poll => {
                                    AccountAuthorizationCompletion::Poll
                                },
                            },
                        },
                    ),
                    None => None,
                },
                refresh: capabilities.refresh,
                export: capabilities.export,
            },
        }
    }
}

/// The name under which the end of a login is shown.
pub open spec fn completion_name(completion: AccountAuthorizationCompletion) -> Seq<char> {
    match completion {
        AccountAuthorizationCompletion::Callback => "callback"@,
        AccountAuthorizationCompletion::Poll => "poll"@,
    }
}

/// The document of a form that may be missing.
pub open spec fn form_document(form: Option<Json>) -> JsonView {
    match form {
        Some(form) => form@,
        None => JsonView::Null,
    }
}

/// The document of a login.
pub open spec fn login_document(login: Option<AccountLoginCapabilityData>) -> JsonView {
    match login {
        Some(login) => JsonView::Object(
            Map::empty().insert("inputSchema"@, login.input_schema@).insert(
                "completion"@,
                JsonView::Text(completion_name(login.completion)),
            ),
        ),
        None => JsonView::Null,
    }
}

/// The document of what can be done with the credentials of a provider.
pub open spec fn credentials_document(data: AccountCredentialCapabilitiesData) -> JsonView {
    JsonView::Object(
        Map::empty().insert("import"@, form_document(data.import)).insert(
            "login"@,
            login_document(data.login),
        ).insert("refresh"@, JsonView::Bool(data.refresh)).insert(
            "export"@,
            JsonView::Bool(data.export),
        ),
    )
}

/// The document of a provider.
pub open spec fn provider_document(data: AccountProviderData) -> JsonView {
    JsonView::Object(
        Map::empty().insert("provider"@, JsonView::Text(data.provider@)).insert(
            "credentials"@,
            credentials_document(data.credentials),
        ),
    )
}

impl AccountAuthorizationCompletion {
    pub fn name(self) -> (name: &'static str)
        ensures
            name@ == completion_name(self),
    {
        match self {
            AccountAuthorizationCompletion::Callback => "callback",
            AccountAuthorizationCompletion::Poll => "poll",
        }
    }
}

impl AccountCredentialCapabilitiesData {
    fn into_json(self) -> (json: Json)
        ensures
            json@ == credentials_document(self),
    {
        let mut members: Vec<(String, Json)> = Vec::new();
        put(
            &mut members,
            "import",
            match self.import {
                Some(form) => form,
                None => Json::Null,
            },
        );
        put(
            &mut members,
            "login",
            match self.login {
                Some(login) => {
                    let mut shown: Vec<(String, Json)> = Vec::new();
                    put(&mut shown, "inputSchema", login.input_schema);
                    put(&mut shown, "completion", Json::text(login.completion.name()));
                    Json::Object(shown)
                },
                None => Json::Null,
            },
        );
        put(&mut members, "refresh", Json::Bool(self.refresh));
        put(&mut members, "export", Json::Bool(self.export));
        Json::Object(members)
    }
}

impl AccountProviderData {
    /// The document in which a provider is shown.
    pub fn into_json(self) -> (json: Json)
        ensures
            json@ == provider_document(self),
    {
        let mut members: Vec<(String, Json)> = Vec::new();
        put(&mut members, "provider", Json::Text(self.provider));
        put(&mut members, "credentials", self.credentials.into_json());
        Json::Object(members)
    }
}

/// The forms and the way in which a login ends reach the people who use them unchanged.
pub proof fn shown_as_declared(value: ProviderCredentialDescriptor)
    ensures
        shown_provider(value).credentials.import == value.capabilities.import,
        value.capabilities.login matches Some(login) ==> (shown_provider(value).credentials.login
            matches Some(shown) && shown.input_schema == login.input_schema && completion_name(
            shown.completion,
        ) == (if login.completion == AuthorizationCompletion::Callback {
            "callback"@
        } else {
            "poll"@
        })),
        value.capabilities.login is None ==> login_document(
            shown_provider(value).credentials.login,
        ) == JsonView::Null,
{
}

/// A provider is shown under its name with what can be done with its credentials, and a login is
/// shown exactly if there is one.
pub proof fn provider_is_shown(value: ProviderCredentialDescriptor)
    ensures
        shown_provider(value).provider == value.provider,
        shown_provider(value).credentials.refresh == value.capabilities.refresh,
        shown_provider(value).credentials.export == value.capabilities.export,
        shown_provider(value).credentials.login is Some <==> value.capabilities.login is Some,
        value.capabilities.login is Some ==> (shown_provider(value).credentials.login->0.completion
            is Poll <==> value.capabilities.login->0.completion is Poll),
{
}

/// The document of a provider says its name and what can be done with its credentials, and nothing
/// more: the form of an import, whether it can be refreshed and exported, and of a login its form and
/// how it ends; what there is not stands as null.
pub proof fn provider_document_says(data: AccountProviderData)
    ensures
        provider_document(data) matches JsonView::Object(shown) && shown.dom() == set![
            "provider"@,
            "credentials"@,
        ] && shown["provider"@] == JsonView::Text(data.provider@) && (shown["credentials"@]
            matches JsonView::Object(can) && can.dom() == set![
            "import"@,
            "login"@,
            "refresh"@,
            "export"@,
        ] && can["refresh"@] == JsonView::Bool(data.credentials.refresh) && can["export"@]
            == JsonView::Bool(data.credentials.export) && (data.credentials.import is None
            ==> can["import"@] == JsonView::Null) && (data.credentials.import is Some
            ==> can["import"@] == data.credentials.import->0@) && (data.credentials.login is None
            ==> can["login"@] == JsonView::Null) && (data.credentials.login is Some
            ==> can["login"@] == login_document(data.credentials.login))),
        data.credentials.login is Some ==> (login_document(data.credentials.login)
            matches JsonView::Object(login) && login.dom() == set!["inputSchema"@, "completion"@]
            && login["inputSchema"@] == data.credentials.login->0.input_schema@
            && login["completion"@] == JsonView::Text(
            if data.credentials.login->0.completion is Poll {
                "poll"@
            } else {
                "callback"@
            },
        )),
{
    reveal_strlit("provider");
    reveal_strlit("credentials");
    reveal_strlit("import");
    reveal_strlit("login");
    reveal_strlit("refresh");
    reveal_strlit("export");
    reveal_strlit("inputSchema");
    reveal_strlit("completion");
    assert("provider"@.len() == 8 && "credentials"@.len() == 11);
    assert("import"@.len() == 6 && "login"@.len() == 5 && "refresh"@.len() == 7 && "export"@.len()
        == 6);
    assert("export"@[0] != "import"@[0]);
    assert("inputSchema"@.len() == 11 && "completion"@.len() == 10);
    let shown = provider_document(data)->Object_0;
    assert(shown.dom() =~= set!["provider"@, "credentials"@]);
    let can = credentials_document(data.credentials)->Object_0;
    assert(can.dom() =~= set!["import"@, "login"@, "refresh"@, "export"@]);
    if data.credentials.login is Some {
        let login = login_document(data.credentials.login)->Object_0;
        assert(login.dom() =~= set!["inputSchema"@, "completion"@]);
    }
}

/// What can be done with the accounts of a provider.
pub open spec fn offered(
    quota_enabled: bool,
    operations: Seq<AccountOperation>,
) -> ProviderAccountCapabilities {
    ProviderAccountCapabilities {
        quota: quota_enabled,
        quota_refresh: quota_enabled,
        profile: operations.contains(AccountOperation::Profile),
        subscription: operations.contains(AccountOperation::Subscription),
        avatar: operations.contains(AccountOperation::Avatar),
        reset_credits: operations.contains(AccountOperation::ResetCredits),
        consume_reset_credit: operations.contains(AccountOperation::ConsumeResetCredit),
    }
}

/// With each operation that is declared, just the one thing can be done that the operation is for.
pub proof fn offered_one_by_one(
    quota_enabled: bool,
    operations: Seq<AccountOperation>,
    added: AccountOperation,
)
    ensures
        ({
            let few = offered(quota_enabled, operations);
            let more = offered(quota_enabled, operations.push(added));
            &&& few.quota == quota_enabled && few.quota_refresh == quota_enabled
            &&& more.quota == few.quota && more.quota_refresh == few.quota_refresh
            &&& more.profile <==> few.profile || added is Profile
            &&& more.subscription <==> few.subscription || added is Subscription
            &&& more.avatar <==> few.avatar || added is Avatar
            &&& more.reset_credits <==> few.reset_credits || added is ResetCredits
            &&& more.consume_reset_credit <==> few.consume_reset_credit || added is ConsumeResetCredit
        }),
        ({
            let none = offered(quota_enabled, Seq::empty());
            !none.profile && !none.subscription && !none.avatar && !none.reset_credits
                && !none.consume_reset_credit
        }),
{
    let more = operations.push(added);
    assert(more[operations.len() as int] == added);
    assert forall|operation: AccountOperation| #[trigger] more.contains(operation)
        <==> operations.contains(operation) || operation == added by {
        if operations.contains(operation) {
            let i = choose|i: int| 0 <= i < operations.len() && operations[i] == operation;
            assert(more[i] == operation);
        }
        if more.contains(operation) {
            let i = choose|i: int| 0 <= i < more.len() && more[i] == operation;
            if i < operations.len() {
                assert(operations[i] == operation);
            }
        }
    }
}

} // verus!
