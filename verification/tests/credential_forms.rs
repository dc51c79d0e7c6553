use gateway_plugin::account::{CredentialState, LoadedCredential, ProviderAccount};
use gateway_plugin::configuration::{
    asks_configuration, connection_configuration, contains_key_recursive, contains_sensitive_marker_recursive, loaded_as_asked,
    safe_configuration_root, safe_public_property, AccountConfigurationDescriptor,
    ConfigurationAnswer, PreparedAccountConfiguration,
};
use gateway_plugin::credential_form::{
    credential_capabilities, prepare_inputs, validate_credential_input, CredentialForms,
};
use gateway_plugin::fault::{AdminReason, ProviderAdminError, ProviderAdminErrorKind};
use gateway_plugin::json::{decode, json_eq, Json};
use gateway_plugin::manifest::CredentialOperation;

fn document(text: &str) -> Json {
    decode(text.as_bytes()).expect("a JSON document")
}

fn members(text: &str) -> Vec<(String, Json)> {
    match document(text) {
        Json::Object(members) => members,
        _ => panic!("an object is needed"),
    }
}

fn no_forms() -> CredentialForms {
    CredentialForms { import: None, rotate: None, login: None, refresh: None, export: None }
}

const CODE: &str = r#"{"type":"object","required":["code"],"properties":{"code":{"type":"string"}}}"#;

fn refusal(operations: Vec<CredentialOperation>, forms: CredentialForms) -> Option<AdminReason> {
    prepare_inputs(&operations, forms).err().map(|error| error.reason)
}

#[test]
fn forms_go_with_declared_inputs() {
    let import = vec![CredentialOperation::Import];
    assert_eq!(
        refusal(import.clone(), CredentialForms { import: Some(document(CODE)), ..no_forms() }),
        None
    );
    assert_eq!(
        refusal(import.clone(), CredentialForms { rotate: Some(document(CODE)), ..no_forms() }),
        Some(AdminReason::CredentialFormOperation)
    );
    assert_eq!(
        refusal(
            vec![CredentialOperation::Refresh],
            CredentialForms { refresh: Some(document(CODE)), ..no_forms() }
        ),
        Some(AdminReason::CredentialFormOperation)
    );
    assert_eq!(
        refusal(
            import.clone(),
            CredentialForms { import: Some(document(r#"{"type":"string"}"#)), ..no_forms() }
        ),
        Some(AdminReason::CredentialFormShape)
    );
    let long = format!(r#"{{"type":"object","title":"{}"}}"#, "x".repeat(65_536));
    assert_eq!(
        refusal(import.clone(), CredentialForms { import: Some(document(&long)), ..no_forms() }),
        Some(AdminReason::CredentialFormShape)
    );
    let outside = r#"{"type":"object","$ref":"https://example.invalid/form.json"}"#;
    assert_eq!(
        refusal(import, CredentialForms { import: Some(document(outside)), ..no_forms() }),
        Some(AdminReason::CredentialFormSchema)
    );
}

#[test]
fn inputs_are_held_to_their_form() {
    let inputs = prepare_inputs(
        &vec![CredentialOperation::Import, CredentialOperation::Login],
        CredentialForms { import: Some(document(CODE)), ..no_forms() },
    )
    .ok()
    .expect("forms");
    let kind = |operation, text: &str| {
        validate_credential_input(&inputs, operation, &members(text)).err().map(|error| error.kind)
    };
    assert_eq!(kind(CredentialOperation::Import, r#"{"code":"x"}"#), None);
    assert_eq!(
        kind(CredentialOperation::Import, r#"{"code":1}"#),
        Some(ProviderAdminErrorKind::Invalid)
    );
    assert_eq!(kind(CredentialOperation::Login, "{}"), None);
    assert_eq!(
        kind(CredentialOperation::Login, r#"{"any":1}"#),
        Some(ProviderAdminErrorKind::Invalid)
    );
    assert_eq!(
        kind(CredentialOperation::Rotate, "{}"),
        Some(ProviderAdminErrorKind::Unsupported)
    );
}

#[test]
fn capabilities_show_the_forms() {
    let operations = vec![
        CredentialOperation::Import,
        CredentialOperation::Login,
        CredentialOperation::Refresh,
    ];
    let inputs = prepare_inputs(
        &operations,
        CredentialForms { login: Some(document(CODE)), ..no_forms() },
    )
    .ok()
    .expect("forms");
    let shown = credential_capabilities(&inputs, &operations);
    assert!(json_eq(
        &shown.import.expect("a form"),
        &document(r#"{"type":"object","additionalProperties":true}"#)
    ));
    assert!(json_eq(&shown.login.expect("a login").input_schema, &document(CODE)));
    assert!(shown.refresh);
    assert!(!shown.export);
}

const ROTATE: &str = r#"{"type":"object","properties":{"region":{"type":"string"},"token":{"type":"string","writeOnly":true},"limit":{"type":"integer","minimum":1}}}"#;

fn prepared(fields: &[&str], operations: Vec<CredentialOperation>, schema: &str) -> Result<
    PreparedAccountConfiguration,
    AdminReason,
> {
    let descriptor = AccountConfigurationDescriptor {
        public_fields: fields.iter().map(|field| (*field).to_owned()).collect(),
    };
    match PreparedAccountConfiguration::prepare(
        Some(descriptor),
        &operations,
        Some(&document(schema)),
    ) {
        Ok(Some(prepared)) => Ok(prepared),
        Ok(None) => panic!("something was declared"),
        Err(error) => Err(error.reason),
    }
}

#[test]
fn only_harmless_settings_are_shown() {
    let rotate = || vec![CredentialOperation::Rotate];
    let reason = |fields: &[&str], schema: &str| prepared(fields, rotate(), schema).err();
    assert_eq!(reason(&["region", "limit"], ROTATE), None);
    assert_eq!(reason(&["token"], ROTATE), Some(AdminReason::ConfigurationFieldUnsafe));
    assert_eq!(reason(&["other"], ROTATE), Some(AdminReason::ConfigurationFieldUnsafe));
    assert_eq!(reason(&["region", "region"], ROTATE), Some(AdminReason::ConfigurationFields));
    assert_eq!(reason(&["a\nb"], ROTATE), Some(AdminReason::ConfigurationFields));
    assert_eq!(reason(&[], ROTATE), Some(AdminReason::ConfigurationOperation));
    assert_eq!(
        prepared(&["region"], vec![CredentialOperation::Import], ROTATE).err(),
        Some(AdminReason::ConfigurationOperation)
    );
    assert_eq!(
        reason(&["region"], r#"{"type":"object","allOf":[]}"#),
        Some(AdminReason::ConfigurationSchemaUnsafe)
    );
    assert_eq!(
        reason(&["region"], r#"{"type":"object"}"#),
        Some(AdminReason::ConfigurationSchemaMissing)
    );
    let broken = r#"{"type":"object","properties":{"region":{"type":"string","minLength":"x"}}}"#;
    assert_eq!(reason(&["region"], broken), Some(AdminReason::ConfigurationFieldSchema));
    assert!(matches!(
        PreparedAccountConfiguration::prepare(None, &vec![], None),
        Ok(None)
    ));
    assert!(matches!(
        PreparedAccountConfiguration::prepare(
            Some(AccountConfigurationDescriptor { public_fields: vec!["region".to_owned()] }),
            &rotate(),
            None
        ),
        Err(error) if error.reason == AdminReason::ConfigurationSchemaUnsafe
    ));
}

#[test]
fn shown_settings_are_held_to_what_is_declared() {
    let prepared = prepared(&["region", "limit"], vec![CredentialOperation::Rotate], ROTATE)
        .ok()
        .expect("settings");
    assert!(prepared.validate(&members(r#"{"region":"eu","limit":2}"#)));
    assert!(prepared.validate(&vec![]));
    assert!(!prepared.validate(&members(r#"{"token":"x"}"#)));
    assert!(!prepared.validate(&members(r#"{"limit":0}"#)));
    assert!(!prepared.validate(&vec![("region".to_owned(), Json::text(&"x".repeat(65_536)))]));
    let empty = Json::Object(vec![]);
    let shown = prepared.answered(&empty, Some(members(r#"{"region":"eu"}"#)));
    assert!(json_eq(
        &Json::Object(shown.ok().expect("settings")),
        &document(r#"{"region":"eu"}"#)
    ));
    for refused in [
        prepared.answered(&Json::Null, Some(vec![])),
        prepared.answered(&empty, None),
        prepared.answered(&empty, Some(members(r#"{"token":"x"}"#))),
    ] {
        assert_eq!(refused.err().map(|e| e.kind), Some(ProviderAdminErrorKind::BadGateway));
    }
}

#[test]
fn settings_are_shown_where_they_are_declared() {
    let declared = prepared(&["region"], vec![CredentialOperation::Rotate], ROTATE).ok();
    assert!(asks_configuration(&declared));
    assert!(!asks_configuration(&None));
    let conflict = || ProviderAdminError { kind: ProviderAdminErrorKind::Conflict };
    let told = |text: &str, kept| {
        Ok(ConfigurationAnswer {
            result: Json::Object(vec![]),
            values: Some(members(text)),
            kept,
        })
    };
    let kind = |result: Result<Option<Vec<(String, Json)>>, ProviderAdminError>| {
        result.err().map(|error| error.kind)
    };
    assert!(matches!(connection_configuration(&None, Err(conflict())), Ok(None)));
    let shown = connection_configuration(&declared, told(r#"{"region":"eu"}"#, Ok(())));
    assert_eq!(shown.ok().flatten().expect("settings").len(), 1);
    assert_eq!(
        kind(connection_configuration(&declared, told(r#"{"token":"x"}"#, Ok(())))),
        Some(ProviderAdminErrorKind::BadGateway)
    );
    for refused in [
        connection_configuration(&declared, told(r#"{"region":"eu"}"#, Err(conflict()))),
        connection_configuration(&declared, Err(conflict())),
    ] {
        assert_eq!(kind(refused), Some(ProviderAdminErrorKind::Conflict));
    }
}

#[test]
fn schemas_are_searched_to_the_bottom() {
    let nested = document(r#"{"items":[{"deep":{"$ref":"x"}}]}"#);
    assert!(contains_key_recursive(&nested, &vec!["$ref"]));
    assert!(!contains_key_recursive(&nested, &vec!["x"]));
    let marked = document(r#"{"enum":[{"a":{"format":"password"}}]}"#);
    assert!(contains_sensitive_marker_recursive(&marked));
    assert!(!contains_sensitive_marker_recursive(&document(r#"{"writeOnly":false}"#)));
    assert!(safe_public_property(&document(r#"{"type":"boolean"}"#)));
    for unsafe_property in [
        r#"{"type":"object"}"#,
        r#"{"type":"string","readOnly":true}"#,
        r#"{"type":"string","format":"password"}"#,
        r#"{"type":"string","not":{}}"#,
        "[]",
    ] {
        assert!(!safe_public_property(&document(unsafe_property)), "{unsafe_property}");
    }
    assert!(safe_configuration_root(&document(ROTATE)));
    assert!(!safe_configuration_root(&document(r#"{"type":"object","writeOnly":true}"#)));
}

#[test]
fn settings_are_those_of_the_account_that_was_asked_for() {
    let credential = LoadedCredential {
        account: ProviderAccount {
            id: "acct".to_owned(),
            provider: "custom".to_owned(),
            revision: 4,
            name: "name".to_owned(),
            email: None,
            authentication_kind: "oauth".to_owned(),
            upstream_user_id: None,
            upstream_account_id: None,
            plan_type: None,
            has_refresh_token: false,
            access_token_expires_at_ms: None,
            next_refresh_at_ms: None,
            enabled: true,
            credential_state: CredentialState::Ready,
            has_error: false,
            outbound_proxy: None,
        },
        credential: vec![],
    };
    assert!(loaded_as_asked(&credential, "acct", "custom").is_ok());
    for (id, provider) in [("other", "custom"), ("acct", "other")] {
        assert_eq!(
            loaded_as_asked(&credential, id, provider).err().map(|e| e.kind),
            Some(ProviderAdminErrorKind::Conflict)
        );
    }
}
