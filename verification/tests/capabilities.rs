use gateway_plugin::json::{decode, Json};
use gateway_plugin::manifest::AccountOperation;
use gateway_plugin::provider_capabilities::{
    account_capabilities, AccountProviderData, AuthorizationCompletion, ProviderAccountCapabilities,
    ProviderCredentialCapabilities, ProviderCredentialDescriptor, ProviderLoginCapability,
};

fn document(text: &str) -> Json {
    decode(text.as_bytes()).expect("a JSON document")
}

fn parsed(json: &Json) -> serde_json::Value {
    let bytes = gateway_plugin::json::encode(json).expect("writable document");
    serde_json::from_slice(&bytes).expect("a JSON document")
}

#[test]
fn schema_and_completion_mode_are_preserved_in_the_api_contract() {
    let schema = r#"{"type":"object", "properties":{"code":{"type":"string", "writeOnly":true}}, "required":["code"]}"#;
    for (completion, expected) in [
        (AuthorizationCompletion::Callback, "callback"),
        (AuthorizationCompletion::Poll, "poll"),
    ] {
        let data = AccountProviderData::from(ProviderCredentialDescriptor {
            provider: "custom".to_owned(),
            capabilities: ProviderCredentialCapabilities {
                login: Some(ProviderLoginCapability {
                    input_schema: document(schema),
                    completion,
                }),
                ..Default::default()
            },
        });
        let value = parsed(&data.into_json());
        let wanted: serde_json::Value = serde_json::from_str(&format!(
            r#"{{"inputSchema":{schema}, "completion":"{expected}"}}"#
        ))
        .expect("a JSON document");
        assert_eq!(value["credentials"]["login"], wanted);
    }
}

#[test]
fn what_is_not_declared_is_not_shown() {
    let data = AccountProviderData::from(ProviderCredentialDescriptor {
        provider: "openai".to_owned(),
        capabilities: ProviderCredentialCapabilities::default(),
    });
    let wanted: serde_json::Value = serde_json::from_str(
        r#"{"provider":"openai", "credentials":{"import":null,"login":null,"refresh":false,"export":false}}"#,
    )
    .expect("a JSON document");
    assert_eq!(parsed(&data.into_json()), wanted);
}

#[test]
fn account_capabilities_follow_the_declared_operations() {
    let shown = account_capabilities(
        true,
        &vec![AccountOperation::Profile, AccountOperation::ConsumeResetCredit],
    );
    assert_eq!(
        shown,
        ProviderAccountCapabilities {
            quota: true,
            quota_refresh: true,
            profile: true,
            subscription: false,
            avatar: false,
            reset_credits: false,
            consume_reset_credit: true,
        }
    );
    assert_eq!(account_capabilities(false, &vec![]), ProviderAccountCapabilities::default());
}
