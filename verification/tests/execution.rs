use gateway_plugin::account::{CredentialState, LoadedCredential, ProviderAccount};
use gateway_plugin::catalog::OperationKind;
use gateway_plugin::continuation::{
    ContinuationStateDescriptor, InterpreterTarget, ProviderSessionState,
};
use gateway_plugin::credential_form::CredentialForms;
use gateway_plugin::event::ProviderEvent;
use gateway_plugin::execution::run::{
    Execution, ExecutionAction, ExecutionEvent, ExecutionPhase, ExecutionRequest,
};
use gateway_plugin::execution::{
    interrupted, known_transport, opened, prepared, remaining, wire, Attempt, CallReply, Operation,
    PreparedAttempt, PreparedExecution, ProviderHttpHeader, ProviderHttpRequest, DISCARD_TIMEOUT_MS,
};
use gateway_plugin::extensions::ExtensionCallScope;
use gateway_plugin::fault::{
    ContinuationFailure, ProviderError, ProviderErrorKind, RpcError, UpstreamSendState,
};
use gateway_plugin::json::{json_eq, Json};
use gateway_plugin::manifest::{Capability, CapabilityDeclaration, Manifest, Stage};
use gateway_plugin::provider::{
    PluginProvider, ProviderDescriptor, ProviderHttpEndpoint, ProviderHttpMethod,
    ProviderInstanceBinding,
};
use gateway_plugin::scope::{CallContext, NetworkScope};

const SECOND: u128 = 1_000_000_000;

fn provider(instance: &str, readable: Option<(u32, &[u32])>) -> PluginProvider {
    let descriptor = ProviderDescriptor {
        kind: Some("custom".to_owned()),
        models: vec![],
        exhaustive: false,
        model_discovery: None,
        credential_operations: vec![],
        credential_forms: CredentialForms {
            import: None,
            rotate: None,
            login: None,
            refresh: None,
            export: None,
        },
        account_operations: vec![],
        account_configuration: None,
        request_profiles: None,
        http_endpoints: vec![ProviderHttpEndpoint {
            id: "files".to_owned(),
            methods: vec![ProviderHttpMethod::Get],
        }],
        continuation_state: readable.map(|(write_version, versions)| ContinuationStateDescriptor {
            format: "turns".to_owned(),
            write_version,
            readable_versions: versions.to_vec(),
        }),
        billing: None,
    };
    let manifest = Manifest {
        contributes: vec![CapabilityDeclaration {
            capability: Capability::Executor,
            stages: vec![Stage::Execution],
            input_formats: vec!["responses".to_owned()],
            output_formats: vec!["responses".to_owned()],
        }],
    };
    PluginProvider::prepare(
        descriptor,
        ProviderInstanceBinding::new(
            instance.to_owned(),
            "grant".to_owned(),
            "conversations".to_owned(),
        ),
        &manifest,
        &vec!["accounts".to_owned()],
    )
    .ok()
    .expect("a provider")
}

fn credential() -> LoadedCredential {
    LoadedCredential {
        account: ProviderAccount {
            id: "acct".to_owned(),
            provider: "custom".to_owned(),
            revision: 4,
            name: "name".to_owned(),
            email: None,
            authentication_kind: "oauth".to_owned(),
            upstream_user_id: None,
            upstream_account_id: None,
            plan_type: None,
            has_refresh_token: false,
            access_token_expires_at_ms: None,
            next_refresh_at_ms: None,
            enabled: true,
            credential_state: CredentialState::Ready,
            has_error: false,
            outbound_proxy: Some("proxy".to_owned()),
        },
        credential: vec![("token".to_owned(), Json::text("t"))],
    }
}

fn attempt() -> Attempt {
    Attempt {
        request_id: "request".to_owned(),
        index: 12,
        deadline: 30 * SECOND,
        request_profile: Some(vec![("client".to_owned(), Json::text("a"))]),
    }
}

fn generate(protocol: &str) -> Operation<u8> {
    Operation::Generate {
        protocol: protocol.to_owned(),
        document: Json::Object(vec![("input".to_owned(), Json::text("hi"))]),
        context: 7,
    }
}

fn prepare(
    provider: &PluginProvider,
    operation: Operation<u8>,
    state: Option<&ProviderSessionState>,
    now: u128,
) -> Result<PreparedAttempt<u8>, ProviderError> {
    let headers = vec![ProviderHttpHeader { name: "x".to_owned(), value: vec![1] }];
    provider.prepare_operation(
        operation,
        Some("m".to_owned()),
        headers,
        &credential(),
        state,
        &attempt(),
        now,
    )
}

fn kind<T>(result: Result<T, ProviderError>) -> Option<ProviderErrorKind> {
    result.err().map(|error| {
        assert_eq!(error.send_state, UpstreamSendState::NotSent);
        error.kind
    })
}

fn http(endpoint: &str, method: ProviderHttpMethod) -> Operation<u8> {
    Operation::ProviderHttp {
        protocol: "responses".to_owned(),
        bytes: b"raw".to_vec(),
        context: 1,
        request: ProviderHttpRequest {
            endpoint: endpoint.to_owned(),
            method,
            query: Some("a=1".to_owned()),
            headers: vec![],
        },
    }
}

#[test]
fn a_plugin_is_not_entered_twice() {
    let provider = provider("instance", None);
    let scope = ExtensionCallScope::default();
    assert!(provider.begin_execution(&scope, &generate("responses")).is_ok());
    let entered = scope.extending("instance".to_owned()).expect("a new instance");
    assert_eq!(
        kind(provider.begin_execution(&entered, &generate("responses"))),
        Some(ProviderErrorKind::PermissionDenied)
    );
    assert!(provider.begin_execution(&scope, &http("files", ProviderHttpMethod::Get)).is_ok());
    for operation in
        [http("files", ProviderHttpMethod::Post), http("other", ProviderHttpMethod::Get)]
    {
        assert_eq!(
            kind(provider.begin_execution(&scope, &operation)),
            Some(ProviderErrorKind::Unsupported)
        );
    }
}

#[test]
fn requests_are_given_to_the_plugin_as_they_are() {
    let given = wire(generate("responses")).ok().expect("a request");
    assert_eq!(given.operation, OperationKind::Generate);
    assert_eq!(given.body, br#"{"input":"hi"}"#.to_vec());
    assert_eq!(given.context, 7);
    assert!(given.http_request.is_none());
    let bytes = || b"raw".to_vec();
    let protocol = || "responses".to_owned();
    for (operation, kind) in [
        (
            Operation::GenerateImage { protocol: protocol(), bytes: bytes(), context: 1 },
            OperationKind::GenerateImage,
        ),
        (
            Operation::Search { protocol: protocol(), bytes: bytes(), context: 1 },
            OperationKind::Search,
        ),
        (
            Operation::CountTokens { protocol: protocol(), bytes: bytes(), context: 1 },
            OperationKind::CountTokens,
        ),
    ] {
        let given = wire(operation).ok().expect("a request");
        assert_eq!((given.operation, given.body), (kind, bytes()));
    }
    let given = wire(http("files", ProviderHttpMethod::Get)).ok().expect("a request");
    assert_eq!(given.operation, OperationKind::ProviderHttp);
    assert_eq!(given.http_request.expect("a request").query.as_deref(), Some("a=1"));
    assert_eq!(kind(wire(Operation::<u8>::Other)), Some(ProviderErrorKind::Unsupported));
}

#[test]
fn a_step_takes_two_minutes_at_most() {
    assert_eq!(remaining(5, 2).ok(), Some(3));
    assert_eq!(remaining(1_000 * SECOND, 0).ok(), Some(120 * SECOND));
    assert_eq!(kind(remaining(5, 5)), Some(ProviderErrorKind::Timeout));
    assert_eq!(kind(remaining(5, 6)), Some(ProviderErrorKind::Timeout));
}

#[test]
fn an_attempt_may_not_act_before_it_is_active() {
    let provider = provider("instance", None);
    let mut prepared = prepare(&provider, generate("responses"), None, 10 * SECOND)
        .ok()
        .expect("an attempt");
    assert_eq!(prepared.context.stage, Stage::Attempt);
    assert_eq!(prepared.context.request_id.as_deref(), Some("request"));
    assert_eq!(prepared.context.attempt_id.as_deref(), Some("request:12"));
    assert_eq!(prepared.context.account_id.as_deref(), Some("acct"));
    assert_eq!(prepared.context.credential_revision, Some(4));
    assert_eq!(prepared.context.timeout_ms, 20_000);
    assert_eq!(prepared.scope.proxy.as_deref(), Some("proxy"));
    assert_eq!(prepared.input.model.as_deref(), Some("m"));
    assert_eq!(prepared.input.headers.len(), 1);
    assert!(prepared.input.provider_session_state.is_none());
    assert!(json_eq(
        &Json::Object(prepared.input.credential.iter().map(|m| (m.0.clone(), m.1.copy())).collect()),
        &Json::Object(credential().credential)
    ));
    let mut callback = prepared.execution_context(30 * SECOND, 10 * SECOND).ok().expect("a context");
    assert_eq!(callback.stage, Stage::Execution);
    assert!(!prepared.scope.authorizes(&callback));
    assert_eq!(
        kind(prepared.activate(30 * SECOND, 30 * SECOND)),
        Some(ProviderErrorKind::Timeout)
    );
    assert!(!prepared.scope.authorizes(&callback));
    callback = prepared.activate(30 * SECOND, 29 * SECOND).ok().expect("a context");
    assert_eq!(callback.timeout_ms, 1_000);
    assert!(prepared.scope.authorizes(&callback));
    let discard = prepared.discard_context();
    assert_eq!(discard.timeout_ms, DISCARD_TIMEOUT_MS);
    assert_eq!(discard.attempt_id.as_deref(), Some("request:12"));
}

#[test]
fn attempts_are_refused_in_order() {
    let provider = provider("instance", None);
    let foreign = ProviderSessionState { provider: "custom".to_owned(), payload: vec![] };
    let late = 30 * SECOND;
    assert_eq!(
        kind(prepare(&provider, Operation::Other, Some(&foreign), late)),
        Some(ProviderErrorKind::Unsupported)
    );
    assert_eq!(
        kind(prepare(&provider, generate("messages"), Some(&foreign), late)),
        Some(ProviderErrorKind::Unsupported)
    );
    let error = prepare(&provider, generate("responses"), Some(&foreign), late)
        .err()
        .expect("a foreign checkpoint");
    assert_eq!(error.continuation_failure, Some(ContinuationFailure::HistoryUnavailable));
    assert_eq!(
        kind(prepare(&provider, generate("responses"), None, late)),
        Some(ProviderErrorKind::Timeout)
    );
}

#[test]
fn a_conversation_is_carried_on() {
    let old = provider("instance", Some((1, &[1])));
    let mut bound = old.continuation.bind_account("acct".to_owned(), 4);
    let state = bound
        .capture(vec![("turn".to_owned(), Json::unsigned(1))])
        .ok()
        .expect("a checkpoint");
    let scope = ExtensionCallScope::default();
    let newer = provider("instance", Some((2, &[1, 2])));
    assert!(matches!(
        newer.start_execution(&scope, &generate("responses"), Some(&state)),
        Ok(InterpreterTarget::Current { previous_owner: Some(owner) })
            if owner == old.continuation.owner
    ));
    let carried = prepare(&newer, generate("responses"), Some(&state), 0).ok().expect("an attempt");
    assert_eq!(carried.input.provider_session_state.expect("a state").len(), 1);
    let other = provider("instance", Some((2, &[2])));
    assert!(matches!(
        other.start_execution(&scope, &generate("responses"), Some(&state)),
        Ok(InterpreterTarget::Retired { owner }) if owner == old.continuation.owner
    ));
    assert!(other.take_over(Some(&old)).is_ok());
    assert!(other.take_over(None).is_err());
    assert!(other.take_over(Some(&provider("elsewhere", None))).is_err());
    let entered = scope.extending("instance".to_owned()).expect("a new instance");
    assert_eq!(
        kind(newer.start_execution(&entered, &generate("responses"), Some(&state))),
        Some(ProviderErrorKind::PermissionDenied)
    );
}

fn prepared_as(token: &str, is_transport: bool, payload: Vec<u8>) -> CallReply<PreparedExecution> {
    CallReply::Answered {
        result: Some(PreparedExecution {
            token: token.to_owned(),
            transport: "http".to_owned(),
            is_transport,
        }),
        payload,
    }
}

#[test]
fn what_a_plugin_prepared_is_checked() {
    assert_eq!(
        prepared(prepared_as("t", true, vec![])).ok().map(|answer| answer.token).as_deref(),
        Some("t")
    );
    assert!(prepared(prepared_as(&"x".repeat(256), true, vec![])).is_ok());
    for broken in [
        prepared_as("", true, vec![]),
        prepared_as(&"x".repeat(257), true, vec![]),
        prepared_as("t", true, vec![1]),
        CallReply::Answered { result: None, payload: vec![] },
    ] {
        assert_eq!(kind(prepared(broken)), Some(ProviderErrorKind::Protocol));
    }
    let strange = prepared(prepared_as("t", false, vec![])).ok().expect("an execution");
    assert_eq!(kind(known_transport(&strange)), Some(ProviderErrorKind::Protocol));
    let known = prepared(prepared_as("t", true, vec![])).ok().expect("an execution");
    assert_eq!(kind(known_transport(&known)), None);
    assert_eq!(
        kind(prepared(CallReply::Failed(RpcError::Timeout))),
        Some(ProviderErrorKind::Timeout)
    );
}

#[test]
fn an_execution_tells_how_far_it_went() {
    let context = CallContext {
        stage: Stage::Execution,
        request_id: None,
        attempt_id: None,
        account_id: None,
        credential_revision: None,
        timeout_ms: 1,
    };
    let mut scope = NetworkScope::for_call(&context);
    let request = scope.start_http();
    scope.finish(request, UpstreamSendState::Sent);
    let answer = |text: &str, payload| CallReply::Answered {
        result: gateway_plugin::json::decode(text.as_bytes()),
        payload,
    };
    assert!(opened(answer(r#"{"stream":true}"#, vec![]), scope.send_state()).is_ok());
    for broken in [
        answer(r#"{"stream":false}"#, vec![]),
        answer(r#"{"stream":true,"x":1}"#, vec![]),
        answer("{}", vec![]),
        answer("true", vec![]),
        answer(r#"{"stream":true}"#, vec![1]),
    ] {
        let error = opened(broken, scope.send_state()).err().expect("a broken answer");
        assert_eq!(error.kind, ProviderErrorKind::Protocol);
        assert_eq!(error.send_state, UpstreamSendState::Sent);
    }
    let error = interrupted(RpcError::Closed, scope.send_state());
    assert_eq!(
        (error.kind, error.send_state),
        (ProviderErrorKind::Unavailable, UpstreamSendState::Sent)
    );
}

fn request(state: Option<ProviderSessionState>) -> ExecutionRequest {
    ExecutionRequest { model: Some("m".to_owned()), state, attempt: attempt() }
}

/// An execution that the plugin has answered to that was asked to prepare it.
fn answered(
    provider: &PluginProvider,
    reply: CallReply<PreparedExecution>,
) -> (Execution<u8>, ExecutionAction<u8>) {
    let scope = ExtensionCallScope::default();
    let (execution, action) =
        Execution::new(provider, &scope, generate("responses"), request(None))
            .ok()
            .expect("an execution");
    assert!(matches!(action, ExecutionAction::Select { superseded: None }));
    let (execution, action) =
        execution.step(provider, ExecutionEvent::Selected(Ok(credential())));
    let ExecutionAction::Process(operation) = action else { panic!("the request is processed") };
    let (execution, action) = execution.step(
        provider,
        ExecutionEvent::Processed { operation, headers: vec![], now: SECOND },
    );
    let ExecutionAction::Prepare(attempt) = action else { panic!("the plugin prepares") };
    assert_eq!(attempt.input.account_id, credential().account.id);
    assert!(!attempt.scope.active);
    execution.step(provider, ExecutionEvent::Prepared(Some(reply)))
}

#[test]
fn a_plugin_executes_what_it_prepared_once_it_is_asked_for() {
    let provider = provider("instance", None);
    let (execution, action) = answered(&provider, prepared_as("t", true, vec![]));
    assert!(matches!(action, ExecutionAction::Offer));
    let (execution, action) =
        execution.step(&provider, ExecutionEvent::Polled { now: 20 * SECOND });
    assert!(matches!(
        action,
        ExecutionAction::Execute { token, within } if token == "t" && within == 10 * SECOND
    ));
    let reply = CallReply::Answered {
        result: gateway_plugin::json::decode(br#"{"stream":true}"#),
        payload: vec![],
    };
    let event = ExecutionEvent::Opened { reply, state: UpstreamSendState::NotSent };
    let (execution, action) = execution.step(&provider, event);
    assert!(matches!(action, ExecutionAction::Await));
    let told =
        ProviderEvent { facts: vec![], wire: None, observation: None, session_update: None };
    let (execution, action) = execution.step(&provider, ExecutionEvent::Told(Ok(told)));
    assert!(matches!(action, ExecutionAction::Pass(_)));
    let event = ExecutionEvent::Broken { fault: RpcError::Closed, state: UpstreamSendState::Sent };
    let (execution, action) = execution.step(&provider, event);
    assert!(matches!(
        action,
        ExecutionAction::Fail(error) if error.send_state == UpstreamSendState::Sent
    ));
    assert!(matches!(execution.phase, ExecutionPhase::Ended));
}

#[test]
fn an_execution_that_cannot_go_on_is_given_up() {
    let provider = provider("instance", None);
    let (execution, action) = answered(&provider, prepared_as("t", false, vec![]));
    assert!(matches!(
        action,
        ExecutionAction::GiveUp { token, error }
            if token == "t" && error.kind == ProviderErrorKind::Protocol
    ));
    assert!(matches!(execution.phase, ExecutionPhase::Ended));
    let (_, action) = answered(&provider, prepared_as("", true, vec![]));
    assert!(matches!(
        action,
        ExecutionAction::Fail(error) if error.kind == ProviderErrorKind::Protocol
    ));
    let (execution, _) = answered(&provider, prepared_as("t", true, vec![]));
    let (_, action) = execution.step(&provider, ExecutionEvent::Polled { now: 30 * SECOND });
    assert!(matches!(
        action,
        ExecutionAction::Fail(error)
            if error.kind == ProviderErrorKind::Timeout
                && error.send_state == UpstreamSendState::NotSent
    ));
}

#[test]
fn a_conversation_is_handed_over_to_the_process_that_reads_it() {
    let old = provider("instance", Some((1, &[1])));
    let mut bound = old.continuation.bind_account("acct".to_owned(), 4);
    let state = bound.capture(vec![]).ok().expect("a checkpoint");
    let other = provider("instance", Some((2, &[2])));
    let scope = ExtensionCallScope::default();
    let (execution, action) =
        Execution::new(&other, &scope, generate("responses"), request(Some(state)))
            .ok()
            .expect("an execution");
    assert!(matches!(
        action,
        ExecutionAction::Resolve { owner } if owner == old.continuation.owner
    ));
    let verdict = other.take_over(Some(&old));
    let (_, action) = execution.step(&other, ExecutionEvent::Resolved(verdict));
    assert!(matches!(action, ExecutionAction::HandOver(Operation::Generate { .. })));
}
