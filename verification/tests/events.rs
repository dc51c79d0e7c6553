use gateway_plugin::billing::{
    BillingPlan, ModelPrice, PriceBand, PriceBands, TokenPrices, Usage,
};
use gateway_plugin::continuation::{ContinuationIdentity, SessionBinding};
use gateway_plugin::event::canonical::{CanonicalEvent, ContentKind, FinishReason, GatewayEvent};
use gateway_plugin::event::failure::{ExecutionFailure, ExecutionFailureKind, FailureResponse};
use gateway_plugin::event::observation::{
    JudgedText, ObservedHeader, ProviderResponseTimings, ResponseObservation,
};
use gateway_plugin::event::wire::{RawFrame, SseEvent, WireContent, WireEvent, WirePayload};
use gateway_plugin::event::{decode, ExecutionEvent, ProviderEvent};
use gateway_plugin::fault::{ProviderError, ProviderErrorKind, UpstreamSendState};
use gateway_plugin::json::{json_eq, Json};

fn binding() -> SessionBinding {
    ContinuationIdentity::prepare(
        "custom".to_owned(),
        "grant".to_owned(),
        "conversations".to_owned(),
        None,
        "11111111-1111-4111-8111-111111111111".to_owned(),
    )
    .ok()
    .expect("a provider")
    .bind_account("acct".to_owned(), 5)
}

fn plan() -> BillingPlan {
    let prices = TokenPrices { input: 1, output: 2, cache_read: 0, cache_write: 0 };
    BillingPlan {
        enabled: true,
        price: Some(ModelPrice {
            multiplier_bps: 10_000,
            bands: PriceBands { standard: Some(prices), ..PriceBands::none() },
        }),
    }
}

fn no_plan() -> BillingPlan {
    BillingPlan { enabled: false, price: None }
}

fn event() -> ExecutionEvent {
    ExecutionEvent {
        facts: vec![],
        wire: None,
        observation: None,
        session_update: None,
        failure: None,
    }
}

fn formats() -> Vec<String> {
    vec!["canonical".to_owned(), "responses".to_owned()]
}

fn run(event: ExecutionEvent, plan: &BillingPlan) -> Result<ProviderEvent, ProviderError> {
    decode(Some(event), &formats(), plan, "http", &mut binding(), UpstreamSendState::NotSent)
}

fn kind(result: Result<ProviderEvent, ProviderError>) -> Option<ProviderErrorKind> {
    result.err().map(|error| error.kind)
}

fn usage() -> Usage {
    Usage {
        input_tokens: Some(10),
        output_tokens: Some(5),
        cached_tokens: Some(0),
        cache_write_tokens: Some(0),
        reasoning_tokens: None,
        image_input_tokens: None,
        image_output_tokens: None,
        total_tokens: Some(15),
    }
}

#[test]
fn what_is_no_event_breaks_the_protocol() {
    let mut bound = binding();
    match decode(None, &formats(), &plan(), "http", &mut bound, UpstreamSendState::Sent) {
        Err(error) => {
            assert_eq!(error.kind, ProviderErrorKind::Protocol);
            assert_eq!(error.send_state, UpstreamSendState::Sent);
        }
        Ok(_) => panic!("there was no event"),
    }
    assert!(!bound.issued);
    assert_eq!(kind(run(event(), &plan())), Some(ProviderErrorKind::Protocol));
}

#[test]
fn facts_are_told_in_their_order() {
    let facts = vec![
        CanonicalEvent::Started { id: "r".to_owned(), model: Some("m".to_owned()) },
        CanonicalEvent::ContentAdded { index: 0, kind: ContentKind::Text },
        CanonicalEvent::TextDelta { index: 0, text: "hi".to_owned() },
        CanonicalEvent::Completed {
            id: "r".to_owned(),
            model: None,
            reason: FinishReason::Stop,
        },
    ];
    let told = run(ExecutionEvent { facts, ..event() }, &no_plan()).ok().expect("an event");
    assert_eq!(told.facts.len(), 4);
    assert!(matches!(&told.facts[0], GatewayEvent::Started(meta) if meta.id == "r"));
    assert!(matches!(&told.facts[2], GatewayEvent::TextDelta { text, .. } if text == "hi"));
    assert!(matches!(
        &told.facts[3],
        GatewayEvent::Completed(meta) if meta.finish_reason == Some(FinishReason::Stop)
    ));
}

#[test]
fn what_can_be_billed_is_billed() {
    let facts = vec![CanonicalEvent::BillableUsage { usage: usage(), band: PriceBand::Standard }];
    let told = run(ExecutionEvent { facts, ..event() }, &plan()).ok().expect("an event");
    assert!(told.facts.iter().any(|fact| matches!(fact, GatewayEvent::Usage(_))));
    assert!(told.facts.iter().any(
        |fact| matches!(fact, GatewayEvent::CalculatedCost(cost) if cost.total == 20)
    ));
    let facts = vec![CanonicalEvent::BillableUsage { usage: usage(), band: PriceBand::Standard }];
    assert_eq!(
        kind(run(ExecutionEvent { facts, ..event() }, &no_plan())),
        Some(ProviderErrorKind::Protocol)
    );
}

#[test]
fn contradictory_facts_break_the_protocol() {
    let broken = [
        CanonicalEvent::Started { id: String::new(), model: None },
        CanonicalEvent::Started { id: "x".repeat(513), model: None },
        CanonicalEvent::ProviderCost { amount: None, currency: "USD".to_owned() },
        CanonicalEvent::ProviderCost { amount: Some(1), currency: "EUR".to_owned() },
    ];
    for one in broken {
        assert_eq!(
            kind(run(ExecutionEvent { facts: vec![one], ..event() }, &no_plan())),
            Some(ProviderErrorKind::Protocol)
        );
    }
    let many = (0..65).map(|_| CanonicalEvent::Usage { usage: usage() }).collect();
    assert_eq!(
        kind(run(ExecutionEvent { facts: many, ..event() }, &no_plan())),
        Some(ProviderErrorKind::Protocol)
    );
}

fn frame(data: &str) -> RawFrame {
    let bytes = format!("data: {data}\n\n").into_bytes();
    let end = bytes.len();
    RawFrame {
        bytes,
        frame_end: Some(end),
        events: Some(vec![SseEvent {
            event: None,
            id: None,
            retry: None,
            data: data.to_owned(),
        }]),
    }
}

fn wire(protocol: &str, payload: WirePayload) -> ExecutionEvent {
    ExecutionEvent {
        wire: Some(WireEvent { protocol: protocol.to_owned(), payload }),
        ..event()
    }
}

fn json_payload(data: Json, raw_sse: Option<RawFrame>) -> WirePayload {
    WirePayload::Json { event: None, data, id: None, retry: None, raw_sse }
}

#[test]
fn wire_events_are_in_a_declared_format() {
    let data = || Json::Object(vec![("a".to_owned(), Json::unsigned(1))]);
    let told = run(wire("responses", json_payload(data(), None)), &no_plan())
        .ok()
        .expect("an event");
    match told.wire.expect("a wire event").content {
        WireContent::Json { data: kept, .. } => assert!(json_eq(&kept, &data())),
        _ => panic!("a document was sent"),
    }
    assert_eq!(
        kind(run(wire("messages", json_payload(data(), None)), &no_plan())),
        Some(ProviderErrorKind::Protocol)
    );
}

#[test]
fn a_raw_frame_is_what_it_says() {
    let data = || Json::Object(vec![("a".to_owned(), Json::unsigned(1))]);
    assert!(
        run(wire("responses", json_payload(data(), Some(frame(r#"{"a":1}"#)))), &no_plan()).is_ok()
    );
    assert_eq!(
        kind(run(
            wire("responses", json_payload(data(), Some(frame(r#"{"a":2}"#)))),
            &no_plan()
        )),
        Some(ProviderErrorKind::Protocol)
    );
    let told = run(wire("responses", WirePayload::RawSse { frame: frame("x") }), &no_plan())
        .ok()
        .expect("an event");
    assert!(matches!(
        told.wire.expect("a wire event").content,
        WireContent::RawSse { frame } if frame == b"data: x\n\n".to_vec()
    ));
    let mut two = frame("x");
    two.frame_end = Some(3);
    assert_eq!(
        kind(run(wire("responses", WirePayload::RawSse { frame: two }), &no_plan())),
        Some(ProviderErrorKind::Protocol)
    );
}

fn observation() -> ResponseObservation {
    ResponseObservation {
        status: Some(200),
        client_headers: vec![],
        timings: ProviderResponseTimings {
            transport_decision_wait_ms: None,
            connect_ms: Some(3),
            headers_ms: None,
            first_event_ms: None,
            first_reasoning_ms: None,
            first_text_ms: None,
            first_token_ms: None,
            provider_processing_ms: None,
        },
        request_id: Some("req".to_owned()),
        service_tier: Some(JudgedText { text: "default".to_owned(), accepted: true }),
        response_model: None,
        http_version: None,
        quota_forecast: None,
    }
}

#[test]
fn observations_are_checked() {
    let seen = |observation| ExecutionEvent { observation: Some(observation), ..event() };
    let told = run(seen(observation()), &no_plan()).ok().expect("an event");
    let kept = told.observation.expect("an observation");
    assert_eq!(kept.transport, "http");
    assert_eq!(kept.status, Some(200));
    assert_eq!(kept.request_id.as_deref(), Some("req"));
    assert_eq!(kept.service_tier.as_deref(), Some("default"));
    let broken = [
        ResponseObservation { status: Some(99), ..observation() },
        ResponseObservation { status: Some(600), ..observation() },
        ResponseObservation {
            service_tier: Some(JudgedText { text: "x".to_owned(), accepted: false }),
            ..observation()
        },
        ResponseObservation {
            client_headers: vec![ObservedHeader {
                name: "x-test".to_owned(),
                value: vec![1; 16385],
                forwardable: true,
            }],
            ..observation()
        },
    ];
    for one in broken {
        assert_eq!(kind(run(seen(one), &no_plan())), Some(ProviderErrorKind::Protocol));
    }
}

fn completed() -> Vec<CanonicalEvent> {
    vec![CanonicalEvent::Completed {
        id: "r".to_owned(),
        model: None,
        reason: FinishReason::Stop,
    }]
}

#[test]
fn a_checkpoint_comes_with_the_end_only() {
    let update = || Some(vec![("turn".to_owned(), Json::unsigned(1))]);
    assert_eq!(
        kind(run(ExecutionEvent { session_update: update(), ..event() }, &no_plan())),
        Some(ProviderErrorKind::Protocol)
    );
    let failed = ExecutionEvent {
        failure: Some(failure(ExecutionFailureKind::Timeout)),
        facts: completed(),
        ..event()
    };
    assert_eq!(kind(run(failed, &no_plan())), Some(ProviderErrorKind::Protocol));
}

#[test]
fn facts_need_the_canonical_format() {
    let told = decode(
        Some(ExecutionEvent { facts: completed(), ..event() }),
        &vec!["responses".to_owned()],
        &no_plan(),
        "http",
        &mut binding(),
        UpstreamSendState::NotSent,
    );
    assert_eq!(kind(told), Some(ProviderErrorKind::Protocol));
}

#[test]
fn a_failure_tells_what_was_observed() {
    let failed = ExecutionEvent {
        failure: Some(failure(ExecutionFailureKind::RateLimited)),
        observation: Some(observation()),
        ..event()
    };
    match run(failed, &no_plan()) {
        Err(error) => {
            assert_eq!(error.status, Some(200));
            assert_eq!(error.upstream_request_id.as_deref(), Some("req"));
            assert!(error.client_event.is_some());
        }
        Ok(_) => panic!("the event is a failure"),
    }
    let mut odd = failure(ExecutionFailureKind::RateLimited);
    odd.response.as_mut().expect("a response").status = 200;
    assert_eq!(
        kind(run(ExecutionEvent { failure: Some(odd), ..event() }, &no_plan())),
        Some(ProviderErrorKind::Protocol)
    );
}

#[test]
fn a_checkpoint_is_handed_out_with_an_event() {
    let mut bound = binding();
    let update = vec![("turn".to_owned(), Json::unsigned(1))];
    let told = decode(
        Some(ExecutionEvent { session_update: Some(update), facts: completed(), ..event() }),
        &formats(),
        &no_plan(),
        "http",
        &mut bound,
        UpstreamSendState::Sent,
    )
    .ok()
    .expect("an event");
    assert!(bound.issued);
    let kept = told.session_update.expect("a checkpoint");
    assert!(bound.restore(Some(&kept)).ok().flatten().is_some());
}

fn failure(kind: ExecutionFailureKind) -> ExecutionFailure {
    ExecutionFailure {
        kind,
        send_state: UpstreamSendState::NotSent,
        code: Some("code".to_owned()),
        retry_after_ms: Some(7),
        response: Some(FailureResponse {
            status: 429,
            content_type: Some(b"application/json".to_vec()),
            body: b"{}".to_vec(),
        }),
    }
}

#[test]
fn a_failure_keeps_how_far_the_execution_went() {
    for (told, expected) in [
        (ExecutionFailureKind::InvalidRequest, ProviderErrorKind::InvalidRequest),
        (ExecutionFailureKind::Unsupported, ProviderErrorKind::Unsupported),
        (ExecutionFailureKind::Authentication, ProviderErrorKind::Unauthorized),
        (ExecutionFailureKind::PermissionDenied, ProviderErrorKind::PermissionDenied),
        (ExecutionFailureKind::RateLimited, ProviderErrorKind::RateLimited),
        (ExecutionFailureKind::QuotaExhausted, ProviderErrorKind::QuotaExhausted),
        (ExecutionFailureKind::Unavailable, ProviderErrorKind::Unavailable),
        (ExecutionFailureKind::Protocol, ProviderErrorKind::Protocol),
        (ExecutionFailureKind::Timeout, ProviderErrorKind::Timeout),
        (ExecutionFailureKind::Cancelled, ProviderErrorKind::Cancelled),
    ] {
        let failed = decode(
            Some(ExecutionEvent { failure: Some(failure(told)), ..event() }),
            &formats(),
            &no_plan(),
            "http",
            &mut binding(),
            UpstreamSendState::Sent,
        );
        match failed {
            Err(error) => {
                assert_eq!(error.kind, expected);
                assert_eq!(error.send_state, UpstreamSendState::Sent);
                assert_eq!(error.upstream_code.as_deref(), Some("code"));
                assert_eq!(error.retry_after_ms, Some(7));
                assert_eq!(error.status, None);
                assert_eq!(error.client_response.expect("a response").status, 429);
            }
            Ok(_) => panic!("the event is a failure"),
        }
    }
}
