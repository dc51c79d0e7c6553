//! The events of a response: what a plugin sends while it executes a request, and what the engine
//! is told of it.

use vstd::prelude::*;

use crate::billing::BillingPlan;
use crate::continuation::{
    checkpoint_document, CheckpointView, ProviderSessionState, SessionBinding, MAX_PAYLOAD_BYTES,
};
use crate::event::canonical::{
    all_reportable, all_told, append, completed_is_told, lemma_all_told, CanonicalEvent, GatewayEvent,
};
use crate::event::failure::{is_failure, is_told_failure, ExecutionFailure};
use crate::event::observation::{
    is_observation, is_told, ProviderResponseHeader, ProviderResponseObservation,
    ResponseObservation,
};
use crate::event::wire::{is_wire, passed_on, ProtocolWireEvent, WireEvent, WirePayload};
use crate::fault::{bare_error, send_rank, ProviderError, ProviderErrorKind, UpstreamSendState};
use crate::json::{fits, members_view, Json};
use crate::text::{holds, texts};

pub mod canonical;
pub mod failure;
pub mod observation;
pub mod wire;

verus! {

/// The most facts that an event may report.
pub const MAX_FACTS: usize = 64;

/// A response of the upstream service that is shown to the client.
pub struct ClientVisibleUpstreamResponse {
    pub status: u16,
    pub content_type: Option<Vec<u8>>,
    pub body: Vec<u8>,
    pub headers: Vec<ProviderResponseHeader>,
}

/// An event, as a plugin sends it.
pub struct ExecutionEvent {
    pub facts: Vec<CanonicalEvent>,
    pub wire: Option<WireEvent>,
    pub observation: Option<ResponseObservation>,
    /// What the plugin wants to be given when the conversation goes on.
    pub session_update: Option<Vec<(String, Json)>>,
    pub failure: Option<ExecutionFailure>,
}

/// An event, as the engine is told of it.
pub struct ProviderEvent {
    pub facts: Vec<GatewayEvent>,
    pub wire: Option<ProtocolWireEvent>,
    pub observation: Option<ProviderResponseObservation>,
    pub session_update: Option<ProviderSessionState>,
}

/// The body of the response is passed on as it is.
pub open spec fn has_raw_body(event: ExecutionEvent) -> bool {
    event.wire matches Some(wire) && wire.payload is RawBody
}

/// An event reports something besides a failure.
pub open spec fn has_content(event: ExecutionEvent) -> bool {
    event.facts@.len() > 0 || event.wire is Some || event.observation is Some
}

/// The last fact of an event says that the response is complete.
pub open spec fn ends_completed(event: ExecutionEvent) -> bool {
    event.facts@.len() > 0 && event.facts@.last() is Completed
}

/// Some fact of an event says that the response is complete.
pub open spec fn reports_completed(event: ExecutionEvent) -> bool {
    exists|i: int| 0 <= i < event.facts@.len() && (#[trigger] event.facts@[i]) is Completed
}

/// The checkpoint that an event asks to be kept.
pub open spec fn asked_checkpoint(
    event: ExecutionEvent,
    binding: SessionBinding,
) -> CheckpointView {
    CheckpointView {
        binding: binding.bound(),
        payload: members_view(event.session_update->0@),
    }
}

/// An event that a plugin may send. A checkpoint comes together with the end of the response, so
/// that both are kept or neither is; a failure comes with neither.
pub open spec fn is_event(
    event: ExecutionEvent,
    formats: Seq<String>,
    billing: BillingPlan,
    binding: SessionBinding,
) -> bool {
    &&& event.facts@.len() <= MAX_FACTS
    &&& event.facts@.len() > 0 ==> texts(formats).contains("canonical"@)
    &&& all_reportable(event.facts@, billing)
    &&& event.wire matches Some(wire) ==> is_wire(wire, formats)
    &&& event.observation matches Some(value) ==> is_observation(value, has_raw_body(event))
    &&& event.session_update is Some ==> ends_completed(event)
    &&& event.failure is Some ==> event.session_update is None && !reports_completed(event)
    &&& event.failure matches Some(failure) ==> is_failure(failure)
    &&& has_content(event) || event.failure is Some
    &&& event.session_update is Some ==> fits(
        checkpoint_document(asked_checkpoint(event, binding)),
        MAX_PAYLOAD_BYTES as nat,
    )
}

/// What the engine is told of an event, failures aside.
pub open spec fn is_told_event(
    told: ProviderEvent,
    event: ExecutionEvent,
    billing: BillingPlan,
    transport: Seq<char>,
    binding: SessionBinding,
) -> bool {
    &&& told.facts@ == all_told(event.facts@, billing)
    &&& match event.wire {
        Some(wire) => told.wire == Some(
            ProtocolWireEvent { protocol: wire.protocol, content: passed_on(wire.payload) },
        ),
        None => told.wire is None,
    }
    &&& match event.observation {
        Some(value) => told.observation matches Some(observation) && is_told(
            value,
            transport,
            observation,
        ),
        None => told.observation is None,
    }
    &&& match event.session_update {
        Some(_) => told.session_update matches Some(state) && state.provider
            == binding.identity.provider && state.document() == checkpoint_document(
            asked_checkpoint(event, binding),
        ),
        None => told.session_update is None,
    }
}

/// What the engine is told of a failure that came with an event.
pub open spec fn is_failed_event(
    error: ProviderError,
    event: ExecutionEvent,
    billing: BillingPlan,
    transport: Seq<char>,
    binding: SessionBinding,
    observed: UpstreamSendState,
) -> bool {
    &&& exists|observation: Option<ProviderResponseObservation>|
        {
            &&& observation is Some == event.observation is Some
            &&& observation matches Some(told) ==> is_told(event.observation->0, transport, told)
            &&& #[trigger] is_reported_failure(error, event.failure->0, observation, observed)
        }
    &&& if has_content(event) {
        error.client_event matches Some(told) && is_told_event(told, event, billing, transport, binding)
    } else {
        error.client_event is None
    }
}

/// What the engine is told of a failure, whatever event came with it.
pub open spec fn is_reported_failure(
    error: ProviderError,
    failure: ExecutionFailure,
    observation: Option<ProviderResponseObservation>,
    observed: UpstreamSendState,
) -> bool {
    is_told_failure(
        ProviderError { client_event: None, ..error },
        failure,
        match observation {
            Some(observation) => Some(&observation),
            None => None,
        },
        observed,
    )
}

fn append_all(facts: Vec<CanonicalEvent>, billing: &BillingPlan) -> (told: Option<Vec<GatewayEvent>>)
    ensures
        told is Some == all_reportable(facts@, *billing),
        told matches Some(t) ==> t@ == all_told(facts@, *billing),
{
    let mut told: Vec<GatewayEvent> = Vec::new();
    let mut rest = facts;
    let total = rest.len();
    let mut i: usize = 0;
    assert(facts@.take(0) =~= Seq::<CanonicalEvent>::empty());
    while i < total
        invariant
            i <= total,
            total == facts@.len(),
            rest@ == facts@.skip(i as int),
            told@ == all_told(facts@.take(i as int), *billing),
            forall|j: int| 0 <= j < i ==> is_reportable_at(facts@, j, *billing),
        decreases total - i,
    {
        let fact = rest.remove(0);
        proof {
            assert(fact == facts@[i as int]);
            assert(rest@ =~= facts@.skip(i + 1));
            assert(facts@.take(i + 1).drop_last() =~= facts@.take(i as int));
            assert(facts@.take(i + 1).last() == fact);
        }
        match append(fact, billing, &mut told) {
            Ok(()) => {},
            Err(_) => {
                assert(!is_reportable_at(facts@, i as int, *billing));
                return None;
            },
        }
        i = i + 1;
    }
    proof {
        assert(facts@.take(total as int) =~= facts@);
        assert forall|j: int| 0 <= j < facts@.len() implies crate::event::canonical::is_reportable(
            #[trigger] facts@[j],
            *billing,
        ) by {
            assert(is_reportable_at(facts@, j, *billing));
        }
    }
    Some(told)
}

spec fn is_reportable_at(facts: Seq<CanonicalEvent>, i: int, billing: BillingPlan) -> bool {
    crate::event::canonical::is_reportable(facts[i], billing)
}

/// Whether some fact says that the response is complete.
fn completed(facts: &Vec<CanonicalEvent>) -> (r: bool)
    ensures
        r == (exists|i: int| 0 <= i < facts@.len() && (#[trigger] facts@[i]) is Completed),
{
    for i in 0..facts.len()
        invariant
            forall|j: int| 0 <= j < i ==> !((#[trigger] facts@[j]) is Completed),
    {
        if matches!(&facts[i], CanonicalEvent::Completed { .. }) {
            assert(facts@[i as int] is Completed);
            return true;
        }
    }
    false
}

/// Whether the last fact says that the response is complete.
fn last_completed(facts: &Vec<CanonicalEvent>) -> (r: bool)
    ensures
        r == (facts@.len() > 0 && facts@.last() is Completed),
{
    if facts.len() == 0 {
        return false;
    }
    matches!(&facts[facts.len() - 1], CanonicalEvent::Completed { .. })
}

/// Takes an event that a plugin sent. `event` is what the bytes of the event hold, where they hold
/// one.
pub fn decode(
    event: Option<ExecutionEvent>,
    formats: &Vec<String>,
    billing: &BillingPlan,
    transport: &str,
    binding: &mut SessionBinding,
    observed: UpstreamSendState,
) -> (result: Result<ProviderEvent, ProviderError>)
    ensures
        is_decoded(
            event,
            formats@,
            *billing,
            transport@,
            *old(binding),
            *final(binding),
            observed,
            result,
        ),
{
    let refused = ProviderError::new(ProviderErrorKind::Protocol, observed);
    let ghost sent = event;
    let event = match event {
        Some(event) => event,
        None => return Err(refused),
    };
    let ghost given = event;
    let ghost bound = *binding;
    let content = event.facts.len() > 0 || event.wire.is_some() || event.observation.is_some();
    if event.facts.len() > MAX_FACTS || (event.facts.len() > 0 && !holds(formats, "canonical")) {
        return Err(refused);
    }
    if event.session_update.is_some() && !last_completed(&event.facts) {
        return Err(refused);
    }
    if event.failure.is_some() && (event.session_update.is_some() || completed(&event.facts)) {
        return Err(refused);
    }
    if !content && event.failure.is_none() {
        return Err(refused);
    }
    let raw_http_body = match &event.wire {
        Some(wire) => matches!(&wire.payload, WirePayload::RawBody { .. }),
        None => false,
    };
    let facts = match append_all(event.facts, billing) {
        Some(facts) => facts,
        None => return Err(refused),
    };
    let wire = match event.wire {
        Some(wire) => match wire::decode(wire, formats) {
            Ok(wire) => Some(wire),
            Err(_) => return Err(refused),
        },
        None => None,
    };
    let observation = match event.observation {
        Some(value) => match observation::decode(value, transport, raw_http_body) {
            Ok(observation) => Some(observation),
            Err(_) => return Err(refused),
        },
        None => None,
    };
    let failure = match event.failure {
        Some(failure) => match failure::decode(failure, observation.as_ref(), observed) {
            Ok(error) => Some(error),
            Err(_) => return Err(refused),
        },
        None => None,
    };
    let session_update = match event.session_update {
        Some(update) => match binding.capture(update) {
            Ok(state) => Some(state),
            Err(_) => return Err(refused),
        },
        None => None,
    };
    assert(is_event(given, formats@, *billing, bound));
    let ghost observed_response = observation;
    let told = ProviderEvent { facts, wire, observation, session_update };
    assert(is_told_event(told, given, *billing, transport@, bound));
    match failure {
        None => Ok(told),
        Some(mut error) => {
            let ghost reported = error;
            if content {
                error.client_event = Some(told);
            }
            proof {
                assert(ProviderError { client_event: None, ..error } == reported);
                assert(is_reported_failure(error, given.failure->0, observed_response, observed));
            }
            Err(error)
        },
    }
}

/// A checkpoint reaches the engine only together with the end of its response.
pub proof fn checkpoint_comes_with_completion(
    told: ProviderEvent,
    event: ExecutionEvent,
    formats: Seq<String>,
    billing: BillingPlan,
    transport: Seq<char>,
    binding: SessionBinding,
)
    requires
        is_event(event, formats, billing, binding),
        is_told_event(told, event, billing, transport, binding),
        told.session_update is Some,
    ensures
        told.facts@.len() > 0,
        told.facts@.last() is Completed,
        event.failure is None,
{
    lemma_all_told(event.facts@, billing);
}

/// A failure never comes with the end of a response, or with a checkpoint.
pub proof fn failure_is_no_completion(
    told: ProviderEvent,
    event: ExecutionEvent,
    formats: Seq<String>,
    billing: BillingPlan,
    transport: Seq<char>,
    binding: SessionBinding,
)
    requires
        is_event(event, formats, billing, binding),
        is_told_event(told, event, billing, transport, binding),
        event.failure is Some,
    ensures
        told.session_update is None,
        forall|i: int| 0 <= i < told.facts@.len() ==> !((#[trigger] told.facts@[i]) is Completed),
{
    completed_is_told(event.facts@, billing);
}

/// A failure never tells the engine that less was sent than the host saw.
pub proof fn failed_event_keeps_send_state(
    error: ProviderError,
    event: ExecutionEvent,
    billing: BillingPlan,
    transport: Seq<char>,
    binding: SessionBinding,
    observed: UpstreamSendState,
)
    requires
        is_failed_event(error, event, billing, transport, binding, observed),
    ensures
        send_rank(error.send_state) >= send_rank(observed),
{
}

/// The engine is told of each part of an event exactly if the plugin sent it: what is passed on in the
/// protocol that it named, what was observed over the transport that was used, and a checkpoint for
/// the provider of the session.
pub proof fn parts_are_told(
    told: ProviderEvent,
    event: ExecutionEvent,
    billing: BillingPlan,
    transport: Seq<char>,
    binding: SessionBinding,
)
    requires
        is_told_event(told, event, billing, transport, binding),
    ensures
        told.wire is Some <==> event.wire is Some,
        event.wire is Some ==> told.wire->0.protocol == event.wire->0.protocol,
        told.observation is Some <==> event.observation is Some,
        event.observation is Some ==> told.observation->0.transport@ == transport
            && told.observation->0.status == event.observation->0.status,
        told.session_update is Some <==> event.session_update is Some,
        told.session_update is Some ==> told.session_update->0.provider == binding.identity.provider,
        event.facts@.len() == 0 ==> told.facts@.len() == 0,
{
}

/// An event may be sent only with at most 64 facts, with facts only where they are declared, with a
/// checkpoint only after the last fact said that the response is complete, and not with nothing.
pub proof fn events_in_order(
    event: ExecutionEvent,
    formats: Seq<String>,
    billing: BillingPlan,
    binding: SessionBinding,
)
    requires
        is_event(event, formats, billing, binding),
    ensures
        event.facts@.len() <= 64,
        event.facts@.len() > 0 ==> exists|i: int|
            0 <= i < formats.len() && (#[trigger] formats[i])@ == "canonical"@,
        event.session_update is Some ==> event.facts@.len() > 0 && event.facts@[event.facts@.len()
            - 1] is Completed && event.failure is None,
        event.failure is Some ==> forall|i: int|
            0 <= i < event.facts@.len() ==> !((#[trigger] event.facts@[i]) is Completed),
        event.facts@.len() == 0 && event.wire is None && event.observation is None
            ==> event.failure is Some,
{
    if event.facts@.len() > 0 {
        let i = choose|i: int| 0 <= i < texts(formats).len() && texts(formats)[i] == "canonical"@;
        assert(formats[i]@ == "canonical"@);
    }
    if event.failure is Some {
        assert forall|i: int| 0 <= i < event.facts@.len() implies !((
        #[trigger] event.facts@[i]) is Completed) by {}
    }
}

/// Whatever else came with a failure reaches the client: with something to tell, the error carries
/// it, and with nothing it carries nothing. The error is of the kind that was reported.
pub proof fn failed_event_is_told(
    error: ProviderError,
    event: ExecutionEvent,
    billing: BillingPlan,
    transport: Seq<char>,
    binding: SessionBinding,
    observed: UpstreamSendState,
)
    requires
        is_failed_event(error, event, billing, transport, binding, observed),
    ensures
        error.client_event is Some <==> event.facts@.len() > 0 || event.wire is Some
            || event.observation is Some,
        error.client_event is Some ==> is_told_event(
            error.client_event->0,
            event,
            billing,
            transport,
            binding,
        ),
        error.kind == crate::event::failure::told_kind(event.failure->0.kind),
        error.upstream_code == event.failure->0.code,
        error.retry_after_ms == event.failure->0.retry_after_ms,
        event.observation is Some ==> error.status == event.observation->0.status
            && error.upstream_request_id == event.observation->0.request_id,
        event.observation is None ==> error.status is None && error.upstream_request_id is None,
        error.client_response is Some <==> event.failure->0.response is Some,
        observed is Sent || event.failure->0.send_state is Sent <==> error.send_state is Sent,
{
}

/// An event with nothing but facts that may be reported is taken, whether or not it fails, unless it
/// fails and says that it completed; so is one with nothing but something to pass on or to observe.
pub proof fn events_are_taken(
    event: ExecutionEvent,
    formats: Seq<String>,
    billing: BillingPlan,
    binding: SessionBinding,
)
    requires
        event.session_update is None,
    ensures
        is_event(event, formats, billing, binding) <==> {
            &&& event.facts@.len() <= 64
            &&& event.facts@.len() > 0 ==> texts(formats).contains("canonical"@)
            &&& all_reportable(event.facts@, billing)
            &&& event.wire is Some ==> is_wire(event.wire->0, formats)
            &&& event.observation is Some ==> is_observation(
                event.observation->0,
                event.wire is Some && event.wire->0.payload is RawBody,
            )
            &&& event.failure is Some ==> is_failure(event.failure->0) && forall|i: int|
                0 <= i < event.facts@.len() ==> !((#[trigger] event.facts@[i]) is Completed)
            &&& event.facts@.len() > 0 || event.wire is Some || event.observation is Some
                || event.failure is Some
        },
{
}

/// A checkpoint is taken with an event that completes the answer, if it is not too large.
pub proof fn checkpoints_are_taken(
    event: ExecutionEvent,
    plain: ExecutionEvent,
    formats: Seq<String>,
    billing: BillingPlan,
    binding: SessionBinding,
)
    requires
        event.session_update is Some,
        event.failure is None,
        plain == (ExecutionEvent { session_update: None, ..event }),
    ensures
        is_event(event, formats, billing, binding) <==> {
            &&& is_event(plain, formats, billing, binding)
            &&& event.facts@.len() > 0 && event.facts@.last() is Completed
            &&& fits(
                checkpoint_document(
                    CheckpointView {
                        binding: binding.bound(),
                        payload: members_view(event.session_update->0@),
                    },
                ),
                65536,
            )
        },
{
}

/// What becomes of an event that the plugin reports.
pub open spec fn is_decoded(
    event: Option<ExecutionEvent>,
    formats: Seq<String>,
    billing: BillingPlan,
    transport: Seq<char>,
    before: SessionBinding,
    after: SessionBinding,
    observed: UpstreamSendState,
    result: Result<ProviderEvent, ProviderError>,
) -> bool {
    &&& after.identity == before.identity
    &&& after.account_id == before.account_id
    &&& after.credential_revision == before.credential_revision
    &&& match event {
        Some(event) if is_event(event, formats, billing, before) => {
            &&& after.issued == (before.issued || event.session_update is Some)
            &&& match result {
                Ok(told) => event.failure is None && is_told_event(
                    told,
                    event,
                    billing,
                    transport,
                    before,
                ),
                Err(error) => event.failure is Some && is_failed_event(
                    error,
                    event,
                    billing,
                    transport,
                    before,
                    observed,
                ),
            }
        },
        _ => after.issued == before.issued && (result matches Err(error) && error == bare_error(
            ProviderErrorKind::Protocol,
            observed,
        )),
    }
}

/// An event is told if it is in order and reports no failure. One that is not in order breaks the
/// execution off, as far as it had gone, and hands out no checkpoint.
pub proof fn told_if_in_order(
    event: Option<ExecutionEvent>,
    formats: Seq<String>,
    billing: BillingPlan,
    transport: Seq<char>,
    before: SessionBinding,
    after: SessionBinding,
    observed: UpstreamSendState,
    result: Result<ProviderEvent, ProviderError>,
)
    requires
        is_decoded(event, formats, billing, transport, before, after, observed, result),
    ensures
        result is Ok <==> (event matches Some(e) && is_event(e, formats, billing, before)
            && e.failure is None),
        result matches Ok(told) ==> (told.session_update is Some ==> after.issued),
        event is None ==> (result matches Err(error) && error.kind is Protocol && error.send_state
            == observed && after.issued == before.issued),
        event matches Some(e) ==> (!is_event(e, formats, billing, before) ==> (result matches Err(error)
            && error.kind is Protocol && error.send_state == observed && error.client_event is None
            && after.issued == before.issued)),
        !before.issued && after.issued ==> (event matches Some(e) && e.session_update is Some),
        after.account_id == before.account_id && after.credential_revision
            == before.credential_revision,
{
}

} // verus!
