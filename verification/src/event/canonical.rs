//! The facts of a response that the gateway understands: what a plugin reports of them, and what
//! the engine is told.

use vstd::prelude::*;

use crate::billing::{plan_cost, BillingPlan, CalculatedCost, PriceBand, Usage};
use crate::fault::{
    bare_error, stream_protocol_error, ProviderError, ProviderErrorKind, UpstreamSendState,
};
use crate::text::{byte_len, length_in_bytes, same};

verus! {

/// The most bytes of the name of a response.
pub const MAX_RESPONSE_ID_BYTES: usize = 512;

/// What a part of a response is.
#[derive(Clone, Copy, Debug, PartialEq, Eq, Structural)]
pub enum ContentKind {
    Text,
    Reasoning,
    ToolCall,
    Image,
    Audio,
}

/// Why a response ended.
#[derive(Clone, Copy, Debug, PartialEq, Eq, Structural)]
pub enum FinishReason {
    Stop,
    Length,
    ToolCall,
    ContentFilter,
    Other,
}

/// A fact of a response, as a plugin reports it.
pub enum CanonicalEvent {
    Started { id: String, model: Option<String> },
    Completed { id: String, model: Option<String>, reason: FinishReason },
    ContentAdded { index: u32, kind: ContentKind },
    TextDelta { index: u32, text: String },
    ReasoningDelta { index: u32, text: String },
    ToolCallDelta { index: u32, call_id: Option<String>, name: Option<String>, arguments: String },
    Usage { usage: Usage },
    /// A cost that the provider reports: the amount in ticks, or nothing where it is none that can
    /// be accounted for.
    ProviderCost { amount: Option<u128>, currency: String },
    BillableUsage { usage: Usage, band: PriceBand },
}

/// What a response is known by.
pub struct ResponseMeta {
    pub id: String,
    /// The model, or nothing where an endpoint of the provider answered.
    pub model: Option<String>,
    pub finish_reason: Option<FinishReason>,
}

/// A fact of a response, as the engine is told.
pub enum GatewayEvent {
    Started(ResponseMeta),
    Completed(ResponseMeta),
    ContentAdded { content_index: u32, kind: ContentKind },
    TextDelta { content_index: u32, text: String },
    ReasoningDelta { content_index: u32, text: String },
    ToolCallDelta {
        content_index: u32,
        call_id: Option<String>,
        name: Option<String>,
        arguments_delta: String,
    },
    Usage(Usage),
    CalculatedCost(CalculatedCost),
    /// A cost in ticks.
    ProviderCost(u128),
}

/// The name of a response can be kept.
pub open spec fn is_response_id(id: Seq<char>) -> bool {
    0 < byte_len(id) <= MAX_RESPONSE_ID_BYTES
}

/// A fact that a plugin may report under a billing plan. Usage that the host is to charge needs a
/// plan to charge it by; a cost is in dollars.
pub open spec fn is_reportable(event: CanonicalEvent, billing: BillingPlan) -> bool {
    match event {
        CanonicalEvent::Started { id, .. } => is_response_id(id@),
        CanonicalEvent::Completed { id, .. } => is_response_id(id@),
        CanonicalEvent::ProviderCost { amount, currency } => currency@ == "USD"@ && amount is Some,
        CanonicalEvent::BillableUsage { .. } => billing.enabled,
        _ => true,
    }
}

/// What the engine is told of usage that the host charges.
pub open spec fn charged_usage(usage: Usage, band: PriceBand, billing: BillingPlan) -> Seq<
    GatewayEvent,
> {
    match plan_cost(billing.price, usage, band) {
        Some(cost) => seq![GatewayEvent::Usage(usage), GatewayEvent::CalculatedCost(cost)],
        None => seq![GatewayEvent::Usage(usage)],
    }
}

/// What the engine is told of a fact.
pub open spec fn told(event: CanonicalEvent, billing: BillingPlan) -> Seq<GatewayEvent> {
    match event {
        CanonicalEvent::BillableUsage { usage, band } => charged_usage(usage, band, billing),
        CanonicalEvent::Started { id, model } => seq![
            GatewayEvent::Started(ResponseMeta { id, model, finish_reason: None }),
        ],
        CanonicalEvent::Completed { id, model, reason } => seq![
            GatewayEvent::Completed(ResponseMeta { id, model, finish_reason: Some(reason) }),
        ],
        CanonicalEvent::ContentAdded { index, kind } => seq![
            GatewayEvent::ContentAdded { content_index: index, kind },
        ],
        CanonicalEvent::TextDelta { index, text } => seq![
            GatewayEvent::TextDelta { content_index: index, text },
        ],
        CanonicalEvent::ReasoningDelta { index, text } => seq![
            GatewayEvent::ReasoningDelta { content_index: index, text },
        ],
        CanonicalEvent::ToolCallDelta { index, call_id, name, arguments } => seq![
            GatewayEvent::ToolCallDelta {
                content_index: index,
                call_id,
                name,
                arguments_delta: arguments,
            },
        ],
        CanonicalEvent::Usage { usage } => seq![GatewayEvent::Usage(usage)],
        CanonicalEvent::ProviderCost { amount, .. } => seq![GatewayEvent::ProviderCost(amount->0)],
    }
}

fn metadata(id: String, model: Option<String>) -> (result: Result<ResponseMeta, ProviderError>)
    ensures
        match result {
            Ok(meta) => is_response_id(id@) && meta == (ResponseMeta {
                id,
                model,
                finish_reason: None,
            }),
            Err(error) => !is_response_id(id@) && error == bare_error(
                ProviderErrorKind::Protocol,
                UpstreamSendState::Ambiguous,
            ),
        },
{
    let bytes = length_in_bytes(id.as_str());
    if bytes == 0 || bytes > MAX_RESPONSE_ID_BYTES {
        return Err(stream_protocol_error());
    }
    Ok(ResponseMeta { id, model, finish_reason: None })
}

/// Adds what the engine is told of a fact.
pub fn append(event: CanonicalEvent, billing: &BillingPlan, facts: &mut Vec<GatewayEvent>) -> (result:
    Result<(), ProviderError>)
    ensures
        match result {
            Ok(()) => is_reportable(event, *billing) && final(facts)@ == old(facts)@ + told(
                event,
                *billing,
            ),
            Err(error) => !is_reportable(event, *billing) && final(facts)@ == old(facts)@ && error
                == bare_error(ProviderErrorKind::Protocol, UpstreamSendState::Ambiguous),
        },
{
    let fact = match event {
        CanonicalEvent::BillableUsage { usage, band } => {
            if !billing.enabled() {
                return Err(stream_protocol_error());
            }
            let cost = billing.calculate(&usage, band);
            facts.push(GatewayEvent::Usage(usage));
            match cost {
                Some(cost) => facts.push(GatewayEvent::CalculatedCost(cost)),
                None => {},
            }
            assert(facts@ =~= old(facts)@ + told(event, *billing));
            return Ok(());
        },
        CanonicalEvent::Started { id, model } => match metadata(id, model) {
            Ok(meta) => GatewayEvent::Started(meta),
            Err(error) => return Err(error),
        },
        CanonicalEvent::Completed { id, model, reason } => match metadata(id, model) {
            Ok(meta) => GatewayEvent::Completed(
                ResponseMeta { id: meta.id, model: meta.model, finish_reason: Some(reason) },
            ),
            Err(error) => return Err(error),
        },
        CanonicalEvent::ContentAdded { index, kind } => GatewayEvent::ContentAdded {
            content_index: index,
            kind,
        },
        CanonicalEvent::TextDelta { index, text } => GatewayEvent::TextDelta {
            content_index: index,
            text,
        },
        CanonicalEvent::ReasoningDelta { index, text } => GatewayEvent::ReasoningDelta {
            content_index: index,
            text,
        },
        CanonicalEvent::ToolCallDelta { index, call_id, name, arguments } => {
            GatewayEvent::ToolCallDelta {
                content_index: index,
                call_id,
                name,
                arguments_delta: arguments,
            }
        },
        CanonicalEvent::Usage { usage } => GatewayEvent::Usage(usage),
        CanonicalEvent::ProviderCost { amount, currency } => {
            if !same(currency.as_str(), "USD") {
                return Err(stream_protocol_error());
            }
            match amount {
                Some(ticks) => GatewayEvent::ProviderCost(ticks),
                None => return Err(stream_protocol_error()),
            }
        },
    };
    facts.push(fact);
    assert(facts@ =~= old(facts)@ + told(event, *billing));
    Ok(())
}

/// All facts may be reported.
pub open spec fn all_reportable(events: Seq<CanonicalEvent>, billing: BillingPlan) -> bool {
    forall|i: int| 0 <= i < events.len() ==> is_reportable(#[trigger] events[i], billing)
}

/// What the engine is told of several facts.
pub open spec fn all_told(events: Seq<CanonicalEvent>, billing: BillingPlan) -> Seq<GatewayEvent>
    decreases events.len(),
{
    if events.len() == 0 {
        Seq::empty()
    } else {
        all_told(events.drop_last(), billing) + told(events.last(), billing)
    }
}

/// Every fact tells the engine something, and the last thing told is about the last fact.
pub proof fn lemma_all_told(events: Seq<CanonicalEvent>, billing: BillingPlan)
    ensures
        events.len() > 0 ==> all_told(events, billing).len() > 0,
        events.len() == 0 ==> all_told(events, billing).len() == 0,
        events.len() > 0 ==> (all_told(events, billing).last() is Completed
            <==> events.last() is Completed),
    decreases events.len(),
{
    if events.len() > 0 {
        lemma_all_told(events.drop_last(), billing);
        let last = told(events.last(), billing);
        assert(last.len() > 0);
        assert(all_told(events, billing).last() == last.last());
    }
}

/// A response is reported as completed to the engine exactly where a plugin reports it so.
pub proof fn completed_is_told(events: Seq<CanonicalEvent>, billing: BillingPlan)
    ensures
        (exists|i: int|
            0 <= i < all_told(events, billing).len() && (#[trigger] all_told(
                events,
                billing,
            )[i]) is Completed) <==> (exists|i: int|
            0 <= i < events.len() && (#[trigger] events[i]) is Completed),
    decreases events.len(),
{
    if events.len() > 0 {
        let front = events.drop_last();
        completed_is_told(front, billing);
        let before = all_told(front, billing);
        let last = told(events.last(), billing);
        let whole = all_told(events, billing);
        assert(whole == before + last);
        if exists|i: int| 0 <= i < whole.len() && (#[trigger] whole[i]) is Completed {
            let i = choose|i: int| 0 <= i < whole.len() && (#[trigger] whole[i]) is Completed;
            if i < before.len() {
                assert(before[i] is Completed);
                let k = choose|k: int| 0 <= k < front.len() && (#[trigger] front[k]) is Completed;
                assert(events[k] is Completed);
            } else {
                assert(last[i - before.len()] is Completed);
                assert(events[events.len() - 1] is Completed);
            }
        }
        if exists|i: int| 0 <= i < events.len() && (#[trigger] events[i]) is Completed {
            let i = choose|i: int| 0 <= i < events.len() && (#[trigger] events[i]) is Completed;
            if i < front.len() {
                assert(front[i] is Completed);
                let k = choose|k: int| 0 <= k < before.len() && (#[trigger] before[k]) is Completed;
                assert(whole[k] is Completed);
            } else {
                assert(last[0] is Completed);
                assert(whole[before.len() as int] is Completed);
            }
        }
    }
}

/// The engine is told a fact of the kind that the plugin reported, about the same part of the response
/// and with the same words, and nothing besides: text is told as text, reasoning as reasoning, a call of
/// a tool as one. Only usage that the host charges may be told as two facts, the usage and its cost.
pub proof fn told_as_reported(event: CanonicalEvent, billing: BillingPlan)
    requires
        is_reportable(event, billing),
    ensures
        !(event is BillableUsage) ==> told(event, billing).len() == 1,
        event is BillableUsage ==> 1 <= told(event, billing).len() <= 2,
        told(event, billing)[0] is Started <==> event is Started,
        told(event, billing)[0] is Completed <==> event is Completed,
        told(event, billing)[0] is ContentAdded <==> event is ContentAdded,
        told(event, billing)[0] is TextDelta <==> event is TextDelta,
        told(event, billing)[0] is ReasoningDelta <==> event is ReasoningDelta,
        told(event, billing)[0] is ToolCallDelta <==> event is ToolCallDelta,
        told(event, billing)[0] is ProviderCost <==> event is ProviderCost,
        told(event, billing)[0] is Usage <==> (event is Usage || event is BillableUsage),
        event matches CanonicalEvent::TextDelta { index, text } ==> (told(event, billing)[0]
            matches GatewayEvent::TextDelta { content_index, text: words } && content_index == index
            && words@ == text@),
        event matches CanonicalEvent::ReasoningDelta { index, text } ==> (told(event, billing)[0]
            matches GatewayEvent::ReasoningDelta { content_index, text: words } && content_index
            == index && words@ == text@),
        event matches CanonicalEvent::ToolCallDelta { index, call_id, name, arguments } ==> (told(
            event,
            billing,
        )[0] matches GatewayEvent::ToolCallDelta {
            content_index,
            call_id: id,
            name: tool,
            arguments_delta,
        } && content_index == index && id == call_id && tool == name && arguments_delta@
            == arguments@),
        event matches CanonicalEvent::ContentAdded { index, kind } ==> (told(event, billing)[0]
            matches GatewayEvent::ContentAdded { content_index, kind: part } && content_index
            == index && part == kind),
        event matches CanonicalEvent::Started { id, model } ==> (told(event, billing)[0]
            matches GatewayEvent::Started(meta) && meta.id@ == id@ && meta.model == model
            && meta.finish_reason is None),
        event matches CanonicalEvent::Completed { id, model, reason } ==> (told(event, billing)[0]
            matches GatewayEvent::Completed(meta) && meta.id@ == id@ && meta.model == model
            && meta.finish_reason == Some(reason)),
        event matches CanonicalEvent::Usage { usage } ==> (told(event, billing)[0]
            matches GatewayEvent::Usage(counted) && counted == usage),
        event matches CanonicalEvent::ProviderCost { amount, .. } ==> (told(event, billing)[0]
            matches GatewayEvent::ProviderCost(ticks) && amount == Some(ticks)),
        event matches CanonicalEvent::BillableUsage { usage, .. } ==> (told(event, billing)[0]
            matches GatewayEvent::Usage(counted) && counted == usage),
        told(event, billing).len() == 2 ==> told(event, billing)[1] is CalculatedCost,
{
}

/// The words that a plugin reports for a part of the response: `kind` says of which facts.
pub open spec fn reported_words(
    events: Seq<CanonicalEvent>,
    kind: ContentKind,
    index: u32,
) -> Seq<char>
    decreases events.len(),
{
    if events.len() == 0 {
        Seq::empty()
    } else {
        reported_words(events.drop_last(), kind, index) + (match events.last() {
            CanonicalEvent::TextDelta { index: at, text } if kind is Text && at == index => text@,
            CanonicalEvent::ReasoningDelta { index: at, text } if kind is Reasoning && at
                == index => text@,
            CanonicalEvent::ToolCallDelta { index: at, arguments, .. } if kind is ToolCall && at
                == index => arguments@,
            _ => Seq::empty(),
        })
    }
}

/// The words that the engine is told of a part of the response.
pub open spec fn told_words(facts: Seq<GatewayEvent>, kind: ContentKind, index: u32) -> Seq<char>
    decreases facts.len(),
{
    if facts.len() == 0 {
        Seq::empty()
    } else {
        told_words(facts.drop_last(), kind, index) + (match facts.last() {
            GatewayEvent::TextDelta { content_index: at, text } if kind is Text && at
                == index => text@,
            GatewayEvent::ReasoningDelta { content_index: at, text } if kind is Reasoning && at
                == index => text@,
            GatewayEvent::ToolCallDelta { content_index: at, arguments_delta, .. } if kind
                is ToolCall && at == index => arguments_delta@,
            _ => Seq::empty(),
        })
    }
}

proof fn lemma_told_words_add(
    a: Seq<GatewayEvent>,
    b: Seq<GatewayEvent>,
    kind: ContentKind,
    index: u32,
)
    ensures
        told_words(a + b, kind, index) == told_words(a, kind, index) + told_words(b, kind, index),
    decreases b.len(),
{
    if b.len() == 0 {
        assert(a + b =~= a);
    } else {
        assert((a + b).drop_last() =~= a + b.drop_last());
        assert((a + b).last() == b.last());
        lemma_told_words_add(a, b.drop_last(), kind, index);
        assert(told_words(a + b, kind, index) =~= told_words(a, kind, index) + told_words(
            b,
            kind,
            index,
        ));
    }
}

/// No word of a response is lost, added, moved to another part or told as something else: the text, the
/// reasoning and the arguments of tools that the engine is told, put together part by part, are those
/// that the plugin reported.
pub proof fn words_are_kept(
    events: Seq<CanonicalEvent>,
    billing: BillingPlan,
    kind: ContentKind,
    index: u32,
)
    ensures
        told_words(all_told(events, billing), kind, index) == reported_words(events, kind, index),
    decreases events.len(),
{
    reveal_with_fuel(told_words, 3);
    if events.len() > 0 {
        words_are_kept(events.drop_last(), billing, kind, index);
        let last = told(events.last(), billing);
        lemma_told_words_add(all_told(events.drop_last(), billing), last, kind, index);
        if last.len() == 1 {
            assert(last.drop_last() =~= Seq::<GatewayEvent>::empty());
        } else {
            assert(last.drop_last().drop_last() =~= Seq::<GatewayEvent>::empty());
        }
        assert(told_words(last, kind, index) =~= match events.last() {
            CanonicalEvent::TextDelta { index: at, text } if kind is Text && at == index => text@,
            CanonicalEvent::ReasoningDelta { index: at, text } if kind is Reasoning && at
                == index => text@,
            CanonicalEvent::ToolCallDelta { index: at, arguments, .. } if kind is ToolCall && at
                == index => arguments@,
            _ => Seq::empty(),
        });
    }
}

/// Facts are told in the order in which they are reported: what is told of two reports, one after the
/// other, is what is told of the first and then what is told of the second.
pub proof fn told_in_order(a: Seq<CanonicalEvent>, b: Seq<CanonicalEvent>, billing: BillingPlan)
    ensures
        all_told(a + b, billing) == all_told(a, billing) + all_told(b, billing),
        b.len() == 1 ==> all_told(b, billing) == told(b[0], billing),
    decreases b.len(),
{
    if b.len() == 1 {
        assert(b.drop_last() =~= Seq::<CanonicalEvent>::empty());
        assert(all_told(b.drop_last(), billing) =~= Seq::<GatewayEvent>::empty());
        assert(all_told(b, billing) =~= told(b[0], billing));
    }
    if b.len() == 0 {
        assert(a + b =~= a);
        assert(all_told(a, billing) + all_told(b, billing) =~= all_told(a, billing));
    } else {
        assert((a + b).drop_last() =~= a + b.drop_last());
        assert((a + b).last() == b.last());
        told_in_order(a, b.drop_last(), billing);
        assert(all_told(a + b, billing) =~= all_told(a, billing) + all_told(b, billing));
    }
}

/// What a plugin may report of a response itself does not depend on prices. The name of a response has
/// between 1 and 512 bytes, a cost is in dollars and known, and only usage that the host charges needs
/// the plugin to have declared prices.
pub proof fn reportable_by_kind(event: CanonicalEvent, billing: BillingPlan, other: BillingPlan)
    ensures
        !(event is BillableUsage) ==> is_reportable(event, billing) == is_reportable(event, other),
        event is ContentAdded || event is TextDelta || event is ReasoningDelta || event
            is ToolCallDelta || event is Usage ==> is_reportable(event, billing),
        event matches CanonicalEvent::Started { id, .. } ==> is_reportable(event, billing) == (1
            <= byte_len(id@) <= 512),
        event matches CanonicalEvent::Completed { id, .. } ==> is_reportable(event, billing) == (1
            <= byte_len(id@) <= 512),
        event matches CanonicalEvent::ProviderCost { amount, currency } ==> is_reportable(
            event,
            billing,
        ) == (amount is Some && currency@ == "USD"@),
        event is BillableUsage ==> is_reportable(event, billing) == billing.enabled,
{
}

/// One fact that may not be reported spoils the whole report, and nothing else does.
pub proof fn reports_stand_together(
    a: Seq<CanonicalEvent>,
    b: Seq<CanonicalEvent>,
    billing: BillingPlan,
)
    ensures
        all_reportable(a + b, billing) <==> all_reportable(a, billing) && all_reportable(b, billing),
        a.len() == 1 ==> all_reportable(a, billing) == is_reportable(a[0], billing),
{
    if all_reportable(a + b, billing) {
        assert forall|i: int| 0 <= i < a.len() implies is_reportable(#[trigger] a[i], billing) by {
            assert((a + b)[i] == a[i]);
        }
        assert forall|i: int| 0 <= i < b.len() implies is_reportable(#[trigger] b[i], billing) by {
            assert((a + b)[a.len() + i] == b[i]);
        }
    }
    if a.len() == 1 && is_reportable(a[0], billing) {
        assert(all_reportable(a, billing));
    }
}

/// Usage that the host charges is told with the cost that the plan gives for it, in the band that the
/// plugin reported, and without one exactly where the plan gives none.
pub proof fn charged_by_the_plan(usage: Usage, band: PriceBand, billing: BillingPlan)
    ensures
        ({
            let facts = told(CanonicalEvent::BillableUsage { usage, band }, billing);
            match plan_cost(billing.price, usage, band) {
                Some(cost) => facts.len() == 2 && facts[0] == GatewayEvent::Usage(usage) && facts[1]
                    == GatewayEvent::CalculatedCost(cost),
                None => facts.len() == 1 && facts[0] == GatewayEvent::Usage(usage),
            }
        }),
{
}

} // verus!
