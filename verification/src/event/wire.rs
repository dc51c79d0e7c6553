//! The parts of a response that are passed on in the form in which they came.

use vstd::prelude::*;

use crate::fault::{
    bare_error, stream_protocol_error, ProviderError, ProviderErrorKind, UpstreamSendState,
};
use crate::json::{decode as decode_json, json_eq, parsed_json, same_document, Json, JsonView};
use crate::text::{holds, same_optional, text_of, texts};
use vstd::utf8::encode_utf8;

verus! {

/// An event of a stream, taken apart.
pub struct SseEvent {
    pub event: Option<String>,
    pub id: Option<String>,
    pub retry: Option<u64>,
    pub data: String,
}

/// A frame of a stream: its bytes, where its first frame ends, and the events in it where it is well
/// formed.
pub struct RawFrame {
    pub bytes: Vec<u8>,
    pub frame_end: Option<usize>,
    pub events: Option<Vec<SseEvent>>,
}

/// What a plugin passes on.
pub enum WirePayload {
    Json {
        event: Option<String>,
        data: Json,
        id: Option<String>,
        retry: Option<u64>,
        raw_sse: Option<RawFrame>,
    },
    RawSse { frame: RawFrame },
    RawJson { body: Vec<u8> },
    RawBody { body: Vec<u8> },
}

/// What a plugin passes on, and in which protocol.
pub struct WireEvent {
    pub protocol: String,
    pub payload: WirePayload,
}

/// What the engine passes on.
pub enum WireContent {
    Json {
        event: Option<String>,
        data: Json,
        id: Option<String>,
        retry: Option<u64>,
        raw_sse: Option<Vec<u8>>,
    },
    RawSse { frame: Vec<u8> },
    RawJson { body: Vec<u8> },
    RawBody { body: Vec<u8> },
}

/// What the engine passes on, and in which protocol.
pub struct ProtocolWireEvent {
    pub protocol: String,
    pub content: WireContent,
}

/// A character that would break a frame.
pub open spec fn is_frame_break(c: char) -> bool {
    c == '\r' || c == '\n' || c == '\0'
}

/// A text without such a character.
pub open spec fn is_one_line(text: Seq<char>) -> bool {
    forall|i: int| 0 <= i < text.len() ==> !is_frame_break(#[trigger] text[i])
}

/// A field of a frame, where it is given, stays within its line.
pub open spec fn is_field(value: Option<String>) -> bool {
    value matches Some(text) ==> is_one_line(text@)
}

/// Bytes that are one whole frame and nothing more.
pub open spec fn is_frame(frame: RawFrame) -> bool {
    frame.bytes@.len() > 0 && frame.frame_end == Some(frame.bytes@.len() as usize)
}

/// The document that an event carries.
pub open spec fn event_data(event: SseEvent) -> Option<JsonView> {
    parsed_json(encode_utf8(event.data@))
}

/// A frame says exactly what was said of it.
pub open spec fn is_faithful(
    frame: RawFrame,
    event: Option<String>,
    data: JsonView,
    id: Option<String>,
    retry: Option<u64>,
) -> bool {
    &&& is_frame(frame)
    &&& frame.events matches Some(events) && events@.len() == 1 && {
        let parsed = events@[0];
        &&& text_of(parsed.event) == text_of(event)
        &&& text_of(parsed.id) == text_of(id)
        &&& parsed.retry == retry
        &&& event_data(parsed) matches Some(document) && same_document(document, data)
    }
}

/// Something that may be passed on.
pub open spec fn is_payload(payload: WirePayload) -> bool {
    match payload {
        WirePayload::Json { event, data, id, retry, raw_sse } => {
            &&& is_field(event)
            &&& is_field(id)
            &&& raw_sse matches Some(frame) ==> is_faithful(frame, event, data@, id, retry)
        },
        WirePayload::RawSse { frame } => is_frame(frame),
        WirePayload::RawJson { body } => parsed_json(body@) is Some,
        WirePayload::RawBody { .. } => true,
    }
}

/// Something that may be passed on in one of the protocols that a plugin declared.
pub open spec fn is_wire(wire: WireEvent, formats: Seq<String>) -> bool {
    texts(formats).contains(wire.protocol@) && is_payload(wire.payload)
}

/// What is passed on of a payload.
pub open spec fn passed_on(payload: WirePayload) -> WireContent {
    match payload {
        WirePayload::Json { event, data, id, retry, raw_sse } => WireContent::Json {
            event,
            data,
            id,
            retry,
            raw_sse: match raw_sse {
                Some(frame) => Some(frame.bytes),
                None => None,
            },
        },
        WirePayload::RawSse { frame } => WireContent::RawSse { frame: frame.bytes },
        WirePayload::RawJson { body } => WireContent::RawJson { body },
        WirePayload::RawBody { body } => WireContent::RawBody { body },
    }
}

fn one_line(text: &str) -> (r: bool)
    ensures
        r == is_one_line(text@),
{
    for c in it: text.chars()
        invariant
            it.seq() == text@,
            forall|i: int| 0 <= i < it.index() ==> !is_frame_break(#[trigger] text@[i]),
    {
        if c == '\r' || c == '\n' || c == '\0' {
            assert(is_frame_break(text@[it.index()]));
            return false;
        }
    }
    true
}

fn field(value: &Option<String>) -> (r: bool)
    ensures
        r == is_field(*value),
{
    match value {
        Some(text) => one_line(text.as_str()),
        None => true,
    }
}

fn validate_frame(frame: &RawFrame) -> (r: bool)
    ensures
        r == is_frame(*frame),
{
    match frame.frame_end {
        Some(end) => frame.bytes.len() > 0 && end == frame.bytes.len(),
        None => false,
    }
}

fn same_retry(a: Option<u64>, b: Option<u64>) -> (r: bool)
    ensures
        r == (a == b),
{
    match (a, b) {
        (None, None) => true,
        (Some(a), Some(b)) => a == b,
        _ => false,
    }
}

fn faithful(
    frame: &RawFrame,
    event: &Option<String>,
    data: &Json,
    id: &Option<String>,
    retry: Option<u64>,
) -> (r: bool)
    ensures
        r == is_faithful(*frame, *event, data@, *id, retry),
{
    if !validate_frame(frame) {
        return false;
    }
    let events = match &frame.events {
        Some(events) => events,
        None => return false,
    };
    if events.len() != 1 {
        return false;
    }
    let parsed = &events[0];
    let document = match decode_json(parsed.data.as_str().as_bytes()) {
        Some(document) => document,
        None => return false,
    };
    same_optional(&parsed.event, event) && same_optional(&parsed.id, id) && same_retry(
        parsed.retry,
        retry,
    ) && json_eq(&document, data)
}

pub fn decode(wire: WireEvent, formats: &Vec<String>) -> (result: Result<
    ProtocolWireEvent,
    ProviderError,
>)
    ensures
        match result {
            Ok(event) => is_wire(wire, formats@) && event == (ProtocolWireEvent {
                protocol: wire.protocol,
                content: passed_on(wire.payload),
            }),
            Err(error) => !is_wire(wire, formats@) && error == bare_error(
                ProviderErrorKind::Protocol,
                UpstreamSendState::Ambiguous,
            ),
        },
{
    if !holds(formats, wire.protocol.as_str()) {
        return Err(stream_protocol_error());
    }
    let content = match wire.payload {
        WirePayload::Json { event, data, id, retry, raw_sse } => {
            if !field(&event) || !field(&id) {
                return Err(stream_protocol_error());
            }
            let raw_sse = match raw_sse {
                Some(frame) => {
                    if !faithful(&frame, &event, &data, &id, retry) {
                        return Err(stream_protocol_error());
                    }
                    Some(frame.bytes)
                },
                None => None,
            };
            WireContent::Json { event, data, id, retry, raw_sse }
        },
        WirePayload::RawSse { frame } => {
            if !validate_frame(&frame) {
                return Err(stream_protocol_error());
            }
            WireContent::RawSse { frame: frame.bytes }
        },
        WirePayload::RawJson { body } => {
            if decode_json(body.as_slice()).is_none() {
                return Err(stream_protocol_error());
            }
            WireContent::RawJson { body }
        },
        WirePayload::RawBody { body } => WireContent::RawBody { body },
    };
    Ok(ProtocolWireEvent { protocol: wire.protocol, content })
}

/// What is passed on is never changed: a raw frame, document or body reaches the client with the
/// bytes that the plugin gave.
pub proof fn raw_bytes_are_kept(wire: WireEvent, formats: Seq<String>)
    requires
        is_wire(wire, formats),
    ensures
        wire.payload matches WirePayload::RawSse { frame } ==> passed_on(wire.payload)
            == (WireContent::RawSse { frame: frame.bytes }),
        wire.payload matches WirePayload::RawJson { body } ==> passed_on(wire.payload)
            == (WireContent::RawJson { body }),
        wire.payload matches WirePayload::RawBody { body } ==> passed_on(wire.payload)
            == (WireContent::RawBody { body }),
{
}

/// What is passed on as a document is passed on as it was said: the same event, document, name and
/// waiting time, with the bytes of its frame where one was given.
pub proof fn documents_are_passed_on_as_said(payload: WirePayload)
    ensures
        payload matches WirePayload::Json { event, data, id, retry, raw_sse } ==> passed_on(payload)
            matches WireContent::Json { event: e, data: d, id: i, retry: r, raw_sse: bytes } && e
            == event && d == data && i == id && r == retry && (bytes is Some <==> raw_sse is Some)
            && (raw_sse is Some ==> bytes == Some(raw_sse->0.bytes)),
        passed_on(payload) is Json <==> payload is Json,
        passed_on(payload) is RawSse <==> payload is RawSse,
        passed_on(payload) is RawJson <==> payload is RawJson,
        passed_on(payload) is RawBody <==> payload is RawBody,
{
}

/// Nothing that is passed on breaks its frame: the fields of a document hold no end of a line and no
/// zero, a frame is whole and the only one in its bytes, and a document can be read as one.
pub proof fn frames_are_not_broken(wire: WireEvent, formats: Seq<String>)
    requires
        is_wire(wire, formats),
    ensures
        exists|i: int| 0 <= i < formats.len() && (#[trigger] formats[i])@ == wire.protocol@,
        wire.payload matches WirePayload::Json { event, data, id, retry, raw_sse } ==> {
            &&& event is Some ==> forall|i: int|
                0 <= i < event->0@.len() ==> (#[trigger] event->0@[i]) != '\r' && event->0@[i]
                    != '\n' && event->0@[i] != '\0'
            &&& id is Some ==> forall|i: int|
                0 <= i < id->0@.len() ==> (#[trigger] id->0@[i]) != '\r' && id->0@[i] != '\n'
                    && id->0@[i] != '\0'
            &&& raw_sse is Some ==> raw_sse->0.bytes@.len() > 0 && raw_sse->0.frame_end == Some(
                raw_sse->0.bytes@.len() as usize,
            ) && raw_sse->0.events is Some && raw_sse->0.events->0@.len() == 1
        },
        wire.payload matches WirePayload::RawSse { frame } ==> frame.bytes@.len() > 0
            && frame.frame_end == Some(frame.bytes@.len() as usize),
        wire.payload matches WirePayload::RawJson { body } ==> parsed_json(body@) is Some,
{
    let i = choose|i: int| 0 <= i < texts(formats).len() && texts(formats)[i] == wire.protocol@;
    assert(formats[i]@ == wire.protocol@);
    if wire.payload is Json {
        let event = wire.payload->event;
        let id = wire.payload->id;
        if event is Some {
            assert forall|i: int| 0 <= i < event->0@.len() implies (#[trigger] event->0@[i]) != '\r'
                && event->0@[i] != '\n' && event->0@[i] != '\0' by {
                assert(!is_frame_break(event->0@[i]));
            }
        }
        if id is Some {
            assert forall|i: int| 0 <= i < id->0@.len() implies (#[trigger] id->0@[i]) != '\r'
                && id->0@[i] != '\n' && id->0@[i] != '\0' by {
                assert(!is_frame_break(id->0@[i]));
            }
        }
    }
}

/// A frame that comes with a document says the same as the document: the same event, name and waiting
/// time, and a document that is equal.
pub proof fn frames_say_what_is_said(
    frame: RawFrame,
    event: Option<String>,
    data: JsonView,
    id: Option<String>,
    retry: Option<u64>,
)
    requires
        is_faithful(frame, event, data, id, retry),
    ensures
        frame.events is Some && frame.events->0@.len() == 1,
        frame.events->0@[0].event is Some <==> event is Some,
        event is Some ==> frame.events->0@[0].event->0@ == event->0@,
        frame.events->0@[0].id is Some <==> id is Some,
        id is Some ==> frame.events->0@[0].id->0@ == id->0@,
        frame.events->0@[0].retry == retry,
        parsed_json(encode_utf8(frame.events->0@[0].data@)) is Some,
        same_document(parsed_json(encode_utf8(frame.events->0@[0].data@))->0, data),
{
}

/// A plain body, and a document without a frame, may be passed on in every protocol that is declared;
/// in no other may anything be.
pub proof fn declared_protocols_only(wire: WireEvent, formats: Seq<String>)
    ensures
        !(exists|i: int| 0 <= i < formats.len() && (#[trigger] formats[i])@ == wire.protocol@)
            ==> !is_wire(wire, formats),
        (exists|i: int| 0 <= i < formats.len() && (#[trigger] formats[i])@ == wire.protocol@)
            && wire.payload is RawBody ==> is_wire(wire, formats),
        (exists|i: int| 0 <= i < formats.len() && (#[trigger] formats[i])@ == wire.protocol@) && (
        wire.payload matches WirePayload::Json { event, data, id, retry, raw_sse } && event is None
            && id is None && raw_sse is None) ==> is_wire(wire, formats),
{
    if exists|i: int| 0 <= i < formats.len() && (#[trigger] formats[i])@ == wire.protocol@ {
        let i = choose|i: int| 0 <= i < formats.len() && (#[trigger] formats[i])@ == wire.protocol@;
        assert(texts(formats)[i] == wire.protocol@);
    }
    if texts(formats).contains(wire.protocol@) {
        let i = choose|i: int| 0 <= i < texts(formats).len() && texts(formats)[i] == wire.protocol@;
        assert(formats[i]@ == wire.protocol@);
    }
}

/// A frame that holds one event which says what is said is passed on with it, and so is every frame
/// that ends where its bytes do.
pub proof fn faithful_frames_are_passed_on(
    wire: WireEvent,
    formats: Seq<String>,
    frame: RawFrame,
    event: Option<String>,
    data: JsonView,
    id: Option<String>,
    retry: Option<u64>,
)
    requires
        texts(formats).contains(wire.protocol@),
        frame.bytes@.len() > 0,
        frame.frame_end == Some(frame.bytes@.len() as usize),
    ensures
        wire.payload == (WirePayload::RawSse { frame }) ==> is_wire(wire, formats),
        frame.events matches Some(events) ==> (events@.len() == 1 && events@[0].event == event
            && events@[0].id == id && events@[0].retry == retry && parsed_json(
            encode_utf8(events@[0].data@),
        ) == Some(data) ==> is_faithful(frame, event, data, id, retry)),
        wire.payload matches WirePayload::RawJson { body } ==> (is_wire(wire, formats)
            <==> parsed_json(body@) is Some),
{
    crate::json::equal_either_way(data, data);
}

/// A field of an event may be any text of one line.
pub proof fn fields_of_one_line(value: String)
    ensures
        is_field(None),
        is_field(Some(value)) <==> forall|i: int|
            0 <= i < value@.len() ==> (#[trigger] value@[i]) != '\r' && value@[i] != '\n'
                && value@[i] != '\0',
{
    if is_field(Some(value)) {
        assert forall|i: int| 0 <= i < value@.len() implies (#[trigger] value@[i]) != '\r'
            && value@[i] != '\n' && value@[i] != '\0' by {
            assert(!is_frame_break(value@[i]));
        }
    }
}

} // verus!
