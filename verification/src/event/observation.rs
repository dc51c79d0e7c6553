//! What a plugin observed of a response besides its contents.

use vstd::prelude::*;

use crate::fault::{
    bare_error, stream_protocol_error, ProviderError, ProviderErrorKind, UpstreamSendState,
};
use crate::forecast::{is_forecast, metadata, QuotaForecast};
use crate::text::{byte_len, length_in_bytes};

verus! {

/// The most headers that may be passed on.
pub const MAX_HEADERS: usize = 64;

/// The most bytes that the headers may take together.
pub const MAX_HEADER_BYTES: usize = 16384;

/// The most bytes of the name of a header.
pub const MAX_HEADER_NAME_BYTES: usize = 256;

/// The version of the protocol that a response came in.
#[derive(Clone, Copy, Debug, PartialEq, Eq, Structural)]
pub enum UpstreamHttpVersion {
    Http09,
    Http10,
    Http11,
    Http2,
    Http3,
}

/// How long the steps of a response took, in milliseconds.
#[derive(Clone, Copy, Debug, PartialEq, Eq, Structural)]
pub struct ProviderResponseTimings {
    pub transport_decision_wait_ms: Option<u64>,
    pub connect_ms: Option<u64>,
    pub headers_ms: Option<u64>,
    pub first_event_ms: Option<u64>,
    pub first_reasoning_ms: Option<u64>,
    pub first_text_ms: Option<u64>,
    pub first_token_ms: Option<u64>,
    pub provider_processing_ms: Option<u64>,
}

/// A header of a response.
pub struct ProviderResponseHeader {
    pub name: String,
    pub value: Vec<u8>,
}

/// A header that a plugin wants passed on, and whether headers of that name are.
pub struct ObservedHeader {
    pub name: String,
    pub value: Vec<u8>,
    pub forwardable: bool,
}

/// A text that a plugin reports, and whether it is one of its kind.
pub struct JudgedText {
    pub text: String,
    pub accepted: bool,
}

/// What a plugin observed of a response.
pub struct ResponseObservation {
    pub status: Option<u16>,
    pub client_headers: Vec<ObservedHeader>,
    pub timings: ProviderResponseTimings,
    pub request_id: Option<String>,
    pub service_tier: Option<JudgedText>,
    pub response_model: Option<JudgedText>,
    pub http_version: Option<UpstreamHttpVersion>,
    pub quota_forecast: Option<QuotaForecast>,
}

/// What the engine is told of a response besides its contents.
pub struct ProviderResponseObservation {
    /// How the response came.
    pub transport: String,
    pub status: Option<u16>,
    pub client_headers: Vec<ProviderResponseHeader>,
    pub timings: ProviderResponseTimings,
    pub request_id: Option<String>,
    pub service_tier: Option<String>,
    pub response_model: Option<String>,
    pub http_version: Option<UpstreamHttpVersion>,
    pub quota_forecast: Option<QuotaForecast>,
}

/// A character that the name of a header may hold.
pub open spec fn is_header_char(c: char) -> bool {
    ||| '0' <= c <= '9'
    ||| 'A' <= c <= 'Z'
    ||| 'a' <= c <= 'z'
    ||| c == '!'
    ||| '#' <= c <= '\''
    ||| c == '*'
    ||| c == '+'
    ||| c == '-'
    ||| c == '.'
    ||| '^' <= c <= '`'
    ||| c == '|'
    ||| c == '~'
}

/// The name of a header.
pub open spec fn is_header_name(name: Seq<char>) -> bool {
    &&& 0 < byte_len(name) <= MAX_HEADER_NAME_BYTES
    &&& forall|i: int| 0 <= i < name.len() ==> is_header_char(#[trigger] name[i])
}

/// A byte that the value of a header may hold.
pub open spec fn is_header_byte(byte: u8) -> bool {
    byte != 127 && (byte >= 32 || byte == 9)
}

/// An ASCII letter in lower case.
pub open spec fn lowered(c: char) -> char {
    if 'A' <= c <= 'Z' {
        ((c as u32) + 32) as char
    } else {
        c
    }
}

/// The name of the header for the media type, in whatever case.
pub open spec fn is_content_type(name: Seq<char>) -> bool {
    let wanted = "content-type"@;
    name.len() == wanted.len() && forall|i: int|
        0 <= i < name.len() ==> lowered(#[trigger] name[i]) == wanted[i]
}

/// A header that may be passed on. With a body that is passed on as it is, its media type may be
/// passed on too.
pub open spec fn is_client_header(header: ObservedHeader, raw_http_body: bool) -> bool {
    &&& is_header_name(header.name@)
    &&& header.forwardable || raw_http_body && is_content_type(header.name@)
    &&& forall|i: int| 0 <= i < header.value@.len() ==> is_header_byte(#[trigger] header.value@[i])
}

/// How many bytes headers take.
pub open spec fn header_bytes(headers: Seq<ObservedHeader>) -> nat
    decreases headers.len(),
{
    if headers.len() == 0 {
        0
    } else {
        header_bytes(headers.drop_last()) + byte_len(headers.last().name@)
            + headers.last().value@.len()
    }
}

/// A text that is one of its kind, where it is given.
pub open spec fn is_accepted(text: Option<JudgedText>) -> bool {
    text matches Some(t) ==> t.accepted
}

/// An observation that can be passed on.
pub open spec fn is_observation(value: ResponseObservation, raw_http_body: bool) -> bool {
    let headers = value.client_headers@;
    &&& value.status matches Some(status) ==> 100 <= status <= 599
    &&& headers.len() <= MAX_HEADERS
    &&& header_bytes(headers) <= MAX_HEADER_BYTES
    &&& forall|i: int|
        0 <= i < headers.len() ==> is_client_header(#[trigger] headers[i], raw_http_body)
    &&& is_accepted(value.service_tier)
    &&& is_accepted(value.response_model)
    &&& value.quota_forecast matches Some(forecast) ==> is_forecast(forecast)
}

/// A text without the judgement on it.
pub open spec fn judged(text: Option<JudgedText>) -> Option<String> {
    match text {
        Some(t) => Some(t.text),
        None => None,
    }
}

/// What the engine is told of an observation.
pub open spec fn is_told(
    value: ResponseObservation,
    transport: Seq<char>,
    told: ProviderResponseObservation,
) -> bool {
    &&& told.transport@ == transport
    &&& told.status == value.status
    &&& told.client_headers@.len() == value.client_headers@.len()
    &&& forall|i: int|
        0 <= i < value.client_headers@.len() ==> (#[trigger] told.client_headers@[i]).name
            == value.client_headers@[i].name && told.client_headers@[i].value
            == value.client_headers@[i].value
    &&& told.timings == value.timings
    &&& told.request_id == value.request_id
    &&& told.service_tier == judged(value.service_tier)
    &&& told.response_model == judged(value.response_model)
    &&& told.http_version == value.http_version
    &&& told.quota_forecast == value.quota_forecast
}

fn header_char(c: char) -> (r: bool)
    ensures
        r == is_header_char(c),
{
    ('0' <= c && c <= '9') || ('A' <= c && c <= 'Z') || ('a' <= c && c <= 'z') || c == '!' || ('#'
        <= c && c <= '\'') || c == '*' || c == '+' || c == '-' || c == '.' || ('^' <= c && c
        <= '`') || c == '|' || c == '~'
}

fn header_name(name: &str) -> (r: bool)
    ensures
        r == is_header_name(name@),
{
    let bytes = length_in_bytes(name);
    if bytes == 0 || bytes > MAX_HEADER_NAME_BYTES {
        return false;
    }
    for c in it: name.chars()
        invariant
            it.seq() == name@,
            forall|i: int| 0 <= i < it.index() ==> is_header_char(#[trigger] name@[i]),
    {
        if !header_char(c) {
            assert(!is_header_char(name@[it.index()]));
            return false;
        }
    }
    true
}

fn lower(c: char) -> (r: char)
    ensures
        r == lowered(c),
{
    match c {
        'A' => 'a',
        'B' => 'b',
        'C' => 'c',
        'D' => 'd',
        'E' => 'e',
        'F' => 'f',
        'G' => 'g',
        'H' => 'h',
        'I' => 'i',
        'J' => 'j',
        'K' => 'k',
        'L' => 'l',
        'M' => 'm',
        'N' => 'n',
        'O' => 'o',
        'P' => 'p',
        'Q' => 'q',
        'R' => 'r',
        'S' => 's',
        'T' => 't',
        'U' => 'u',
        'V' => 'v',
        'W' => 'w',
        'X' => 'x',
        'Y' => 'y',
        'Z' => 'z',
        other => other,
    }
}

fn content_type(name: &str) -> (r: bool)
    ensures
        r == is_content_type(name@),
{
    let wanted: Vec<char> =
        vec!['c', 'o', 'n', 't', 'e', 'n', 't', '-', 't', 'y', 'p', 'e'];
    proof {
        reveal_strlit("content-type");
        assert(wanted@ =~= "content-type"@);
    }
    let mut k: usize = 0;
    for c in it: name.chars()
        invariant
            it.seq() == name@,
            wanted@ == "content-type"@,
            k == it.index(),
            k <= wanted@.len(),
            forall|i: int| 0 <= i < k ==> lowered(#[trigger] name@[i]) == wanted@[i],
    {
        if k >= wanted.len() || lower(c) != wanted[k] {
            assert(name@[k as int] == c);
            return false;
        }
        k = k + 1;
    }
    k == wanted.len()
}

fn header_value(value: &Vec<u8>) -> (r: bool)
    ensures
        r == (forall|i: int| 0 <= i < value@.len() ==> is_header_byte(#[trigger] value@[i])),
{
    for i in 0..value.len()
        invariant
            forall|j: int| 0 <= j < i ==> is_header_byte(#[trigger] value@[j]),
    {
        if value[i] == 127 || (value[i] < 32 && value[i] != 9) {
            assert(!is_header_byte(value@[i as int]));
            return false;
        }
    }
    true
}

fn client_header(header: &ObservedHeader, raw_http_body: bool) -> (r: bool)
    ensures
        r == is_client_header(*header, raw_http_body),
{
    header_name(header.name.as_str()) && (header.forwardable || (raw_http_body && content_type(
        header.name.as_str(),
    ))) && header_value(&header.value)
}

/// The headers that may be passed on, as long as they are not too many bytes.
fn client_headers(headers: Vec<ObservedHeader>, raw_http_body: bool) -> (result: Option<
    Vec<ProviderResponseHeader>,
>)
    requires
        headers@.len() <= MAX_HEADERS,
    ensures
        result is Some == (header_bytes(headers@) <= MAX_HEADER_BYTES && forall|i: int|
            0 <= i < headers@.len() ==> is_client_header(#[trigger] headers@[i], raw_http_body)),
        result matches Some(told) ==> told@.len() == headers@.len() && forall|i: int|
            0 <= i < headers@.len() ==> (#[trigger] told@[i]).name == headers@[i].name
                && told@[i].value == headers@[i].value,
{
    let mut rest = headers;
    let total = rest.len();
    let mut told: Vec<ProviderResponseHeader> = Vec::new();
    let mut bytes: usize = 0;
    let mut i: usize = 0;
    while i < total
        invariant
            i <= total,
            total == headers@.len(),
            rest@ == headers@.skip(i as int),
            bytes == header_bytes(headers@.take(i as int)),
            bytes <= MAX_HEADER_BYTES,
            told@.len() == i,
            forall|j: int|
                0 <= j < i ==> (#[trigger] told@[j]).name == headers@[j].name && told@[j].value
                    == headers@[j].value,
            forall|j: int| 0 <= j < i ==> is_client_header(#[trigger] headers@[j], raw_http_body),
        decreases total - i,
    {
        let header = rest.remove(0);
        proof {
            assert(header == headers@[i as int]);
            assert(rest@ =~= headers@.skip(i + 1));
            assert(headers@.take(i + 1).drop_last() =~= headers@.take(i as int));
            lemma_header_bytes(headers@, i + 1);
        }
        let name_bytes = length_in_bytes(header.name.as_str());
        let value_bytes = header.value.len();
        if name_bytes > MAX_HEADER_BYTES || value_bytes > MAX_HEADER_BYTES {
            return None;
        }
        bytes = bytes + name_bytes + value_bytes;
        if bytes > MAX_HEADER_BYTES || !client_header(&header, raw_http_body) {
            return None;
        }
        told.push(ProviderResponseHeader { name: header.name, value: header.value });
        i = i + 1;
    }
    assert(headers@.take(total as int) =~= headers@);
    Some(told)
}

/// More headers take more bytes.
proof fn lemma_header_bytes(headers: Seq<ObservedHeader>, n: int)
    requires
        0 <= n <= headers.len(),
    ensures
        header_bytes(headers.take(n)) <= header_bytes(headers),
    decreases headers.len() - n,
{
    if n == headers.len() {
        assert(headers.take(n) =~= headers);
    } else {
        assert(headers.take(n + 1).drop_last() =~= headers.take(n));
        lemma_header_bytes(headers, n + 1);
    }
}

fn accepted(text: Option<JudgedText>) -> (r: Option<Option<String>>)
    ensures
        r is Some == is_accepted(text),
        r matches Some(t) ==> t == judged(text),
{
    match text {
        None => Some(None),
        Some(t) => if t.accepted {
            Some(Some(t.text))
        } else {
            None
        },
    }
}

pub fn decode(value: ResponseObservation, transport: &str, raw_http_body: bool) -> (result: Result<
    ProviderResponseObservation,
    ProviderError,
>)
    ensures
        match result {
            Ok(told) => is_observation(value, raw_http_body) && is_told(value, transport@, told),
            Err(error) => !is_observation(value, raw_http_body) && error == bare_error(
                ProviderErrorKind::Protocol,
                UpstreamSendState::Ambiguous,
            ),
        },
{
    match value.status {
        Some(status) => if status < 100 || status > 599 {
            return Err(stream_protocol_error());
        },
        None => {},
    }
    if value.client_headers.len() > MAX_HEADERS {
        return Err(stream_protocol_error());
    }
    let client_headers = match client_headers(value.client_headers, raw_http_body) {
        Some(headers) => headers,
        None => return Err(stream_protocol_error()),
    };
    let service_tier = match accepted(value.service_tier) {
        Some(tier) => tier,
        None => return Err(stream_protocol_error()),
    };
    let response_model = match accepted(value.response_model) {
        Some(model) => model,
        None => return Err(stream_protocol_error()),
    };
    let quota_forecast = match value.quota_forecast {
        Some(forecast) => match metadata(forecast) {
            Ok(forecast) => Some(forecast),
            Err(error) => return Err(error),
        },
        None => None,
    };
    Ok(
        ProviderResponseObservation {
            transport: transport.to_owned(),
            status: value.status,
            client_headers,
            timings: value.timings,
            request_id: value.request_id,
            service_tier,
            response_model,
            http_version: value.http_version,
            quota_forecast,
        },
    )
}

/// What the engine is told of a response is what was observed of it: nothing is left out, added or
/// put elsewhere.
pub proof fn told_as_observed(
    value: ResponseObservation,
    transport: Seq<char>,
    told: ProviderResponseObservation,
)
    requires
        is_told(value, transport, told),
    ensures
        told.transport@ == transport,
        told.status == value.status,
        told.request_id == value.request_id,
        told.http_version == value.http_version,
        told.quota_forecast == value.quota_forecast,
        value.service_tier is Some ==> told.service_tier == Some(value.service_tier->0.text),
        value.service_tier is None ==> told.service_tier is None,
        value.response_model is Some ==> told.response_model == Some(value.response_model->0.text),
        value.response_model is None ==> told.response_model is None,
        told.timings.transport_decision_wait_ms == value.timings.transport_decision_wait_ms,
        told.timings.connect_ms == value.timings.connect_ms,
        told.timings.headers_ms == value.timings.headers_ms,
        told.timings.first_event_ms == value.timings.first_event_ms,
        told.timings.first_reasoning_ms == value.timings.first_reasoning_ms,
        told.timings.first_text_ms == value.timings.first_text_ms,
        told.timings.first_token_ms == value.timings.first_token_ms,
        told.timings.provider_processing_ms == value.timings.provider_processing_ms,
        told.client_headers@.len() == value.client_headers@.len(),
        forall|i: int|
            0 <= i < value.client_headers@.len() ==> (#[trigger] told.client_headers@[i]).name
                == value.client_headers@[i].name && told.client_headers@[i].value
                == value.client_headers@[i].value,
{
}

/// An observation can be passed on exactly if its status is one of the protocol, it has at most 64
/// headers of at most 16384 bytes together, each of which may be passed on, and what it says of the
/// tier, the model and the quota is accepted.
pub proof fn observation_in_order(value: ResponseObservation, raw_http_body: bool)
    ensures
        is_observation(value, raw_http_body) <==> {
            &&& value.status is Some ==> value.status->0 >= 100 && value.status->0 < 600
            &&& value.client_headers@.len() <= 64
            &&& header_bytes(value.client_headers@) <= 16384
            &&& forall|i: int|
                0 <= i < value.client_headers@.len() ==> is_client_header(
                    #[trigger] value.client_headers@[i],
                    raw_http_body,
                )
            &&& value.service_tier is Some ==> value.service_tier->0.accepted
            &&& value.response_model is Some ==> value.response_model->0.accepted
            &&& value.quota_forecast is Some ==> is_forecast(value.quota_forecast->0)
        },
{
}

/// The bytes of headers are those of their names and their values, each counted once.
pub proof fn header_bytes_add_up(a: Seq<ObservedHeader>, b: Seq<ObservedHeader>)
    ensures
        header_bytes(a + b) == header_bytes(a) + header_bytes(b),
        b.len() == 1 ==> header_bytes(b) == byte_len(b[0].name@) + b[0].value@.len(),
        b.len() == 0 ==> header_bytes(b) == 0,
    decreases b.len(),
{
    if b.len() == 0 {
        assert(a + b =~= a);
    } else {
        header_bytes_add_up(a, b.drop_last());
        assert((a + b).drop_last() =~= a + b.drop_last());
        assert((a + b).last() == b.last());
        if b.len() == 1 {
            assert(header_bytes(b.drop_last()) == 0);
        }
    }
}

/// A header that is passed on stays within its line: its name has 1 to 256 bytes, none of which is a
/// space, a colon, a quote or beyond ASCII, and its value holds no control byte but the tab. It is
/// one that may be forwarded, or the media type of a body that is passed on as it is.
pub proof fn headers_stay_within_their_line(header: ObservedHeader, raw_http_body: bool)
    requires
        is_client_header(header, raw_http_body),
    ensures
        1 <= byte_len(header.name@) <= 256,
        forall|i: int|
            0 <= i < header.name@.len() ==> ' ' < (#[trigger] header.name@[i]) < '\u{7f}'
                && header.name@[i] != ':' && header.name@[i] != '"' && header.name@[i] != '('
                && header.name@[i] != ')' && header.name@[i] != ',' && header.name@[i] != '/'
                && header.name@[i] != ';' && header.name@[i] != '<' && header.name@[i] != '='
                && header.name@[i] != '>' && header.name@[i] != '?' && header.name@[i] != '@'
                && header.name@[i] != '[' && header.name@[i] != '\\' && header.name@[i] != ']'
                && header.name@[i] != '{' && header.name@[i] != '}',
        forall|i: int|
            0 <= i < header.value@.len() ==> (#[trigger] header.value@[i]) != 10
                && header.value@[i] != 13 && header.value@[i] != 0 && header.value@[i] != 127 && (
            header.value@[i] < 32 ==> header.value@[i] == 9),
        !header.forwardable ==> raw_http_body && header.name@.len() == 12,
{
    reveal_strlit("content-type");
    assert forall|i: int| 0 <= i < header.name@.len() implies ' ' < (#[trigger] header.name@[i])
        < '\u{7f}' && header.name@[i] != ':' && header.name@[i] != '"' && header.name@[i] != '('
        && header.name@[i] != ')' && header.name@[i] != ',' && header.name@[i] != '/'
        && header.name@[i] != ';' && header.name@[i] != '<' && header.name@[i] != '='
        && header.name@[i] != '>' && header.name@[i] != '?' && header.name@[i] != '@'
        && header.name@[i] != '[' && header.name@[i] != '\\' && header.name@[i] != ']'
        && header.name@[i] != '{' && header.name@[i] != '}' by {
        assert(is_header_char(header.name@[i]));
    }
    assert forall|i: int| 0 <= i < header.value@.len() implies (#[trigger] header.value@[i]) != 10
        && header.value@[i] != 13 && header.value@[i] != 0 && header.value@[i] != 127 && (
    header.value@[i] < 32 ==> header.value@[i] == 9) by {
        assert(is_header_byte(header.value@[i]));
    }
}

/// Every header with an ordinary name and an ordinary value may be passed on, if it may be forwarded.
pub proof fn ordinary_headers_are_passed_on(header: ObservedHeader, raw_http_body: bool)
    requires
        header.forwardable,
        1 <= byte_len(header.name@) <= 256,
        forall|i: int|
            0 <= i < header.name@.len() ==> 'a' <= (#[trigger] header.name@[i]) <= 'z' || 'A'
                <= header.name@[i] <= 'Z' || '0' <= header.name@[i] <= '9' || header.name@[i] == '-'
                || header.name@[i] == '_',
        forall|i: int|
            0 <= i < header.value@.len() ==> (#[trigger] header.value@[i]) >= 32
                && header.value@[i] != 127,
    ensures
        is_client_header(header, raw_http_body),
{
    assert forall|i: int| 0 <= i < header.name@.len() implies is_header_char(
        #[trigger] header.name@[i],
    ) by {}
}

/// The name of the header for the media type is known in whatever case it is written, and no other
/// name is taken for it.
pub proof fn case_does_not_matter(a: Seq<char>, b: Seq<char>)
    requires
        a.len() == b.len(),
        forall|i: int|
            0 <= i < a.len() ==> (#[trigger] a[i]) == b[i] || ('A' <= a[i] <= 'Z' && b[i] as u32
                == a[i] as u32 + 32),
    ensures
        is_content_type(a) == is_content_type(b),
        is_content_type("content-type"@),
        is_content_type(b) && (forall|i: int| 0 <= i < b.len() ==> !('A' <= #[trigger] b[i] <= 'Z'))
            ==> b == "content-type"@,
{
    reveal_strlit("content-type");
    assert forall|i: int| 0 <= i < a.len() implies lowered(#[trigger] a[i]) == lowered(b[i]) by {}
    assert forall|i: int| 0 <= i < b.len() implies lowered(a[i]) == lowered(#[trigger] b[i]) by {
        assert(lowered(a[i]) == lowered(b[i]));
    }
    let wanted = "content-type"@;
    if is_content_type(a) {
        assert forall|i: int| 0 <= i < b.len() implies lowered(#[trigger] b[i]) == wanted[i] by {
            assert(lowered(a[i]) == wanted[i]);
        }
    }
    if is_content_type(b) {
        assert forall|i: int| 0 <= i < a.len() implies lowered(#[trigger] a[i]) == wanted[i] by {
            assert(lowered(b[i]) == wanted[i]);
        }
        if forall|i: int| 0 <= i < b.len() ==> !('A' <= #[trigger] b[i] <= 'Z') {
            assert forall|i: int| 0 <= i < b.len() implies b[i] == wanted[i] by {
                assert(lowered(b[i]) == wanted[i]);
            }
            assert(b =~= wanted);
        }
    }
}

/// The name of a header is made of printable ASCII characters other than separators.
pub proof fn header_characters(c: char)
    ensures
        is_header_char(c) <==> ' ' < c < '\u{7f}' && c != '(' && c != ')' && c != '<' && c != '>' && c
            != '@' && c != ',' && c != ';' && c != ':' && c != '\\' && c != '"' && c != '/' && c
            != '[' && c != ']' && c != '?' && c != '=' && c != '{' && c != '}',
{
}

/// The value of a header holds no control character but the tabulator; which bytes it holds otherwise
/// is left to whoever sends it.
pub proof fn header_values(byte: u8)
    ensures
        !is_header_byte(byte) <==> byte < 9 || 9 < byte < 32 || byte == 127,
{
}

} // verus!
