use vstd::prelude::*;

verus! {

use crate::json::{
    JsonValue, JsonV, JsonMember, member_views_of, lemma_member_views_of_len, json_text,
};
use crate::log::{LogLevel, level_of_text};
use crate::text::{str_eq, parse_u64, parse_u64_spec};

// ---------------------------------------------------------------------------
// Wire shapes
// ---------------------------------------------------------------------------

/// The request envelope: every outbound call carries its method code, its
/// sequence number, and its parameter value.
pub struct WsRequestGeneric<Req> {
    pub method: u32,
    pub seq: u32,
    pub params: Req,
}

pub type WsRequestValue = WsRequestGeneric<JsonValue>;

/// An application-level failure tied to a request.
pub struct WsResponseError {
    pub method: u32,
    pub code: u32,
    pub seq: u32,
    pub log_id: String,
    pub params: JsonValue,
}

/// Acknowledgement that a request was relayed elsewhere.
pub struct WsForwardedResponse {
    pub method: u32,
    pub seq: u32,
}

/// A synchronous result for a prior request.
pub struct WsSuccessResponseGeneric<Params> {
    pub method: u32,
    pub seq: u32,
    pub params: Params,
}

/// One chunk of a streaming response.
pub struct WsStreamResponseGeneric<Params> {
    pub original_seq: u32,
    pub method: u32,
    pub stream_seq: u32,
    pub stream_code: u32,
    pub data: Params,
}

/// An out-of-band diagnostic line.
pub struct WsLogResponse {
    pub seq: u32,
    pub log_id: u64,
    pub level: LogLevel,
    pub message: String,
}

/// Every kind of inbound message: a closed union, so a new tag cannot pass
/// unhandled.
pub enum WsResponseGeneric<Resp> {
    Immediate(WsSuccessResponseGeneric<Resp>),
    Stream(WsStreamResponseGeneric<Resp>),
    Error(WsResponseError),
    Log(WsLogResponse),
    Forwarded(WsForwardedResponse),
    Close,
}

pub type WsSuccessResponse = WsSuccessResponseGeneric<JsonValue>;

pub type WsStreamResponse = WsStreamResponseGeneric<JsonValue>;

pub type WsResponseValue = WsResponseGeneric<JsonValue>;

/// The mathematical shape of a decoded response.
#[allow(inconsistent_fields)]
pub enum WsResponseV {
    Immediate { method: u32, seq: u32, params: JsonV },
    Stream { original_seq: u32, method: u32, stream_seq: u32, stream_code: u32, data: JsonV },
    Error { method: u32, code: u32, seq: u32, log_id: Seq<char>, params: JsonV },
    Log { seq: u32, log_id: u64, level: LogLevel, message: Seq<char> },
    Forwarded { method: u32, seq: u32 },
    Close,
}

impl View for WsResponseGeneric<JsonValue> {
    type V = WsResponseV;

    open spec fn view(&self) -> WsResponseV {
        match self {
            WsResponseGeneric::Immediate(m) => WsResponseV::Immediate {
                method: m.method,
                seq: m.seq,
                params: m.params@,
            },
            WsResponseGeneric::Stream(m) => WsResponseV::Stream {
                original_seq: m.original_seq,
                method: m.method,
                stream_seq: m.stream_seq,
                stream_code: m.stream_code,
                data: m.data@,
            },
            WsResponseGeneric::Error(m) => WsResponseV::Error {
                method: m.method,
                code: m.code,
                seq: m.seq,
                log_id: m.log_id@,
                params: m.params@,
            },
            WsResponseGeneric::Log(m) => WsResponseV::Log {
                seq: m.seq,
                log_id: m.log_id,
                level: m.level,
                message: m.message@,
            },
            WsResponseGeneric::Forwarded(m) => WsResponseV::Forwarded {
                method: m.method,
                seq: m.seq,
            },
            WsResponseGeneric::Close => WsResponseV::Close,
        }
    }
}

/// Why an inbound document does not decode as a response.
pub enum DecodeError {
    /// The frame text is not JSON at all.
    NotJson,
    /// The document is not an object.
    NotAnObject,
    /// The object carries no textual tag field.
    MissingTag,
    /// The tag names no known kind of response.
    UnknownTag { tag: String },
    /// A payload field of the tagged kind is missing or has the wrong shape.
    BadPayload { field: String },
}

/// The mathematical shape of a `DecodeError`.
pub enum DecErrV {
    NotJson,
    NotAnObject,
    MissingTag,
    UnknownTag { tag: Seq<char> },
    BadPayload { field: Seq<char> },
}

impl View for DecodeError {
    type V = DecErrV;

    open spec fn view(&self) -> DecErrV {
        match self {
            DecodeError::NotJson => DecErrV::NotJson,
            DecodeError::NotAnObject => DecErrV::NotAnObject,
            DecodeError::MissingTag => DecErrV::MissingTag,
            DecodeError::UnknownTag { tag } => DecErrV::UnknownTag { tag: tag@ },
            DecodeError::BadPayload { field } => DecErrV::BadPayload { field: field@ },
        }
    }
}

// ---------------------------------------------------------------------------
// Reading fields out of a JSON object
// ---------------------------------------------------------------------------

/// The value stored under `key`, the last member winning, as a JSON parser
/// that keeps the last duplicate would leave it.
pub open spec fn obj_get(ms: Seq<(Seq<char>, JsonV)>, key: Seq<char>) -> Option<JsonV>
    decreases ms.len(),
{
    if ms.len() == 0 {
        None
    } else if ms.last().0 == key {
        Some(ms.last().1)
    } else {
        obj_get(ms.drop_last(), key)
    }
}

/// An unsigned 32-bit number read from a JSON value, if it is one.
pub open spec fn as_u32(v: JsonV) -> Option<u32> {
    match v {
        JsonV::Int(n) => if 0 <= n <= u32::MAX {
            Some(n as u32)
        } else {
            None
        },
        _ => None,
    }
}

/// An unsigned 64-bit number read from a JSON value.  The upper half of the
/// range does not fit a 64-bit signed integer and arrives as decimal text,
/// so both shapes are read.
pub open spec fn as_u64(v: JsonV) -> Option<u64> {
    match v {
        JsonV::Int(n) => if n >= 0 {
            Some(n as u64)
        } else {
            None
        },
        JsonV::NumText(s) => parse_u64_spec(s),
        _ => None,
    }
}

/// Finds the member stored under `key`, the last member winning.
fn obj_find<'a>(ms: &'a Vec<JsonMember>, key: &str) -> (r: Option<&'a JsonValue>)
    ensures
        match r {
            Some(v) => obj_get(member_views_of(ms@), key@) == Some(v@),
            None => obj_get(member_views_of(ms@), key@) is None,
        },
{
    let ghost mv = member_views_of(ms@);
    proof {
        lemma_member_views_of_len(ms@);
        assert(mv.take(ms@.len() as int) =~= mv);
    }
    let n = ms.len();
    let mut i: usize = n;
    while i > 0
        invariant
            n == ms@.len(),
            mv == member_views_of(ms@),
            mv.len() == n,
            forall|j: int| 0 <= j < n ==> #[trigger] mv[j] == (ms@[j].key@, ms@[j].value@),
            0 <= i <= n,
            obj_get(mv, key@) == obj_get(mv.take(i as int), key@),
        decreases i,
    {
        proof {
            assert(mv.take(i as int).last() == mv[i - 1]);
            assert(mv.take(i as int).drop_last() =~= mv.take(i - 1));
        }
        if str_eq(ms[i - 1].key.as_str(), key) {
            return Some(&ms[i - 1].value);
        }
        i -= 1;
    }
    proof {
        assert(mv.take(0).len() == 0);
    }
    None
}

} // verus!

verus! {

// ---------------------------------------------------------------------------
// Decoding the tagged response union
// ---------------------------------------------------------------------------

/// Tag and field names of the wire protocol.
pub open spec fn k_type() -> Seq<char> { seq!['t', 'y', 'p', 'e'] }

pub open spec fn k_method() -> Seq<char> { seq!['m', 'e', 't', 'h', 'o', 'd'] }

pub open spec fn k_seq() -> Seq<char> { seq!['s', 'e', 'q'] }

pub open spec fn k_params() -> Seq<char> { seq!['p', 'a', 'r', 'a', 'm', 's'] }

pub open spec fn k_original_seq() -> Seq<char> {
    seq!['o', 'r', 'i', 'g', 'i', 'n', 'a', 'l', '_', 's', 'e', 'q']
}

pub open spec fn k_stream_seq() -> Seq<char> {
    seq!['s', 't', 'r', 'e', 'a', 'm', '_', 's', 'e', 'q']
}

pub open spec fn k_stream_code() -> Seq<char> {
    seq!['s', 't', 'r', 'e', 'a', 'm', '_', 'c', 'o', 'd', 'e']
}

pub open spec fn k_data() -> Seq<char> { seq!['d', 'a', 't', 'a'] }

pub open spec fn k_code() -> Seq<char> { seq!['c', 'o', 'd', 'e'] }

pub open spec fn k_log_id() -> Seq<char> { seq!['l', 'o', 'g', '_', 'i', 'd'] }

pub open spec fn k_level() -> Seq<char> { seq!['l', 'e', 'v', 'e', 'l'] }

pub open spec fn k_message() -> Seq<char> { seq!['m', 'e', 's', 's', 'a', 'g', 'e'] }

pub open spec fn t_immediate() -> Seq<char> {
    seq!['I', 'm', 'm', 'e', 'd', 'i', 'a', 't', 'e']
}

pub open spec fn t_stream() -> Seq<char> { seq!['S', 't', 'r', 'e', 'a', 'm'] }

pub open spec fn t_error() -> Seq<char> { seq!['E', 'r', 'r', 'o', 'r'] }

pub open spec fn t_log() -> Seq<char> { seq!['L', 'o', 'g'] }

pub open spec fn t_forwarded() -> Seq<char> { seq!['F', 'o', 'r', 'w', 'a', 'r', 'd', 'e', 'd'] }

pub open spec fn t_close() -> Seq<char> { seq!['C', 'l', 'o', 's', 'e'] }

/// A `u32` payload field of an object, if present and in range.
pub open spec fn field_u32(ms: Seq<(Seq<char>, JsonV)>, key: Seq<char>) -> Option<u32> {
    match obj_get(ms, key) {
        Some(v) => as_u32(v),
        None => None,
    }
}

/// What decoding an inbound JSON document yields: one of the six response
/// kinds when the tag is known and its payload well formed, and an error
/// otherwise — never a default.
pub open spec fn spec_decode(v: JsonV) -> Result<WsResponseV, DecErrV> {
    match v {
        JsonV::Object(ms) => match obj_get(ms, k_type()) {
            Some(JsonV::Str(tag)) => if tag == t_immediate() {
                match (field_u32(ms, k_method()), field_u32(ms, k_seq()), obj_get(ms, k_params())) {
                    (Some(method), Some(seq), Some(params)) => Ok(
                        WsResponseV::Immediate { method, seq, params },
                    ),
                    (None, _, _) => Err(DecErrV::BadPayload { field: k_method() }),
                    (_, None, _) => Err(DecErrV::BadPayload { field: k_seq() }),
                    (_, _, None) => Err(DecErrV::BadPayload { field: k_params() }),
                }
            } else if tag == t_stream() {
                match (
                    field_u32(ms, k_original_seq()),
                    field_u32(ms, k_method()),
                    field_u32(ms, k_stream_seq()),
                    field_u32(ms, k_stream_code()),
                    obj_get(ms, k_data()),
                ) {
                    (Some(original_seq), Some(method), Some(stream_seq), Some(stream_code), Some(
                        data,
                    )) => Ok(
                        WsResponseV::Stream { original_seq, method, stream_seq, stream_code, data },
                    ),
                    (None, _, _, _, _) => Err(DecErrV::BadPayload { field: k_original_seq() }),
                    (_, None, _, _, _) => Err(DecErrV::BadPayload { field: k_method() }),
                    (_, _, None, _, _) => Err(DecErrV::BadPayload { field: k_stream_seq() }),
                    (_, _, _, None, _) => Err(DecErrV::BadPayload { field: k_stream_code() }),
                    (_, _, _, _, None) => Err(DecErrV::BadPayload { field: k_data() }),
                }
            } else if tag == t_error() {
                match (field_u32(ms, k_method()), field_u32(ms, k_code()), field_u32(ms, k_seq())) {
                    (Some(method), Some(code), Some(seq)) => match obj_get(ms, k_log_id()) {
                        Some(JsonV::Str(log_id)) => match obj_get(ms, k_params()) {
                            Some(params) => Ok(
                                WsResponseV::Error { method, code, seq, log_id, params },
                            ),
                            None => Err(DecErrV::BadPayload { field: k_params() }),
                        },
                        _ => Err(DecErrV::BadPayload { field: k_log_id() }),
                    },
                    (None, _, _) => Err(DecErrV::BadPayload { field: k_method() }),
                    (_, None, _) => Err(DecErrV::BadPayload { field: k_code() }),
                    (_, _, None) => Err(DecErrV::BadPayload { field: k_seq() }),
                }
            } else if tag == t_log() {
                match field_u32(ms, k_seq()) {
                    None => Err(DecErrV::BadPayload { field: k_seq() }),
                    Some(seq) => match obj_get(ms, k_log_id()) {
                        Some(lv) => match as_u64(lv) {
                            Some(log_id) => match obj_get(ms, k_level()) {
                                Some(JsonV::Str(lvl)) => match level_of_text(lvl) {
                                    Some(level) => match obj_get(ms, k_message()) {
                                        Some(JsonV::Str(message)) => Ok(
                                            WsResponseV::Log { seq, log_id, level, message },
                                        ),
                                        _ => Err(DecErrV::BadPayload { field: k_message() }),
                                    },
                                    None => Err(DecErrV::BadPayload { field: k_level() }),
                                },
                                _ => Err(DecErrV::BadPayload { field: k_level() }),
                            },
                            None => Err(DecErrV::BadPayload { field: k_log_id() }),
                        },
                        None => Err(DecErrV::BadPayload { field: k_log_id() }),
                    },
                }
            } else if tag == t_forwarded() {
                match (field_u32(ms, k_method()), field_u32(ms, k_seq())) {
                    (Some(method), Some(seq)) => Ok(WsResponseV::Forwarded { method, seq }),
                    (None, _) => Err(DecErrV::BadPayload { field: k_method() }),
                    (_, None) => Err(DecErrV::BadPayload { field: k_seq() }),
                }
            } else if tag == t_close() {
                Ok(WsResponseV::Close)
            } else {
                Err(DecErrV::UnknownTag { tag })
            },
            Some(_) => Err(DecErrV::MissingTag),
            None => Err(DecErrV::MissingTag),
        },
        _ => Err(DecErrV::NotAnObject),
    }
}

/// Reads a `u32` payload field out of exec members.
fn get_u32(ms: &Vec<JsonMember>, key: &str) -> (r: Option<u32>)
    ensures
        r == field_u32(member_views_of(ms@), key@),
{
    match obj_find(ms, key) {
        Some(v) => match v {
            JsonValue::Int(n) => {
                let n = *n;
                if 0 <= n && n <= 0xFFFF_FFFFi64 {
                    Some(n as u32)
                } else {
                    None
                }
            },
            _ => None,
        },
        None => None,
    }
}

impl WsResponseGeneric<JsonValue> {
    /// Decodes one inbound JSON document into the closed response union.
    /// An unrecognized tag or a malformed payload is an error, never a
    /// silently substituted value.
    pub fn decode(v: JsonValue) -> (r: Result<WsResponseValue, DecodeError>)
        ensures
            match r {
                Ok(m) => spec_decode(v@) == Ok::<WsResponseV, DecErrV>(m@),
                Err(e) => spec_decode(v@) == Err::<WsResponseV, DecErrV>(e@),
            },
    {
        proof {
            reveal_strlit("type");
            reveal_strlit("method");
            reveal_strlit("seq");
            reveal_strlit("params");
            reveal_strlit("original_seq");
            reveal_strlit("stream_seq");
            reveal_strlit("stream_code");
            reveal_strlit("data");
            reveal_strlit("code");
            reveal_strlit("log_id");
            reveal_strlit("level");
            reveal_strlit("message");
            reveal_strlit("Immediate");
            reveal_strlit("Stream");
            reveal_strlit("Error");
            reveal_strlit("Log");
            reveal_strlit("Forwarded");
            reveal_strlit("Close");
            assert("type"@ =~= k_type());
            assert("method"@ =~= k_method());
            assert("seq"@ =~= k_seq());
            assert("params"@ =~= k_params());
            assert("original_seq"@ =~= k_original_seq());
            assert("stream_seq"@ =~= k_stream_seq());
            assert("stream_code"@ =~= k_stream_code());
            assert("data"@ =~= k_data());
            assert("code"@ =~= k_code());
            assert("log_id"@ =~= k_log_id());
            assert("level"@ =~= k_level());
            assert("message"@ =~= k_message());
            assert("Immediate"@ =~= t_immediate());
            assert("Stream"@ =~= t_stream());
            assert("Error"@ =~= t_error());
            assert("Log"@ =~= t_log());
            assert("Forwarded"@ =~= t_forwarded());
            assert("Close"@ =~= t_close());
        }
        let ms = match v {
            JsonValue::Object(ms) => ms,
            _ => {
                return Err(DecodeError::NotAnObject);
            },
        };
        let tag: String = match obj_find(&ms, "type") {
            Some(JsonValue::Str(tag)) => tag.clone(),
            Some(_) => {
                return Err(DecodeError::MissingTag);
            },
            None => {
                return Err(DecodeError::MissingTag);
            },
        };
        if str_eq(tag.as_str(), "Immediate") {
            let method = get_u32(&ms, "method");
            let seq = get_u32(&ms, "seq");
            match (method, seq) {
                (Some(method), Some(seq)) => match obj_index(&ms, "params") {
                    Some(i) => {
                        let params = take_at(ms, i);
                        Ok(
                            WsResponseGeneric::Immediate(
                                WsSuccessResponseGeneric { method, seq, params },
                            ),
                        )
                    },
                    None => Err(DecodeError::BadPayload { field: String::from_str("params") }),
                },
                (None, _) => Err(DecodeError::BadPayload { field: String::from_str("method") }),
                (_, None) => Err(DecodeError::BadPayload { field: String::from_str("seq") }),
            }
        } else if str_eq(tag.as_str(), "Stream") {
            let original_seq = get_u32(&ms, "original_seq");
            let method = get_u32(&ms, "method");
            let stream_seq = get_u32(&ms, "stream_seq");
            let stream_code = get_u32(&ms, "stream_code");
            match (original_seq, method, stream_seq, stream_code) {
                (Some(original_seq), Some(method), Some(stream_seq), Some(stream_code)) => match
                    obj_index(&ms, "data") {
                    Some(i) => {
                        let data = take_at(ms, i);
                        Ok(
                            WsResponseGeneric::Stream(
                                WsStreamResponseGeneric {
                                    original_seq,
                                    method,
                                    stream_seq,
                                    stream_code,
                                    data,
                                },
                            ),
                        )
                    },
                    None => Err(DecodeError::BadPayload { field: String::from_str("data") }),
                },
                (None, _, _, _) => Err(
                    DecodeError::BadPayload { field: String::from_str("original_seq") },
                ),
                (_, None, _, _) => Err(DecodeError::BadPayload { field: String::from_str("method") }),
                (_, _, None, _) => Err(
                    DecodeError::BadPayload { field: String::from_str("stream_seq") },
                ),
                (_, _, _, None) => Err(
                    DecodeError::BadPayload { field: String::from_str("stream_code") },
                ),
            }
        } else if str_eq(tag.as_str(), "Error") {
            let method = get_u32(&ms, "method");
            let code = get_u32(&ms, "code");
            let seq = get_u32(&ms, "seq");
            match (method, code, seq) {
                (Some(method), Some(code), Some(seq)) => {
                    let log_id: String = match obj_find(&ms, "log_id") {
                        Some(JsonValue::Str(s)) => s.clone(),
                        _ => {
                            return Err(DecodeError::BadPayload {
                                field: String::from_str("log_id"),
                            });
                        },
                    };
                    match obj_index(&ms, "params") {
                        Some(i) => {
                            let params = take_at(ms, i);
                            Ok(
                                WsResponseGeneric::Error(
                                    WsResponseError { method, code, seq, log_id, params },
                                ),
                            )
                        },
                        None => Err(DecodeError::BadPayload { field: String::from_str("params") }),
                    }
                },
                (None, _, _) => Err(DecodeError::BadPayload { field: String::from_str("method") }),
                (_, None, _) => Err(DecodeError::BadPayload { field: String::from_str("code") }),
                (_, _, None) => Err(DecodeError::BadPayload { field: String::from_str("seq") }),
            }
        } else if str_eq(tag.as_str(), "Log") {
            let seq = match get_u32(&ms, "seq") {
                Some(s) => s,
                None => {
                    return Err(DecodeError::BadPayload { field: String::from_str("seq") });
                },
            };
            let log_id: u64 = match obj_find(&ms, "log_id") {
                Some(JsonValue::Int(n)) => {
                    let n = *n;
                    if n >= 0 {
                        n as u64
                    } else {
                        return Err(DecodeError::BadPayload { field: String::from_str("log_id") });
                    }
                },
                Some(JsonValue::NumText(text)) => match parse_u64(text.as_str()) {
                    Some(u) => u,
                    None => {
                        return Err(DecodeError::BadPayload { field: String::from_str("log_id") });
                    },
                },
                _ => {
                    return Err(DecodeError::BadPayload { field: String::from_str("log_id") });
                },
            };
            let level_text_val: String = match obj_find(&ms, "level") {
                Some(JsonValue::Str(s)) => s.clone(),
                _ => {
                    return Err(DecodeError::BadPayload { field: String::from_str("level") });
                },
            };
            let level = match LogLevel::from_text(level_text_val.as_str()) {
                Some(l) => l,
                None => {
                    return Err(DecodeError::BadPayload { field: String::from_str("level") });
                },
            };
            let message: String = match obj_find(&ms, "message") {
                Some(JsonValue::Str(s)) => s.clone(),
                _ => {
                    return Err(DecodeError::BadPayload { field: String::from_str("message") });
                },
            };
            Ok(WsResponseGeneric::Log(WsLogResponse { seq, log_id, level, message }))
        } else if str_eq(tag.as_str(), "Forwarded") {
            let method = get_u32(&ms, "method");
            let seq = get_u32(&ms, "seq");
            match (method, seq) {
                (Some(method), Some(seq)) => Ok(
                    WsResponseGeneric::Forwarded(WsForwardedResponse { method, seq }),
                ),
                (None, _) => Err(DecodeError::BadPayload { field: String::from_str("method") }),
                (_, None) => Err(DecodeError::BadPayload { field: String::from_str("seq") }),
            }
        } else if str_eq(tag.as_str(), "Close") {
            Ok(WsResponseGeneric::Close)
        } else {
            Err(DecodeError::UnknownTag { tag })
        }
    }
}

/// Finds the position of the member stored under `key`, the last member
/// winning.
fn obj_index(ms: &Vec<JsonMember>, key: &str) -> (r: Option<usize>)
    ensures
        match r {
            Some(i) => i < ms@.len() && obj_get(member_views_of(ms@), key@) == Some(
                ms@[i as int].value@,
            ),
            None => obj_get(member_views_of(ms@), key@) is None,
        },
{
    let ghost mv = member_views_of(ms@);
    proof {
        lemma_member_views_of_len(ms@);
        assert(mv.take(ms@.len() as int) =~= mv);
    }
    let n = ms.len();
    let mut i: usize = n;
    while i > 0
        invariant
            n == ms@.len(),
            mv == member_views_of(ms@),
            mv.len() == n,
            forall|j: int| 0 <= j < n ==> #[trigger] mv[j] == (ms@[j].key@, ms@[j].value@),
            0 <= i <= n,
            obj_get(mv, key@) == obj_get(mv.take(i as int), key@),
        decreases i,
    {
        proof {
            assert(mv.take(i as int).last() == mv[i - 1]);
            assert(mv.take(i as int).drop_last() =~= mv.take(i - 1));
        }
        if str_eq(ms[i - 1].key.as_str(), key) {
            proof {
                assert(obj_get(mv.take(i as int), key@) == Some(mv[i - 1].1));
            }
            return Some(i - 1);
        }
        i -= 1;
    }
    proof {
        assert(mv.take(0).len() == 0);
    }
    None
}

/// Moves the member at position `i` out of the members and hands back its
/// value.
fn take_at(ms: Vec<JsonMember>, i: usize) -> (r: JsonValue)
    requires
        i < ms@.len(),
    ensures
        r@ == ms@[i as int].value@,
{
    let mut w = ms;
    let m = w.remove(i);
    m.value
}

} // verus!

verus! {

// ---------------------------------------------------------------------------
// Encoding the request envelope
// ---------------------------------------------------------------------------

/// The JSON document a request envelope serializes to: an object carrying
/// the method code, the sequence number, and the parameter value, in that
/// order.
pub open spec fn spec_request_json(method: u32, seq: u32, params: JsonV) -> JsonV {
    JsonV::Object(
        seq![
            (k_method(), JsonV::Int(method as i64)),
            (k_seq(), JsonV::Int(seq as i64)),
            (k_params(), params),
        ],
    )
}

impl WsRequestGeneric<JsonValue> {
    /// Builds the JSON document of this envelope.
    pub fn to_json(self) -> (r: JsonValue)
        ensures
            r@ == spec_request_json(self.method, self.seq, self.params@),
    {
        let ghost pv = self.params@;
        let mut ms: Vec<JsonMember> = Vec::new();
        ms.push(
            JsonMember { key: String::from_str("method"), value: JsonValue::Int(self.method as i64) },
        );
        ms.push(JsonMember { key: String::from_str("seq"), value: JsonValue::Int(self.seq as i64) });
        ms.push(JsonMember { key: String::from_str("params"), value: self.params });
        proof {
            reveal_strlit("method");
            reveal_strlit("seq");
            reveal_strlit("params");
            lemma_member_views_of_len(ms@);
            assert("method"@ =~= k_method());
            assert("seq"@ =~= k_seq());
            assert("params"@ =~= k_params());
            assert(member_views_of(ms@) =~= seq![
                (k_method(), JsonV::Int(self.method as i64)),
                (k_seq(), JsonV::Int(self.seq as i64)),
                (k_params(), pv),
            ]);
        }
        JsonValue::Object(ms)
    }
}

/// Writes the single text frame that carries one request.
pub fn encode_request(method: u32, seq: u32, params: JsonValue) -> (r: String)
    ensures
        r@ == json_text(spec_request_json(method, seq, params@)),
{
    let req = WsRequestGeneric { method, seq, params };
    req.to_json().render_compact()
}

// ---------------------------------------------------------------------------
// Parsing inbound frames
// ---------------------------------------------------------------------------

/// Whether `s` is one complete well-formed JSON document.  What exactly the
/// grammar admits is fixed by the parser relied on below.
pub uninterp spec fn is_json_text(s: Seq<char>) -> bool;

/// The document a well-formed JSON text denotes, in the library's model:
/// the parse below is a function of the text alone, and this names its
/// result.
pub uninterp spec fn json_value_of(s: Seq<char>) -> JsonV;

#[verifier::external_type_specification]
#[verifier::external_body]
pub struct ExValue(serde_json::Value);

/// Carries a `serde_json::Value` over into the library's model, variant for
/// variant; integer numbers become `Int`, any other number keeps its
/// decimal text.
#[verifier::external_body]
fn from_serde(v: &serde_json::Value) -> JsonValue {
    match v {
        serde_json::Value::Null => JsonValue::Null,
        serde_json::Value::Bool(b) => JsonValue::Bool(*b),
        serde_json::Value::Number(n) => match n.as_i64() {
            Some(i) => JsonValue::Int(i),
            None => JsonValue::NumText(n.to_string()),
        },
        serde_json::Value::String(s) => JsonValue::Str(s.clone()),
        serde_json::Value::Array(a) => JsonValue::Array(a.iter().map(from_serde).collect()),
        serde_json::Value::Object(o) => JsonValue::Object(
            o.iter().map(|(k, v)| JsonMember { key: k.clone(), value: from_serde(v) }).collect(),
        ),
    }
}

/// Relies on `serde_json::from_str::<serde_json::Value>`: whether it accepts
/// a text, and which document it reads from an accepted one, depend on the
/// text alone; `is_json_text` and `json_value_of` name the two outcomes.
#[verifier::external_body]
fn parse_json_text(s: &str) -> (r: Option<JsonValue>)
    ensures
        (r is Some) == is_json_text(s@),
        r matches Some(v) ==> v@ == json_value_of(s@),
{
    serde_json::from_str::<serde_json::Value>(s).ok().map(|v| from_serde(&v))
}

/// Checks a text against the JSON grammar.
pub fn json_syntax_ok(s: &str) -> (r: bool)
    ensures
        r == is_json_text(s@),
{
    parse_json_text(s).is_some()
}

/// Parses one inbound text frame into the library's JSON model: it yields a
/// value exactly when the text is well-formed JSON, and then exactly the
/// document the text denotes.
pub fn parse_text_frame(s: &str) -> (r: Result<JsonValue, DecodeError>)
    ensures
        (r is Ok) == is_json_text(s@),
        r matches Ok(v) ==> v@ == json_value_of(s@),
        r matches Err(e) ==> e@ == DecErrV::NotJson,
{
    match parse_json_text(s) {
        Some(v) => Ok(v),
        None => Err(DecodeError::NotJson),
    }
}

} // verus!

verus! {

/// A response document whose tag names no known kind fails to decode — it
/// never falls back to any default variant.
pub proof fn lemma_unknown_tag_fails(ms: Seq<(Seq<char>, JsonV)>, tag: Seq<char>)
    requires
        obj_get(ms, k_type()) == Some(JsonV::Str(tag)),
        tag != t_immediate(),
        tag != t_stream(),
        tag != t_error(),
        tag != t_log(),
        tag != t_forwarded(),
        tag != t_close(),
    ensures
        spec_decode(JsonV::Object(ms)) == Err::<WsResponseV, DecErrV>(DecErrV::UnknownTag { tag }),
{
}

} // verus!
