//! The request pipeline's decisions: classifying the inbound request,
//! extracting the model, stickiness hashing, `Retry-After` parsing, header
//! filtering, and the retry and fallback decision tree. The surrounding
//! transport drives these functions and performs what they decide.

use vstd::prelude::*;

use crate::config::Fallback;
use crate::jparse::{parse_json, text_json};
use crate::json::{jget, jget_str, jv, obj_set, oset, Entries, Json, JsonV};
use crate::jtext::{jtext, json_to_string};
use crate::transformer::{is_message_id, TransformerKind};
use crate::strutil::{
    all_digits, digits_val, lower_seq, parse_u64_digits, spec_trim, str_eq_ignore_ascii_case,
    trim_str,
};

verus! {

use vstd::string::StrSliceExecFns;
use vstd::string::StringExecFns;

/// The status for a request the proxy itself rejects as malformed.
pub const STATUS_BAD_REQUEST: u16 = 400;

/// The status when the pool is exhausted and no fallback applies.
pub const STATUS_TOO_MANY_REQUESTS: u16 = 429;

/// The status for an upstream transport failure without fallback.
pub const STATUS_BAD_GATEWAY: u16 = 502;

/// The status when the account permit wait timed out without fallback.
pub const STATUS_SERVICE_UNAVAILABLE: u16 = 503;

/// A header that carries the client's own credentials.
pub open spec fn spec_is_auth_header(name: Seq<char>) -> bool {
    lower_seq(name) == lower_seq("x-api-key"@) || lower_seq(name) == lower_seq("authorization"@)
}

/// Whether `name` is an inbound authorization header, case-insensitively.
pub fn is_auth_header(name: &str) -> (r: bool)
    ensures
        r == spec_is_auth_header(name@),
{
    str_eq_ignore_ascii_case(name, "x-api-key") || str_eq_ignore_ascii_case(name, "authorization")
}

/// Whether a header is copied to the upstream request: `host` and
/// `content-length` never are; inbound authorization headers are dropped
/// for routed requests; `content-type` is dropped when a transformer sets
/// its own.
pub open spec fn spec_forward_header(name: Seq<char>, routed: bool, transformed: bool) -> bool {
    &&& lower_seq(name) != lower_seq("host"@)
    &&& lower_seq(name) != lower_seq("content-length"@)
    &&& (routed ==> !spec_is_auth_header(name))
    &&& (transformed ==> lower_seq(name) != lower_seq("content-type"@))
}

/// Decide whether one inbound header is forwarded upstream.
pub fn should_forward_header(name: &str, routed: bool, transformed: bool) -> (r: bool)
    ensures
        r == spec_forward_header(name@, routed, transformed),
{
    if str_eq_ignore_ascii_case(name, "host") {
        return false;
    }
    if str_eq_ignore_ascii_case(name, "content-length") {
        return false;
    }
    if routed && is_auth_header(name) {
        return false;
    }
    if transformed && str_eq_ignore_ascii_case(name, "content-type") {
        return false;
    }
    true
}

/// Only a `POST /v1/messages` request is routed; everything else passes
/// through to the default upstream untouched.
pub fn is_messages_request(method_is_post: bool, path: &str) -> (r: bool)
    ensures
        r == (method_is_post && path@ == "/v1/messages"@),
{
    method_is_post && crate::strutil::str_eq(path, "/v1/messages")
}

/// The seconds a `Retry-After` header value denotes: its trimmed text read
/// as a decimal number, when that is all it holds and it fits.
pub open spec fn spec_retry_after(v: Seq<char>) -> Option<u64> {
    let t = spec_trim(v);
    if t.len() > 0 && all_digits(t) && digits_val(t) <= u64::MAX {
        Some(digits_val(t) as u64)
    } else {
        None
    }
}

/// Parse a `Retry-After` header value; `None` tells the caller to use the
/// default cooldown.
pub fn parse_retry_after(value: &str) -> (r: Option<u64>)
    ensures
        r == spec_retry_after(value@),
{
    let t = trim_str(value);
    parse_u64_digits(t)
}

/// The `model` string of a request body, when the body is JSON carrying
/// one.
pub open spec fn spec_model_of(bytes: Seq<u8>) -> Option<Seq<char>> {
    match text_json(bytes) {
        Some(j) => jget_str(jv(j), "model"@),
        None => None,
    }
}

/// Extract the model name; a body that is not JSON or has no string
/// `model` field is rejected with status 400, and only such a body is.
pub fn extract_model(bytes: &[u8]) -> (r: Result<String, u16>)
    ensures
        spec_model_of(bytes@) is Some ==> (r matches Ok(m) && m@ == spec_model_of(
            bytes@,
        )->Some_0),
        spec_model_of(bytes@) is None ==> r == Err::<String, u16>(STATUS_BAD_REQUEST),
{
    match parse_json(bytes) {
        Some(j) => match j.get("model") {
            Some(Json::Str(s)) => Ok(s.clone()),
            _ => Err(STATUS_BAD_REQUEST),
        },
        None => Err(STATUS_BAD_REQUEST),
    }
}

/// The request asks for streaming exactly when its body parses and holds
/// `"stream": true`.
pub open spec fn spec_is_stream(bytes: Seq<u8>) -> bool {
    match text_json(bytes) {
        Some(j) => jget(jv(j), "stream"@) == Some(JsonV::Bool(true)),
        None => false,
    }
}

/// Whether the request asks for a streaming response.
pub fn is_stream_request(bytes: &[u8]) -> (r: bool)
    ensures
        r == spec_is_stream(bytes@),
{
    match parse_json(bytes) {
        Some(j) => match j.get("stream") {
            Some(Json::Bool(b)) => *b,
            _ => false,
        },
        None => false,
    }
}

/// Replace the `model` field of a JSON object body and hand back the new
/// body text; a body that is not a JSON object is rejected with 400.
pub fn replace_model(bytes: &[u8], new_model: &str) -> (r: Result<String, u16>)
    ensures
        (text_json(bytes@) matches Some(j) && jv(j) is Obj) ==> (r matches Ok(s) && s@ == jtext(
            JsonV::Obj(oset(jv(text_json(bytes@)->Some_0)->Obj_0, "model"@, JsonV::Str(new_model@))),
        )),
        !(text_json(bytes@) matches Some(j) && jv(j) is Obj) ==> r == Err::<String, u16>(
            STATUS_BAD_REQUEST,
        ),
{
    match parse_json(bytes) {
        Some(Json::Obj(mut o)) => {
            obj_set(&mut o, "model", crate::json::jstr(new_model));
            let out = Json::Obj(o);
            Ok(crate::jtext::json_to_string(&out))
        },
        _ => Err(STATUS_BAD_REQUEST),
    }
}

/// Apply a fallback policy to the request body: `Model(m)` rewrites the
/// body's model to `m`; anything else keeps the body unchanged (`None`).
pub fn apply_fallback_model(bytes: &[u8], fallback: &Fallback) -> (r: Result<Option<String>, u16>)
    ensures
        !(*fallback is Model) ==> r == Ok::<Option<String>, u16>(None),
        *fallback matches Fallback::Model(m) ==> (match r {
            Ok(Some(s)) => (text_json(bytes@) matches Some(j) && jv(j) is Obj) && s@ == jtext(
                JsonV::Obj(oset(jv(text_json(bytes@)->Some_0)->Obj_0, "model"@, JsonV::Str(m@))),
            ),
            Ok(None) => false,
            Err(e) => e == STATUS_BAD_REQUEST && !(text_json(bytes@) matches Some(j)
                && jv(j) is Obj),
        }),
{
    match fallback.model() {
        Some(m) => match replace_model(bytes, m) {
            Ok(s) => Ok(Some(s)),
            Err(e) => Err(e),
        },
        None => Ok(None),
    }
}

/// The session prefix: the first 512 characters of the `system` string, or
/// of the first system block's text, or nothing.
pub open spec fn spec_session_prefix(bytes: Seq<u8>) -> Seq<char> {
    match text_json(bytes) {
        Some(j) => match jget(jv(j), "system"@) {
            Some(JsonV::Str(s)) => if s.len() <= 512 {
                s
            } else {
                s.take(512)
            },
            Some(JsonV::Arr(a)) => if a.len() > 0 {
                match jget_str(a[0], "text"@) {
                    Some(t) => if t.len() <= 512 {
                        t
                    } else {
                        t.take(512)
                    },
                    None => Seq::empty(),
                }
            } else {
                Seq::empty()
            },
            _ => Seq::empty(),
        },
        None => Seq::empty(),
    }
}

/// The offset basis of the 64-bit FNV-1a hash.
pub const FNV_OFFSET: u64 = 0xcbf29ce484222325;

/// The prime of the 64-bit FNV-1a hash.
pub const FNV_PRIME: u64 = 0x100000001b3;

/// One FNV-1a step over a character's code point.
pub open spec fn fnv_step(h: u64, c: char) -> u64 {
    vstd::wrapping::u64_specs::wrapping_mul(h ^ (c as u64), FNV_PRIME)
}

/// The FNV-1a hash of a character sequence.
pub open spec fn fnv_hash(s: Seq<char>) -> u64
    decreases s.len(),
{
    if s.len() == 0 {
        FNV_OFFSET
    } else {
        fnv_step(fnv_hash(s.drop_last()), s.last())
    }
}

/// A stable 64-bit hash of the session prefix, used for key stickiness:
/// requests of the same session hash alike for the whole process lifetime.
pub fn session_hash(bytes: &[u8]) -> (r: u64)
    ensures
        r == fnv_hash(spec_session_prefix(bytes@)),
{
    let prefix: String = match parse_json(bytes) {
        Some(j) => match j.get("system") {
            Some(Json::Str(s)) => clip_chars(s.as_str()),
            Some(Json::Arr(a)) => {
                if a.len() > 0 {
                    proof {
                        crate::json::lemma_av_index(a@);
                    }
                    match a[0].get("text") {
                        Some(Json::Str(t)) => clip_chars(t.as_str()),
                        _ => String::new(),
                    }
                } else {
                    String::new()
                }
            },
            _ => String::new(),
        },
        None => String::new(),
    };
    fnv_of(prefix.as_str())
}

/// The first 512 characters of `s`.
fn clip_chars(s: &str) -> (r: String)
    ensures
        r@ == if s@.len() <= 512 {
            s@
        } else {
            s@.take(512)
        },
{
    let n = s.unicode_len();
    if n <= 512 {
        String::from_str(s)
    } else {
        String::from_str(s.substring_char(0, 512))
    }
}

/// The FNV-1a hash of a string's characters.
fn fnv_of(s: &str) -> (r: u64)
    ensures
        r == fnv_hash(s@),
{
    let n = s.unicode_len();
    let mut h: u64 = FNV_OFFSET;
    let mut i: usize = 0;
    while i < n
        invariant
            n == s@.len(),
            i <= n,
            h == fnv_hash(s@.take(i as int)),
        decreases n - i,
    {
        let c = s.get_char(i);
        h = (h ^ (c as u64)).wrapping_mul(FNV_PRIME);
        i += 1;
        proof {
            assert(s@.take(i as int).drop_last() =~= s@.take(i - 1));
            assert(s@.take(i as int).last() == s@[i - 1]);
        }
    }
    proof {
        assert(s@.take(n as int) =~= s@);
    }
    h
}

/// What one upstream attempt came back with, as the decision tree sees it.
pub enum UpstreamOutcome {
    /// A 2xx status.
    Success,
    /// A 429, with the parsed `Retry-After` seconds when present.
    RateLimited(Option<u64>),
    /// Any other non-2xx status.
    HttpError(u16),
    /// The request could not be sent or the response not received.
    TransportError,
}

/// What the pipeline does next.
#[derive(Debug, PartialEq, Eq)]
pub enum NextAction {
    /// Hand the response (as received) to the client.
    ReturnResponse,
    /// Put the key in cooldown and retry with another key.
    RetryNextKey,
    /// Re-issue against the default upstream.
    FallbackNow,
    /// Fail with this status.
    FailWith(u16),
}

/// A status is a success exactly when it lies in the 2xx range.
pub fn is_success_status(status: u16) -> (r: bool)
    ensures
        r == (200 <= status < 300),
{
    200 <= status && status < 300
}

/// The decision after one pooled-key attempt: rate limiting retries with
/// the next key; success returns; any other failure falls back when
/// enabled, otherwise an HTTP error is returned as received and a
/// transport error becomes 502.
pub fn after_pool_forward(fallback_enabled: bool, outcome: &UpstreamOutcome) -> (r: NextAction)
    ensures
        *outcome is RateLimited ==> r == NextAction::RetryNextKey,
        *outcome is Success ==> r == NextAction::ReturnResponse,
        *outcome is HttpError ==> r == if fallback_enabled {
            NextAction::FallbackNow
        } else {
            NextAction::ReturnResponse
        },
        *outcome is TransportError ==> r == if fallback_enabled {
            NextAction::FallbackNow
        } else {
            NextAction::FailWith(STATUS_BAD_GATEWAY)
        },
{
    match outcome {
        UpstreamOutcome::RateLimited(_) => NextAction::RetryNextKey,
        UpstreamOutcome::Success => NextAction::ReturnResponse,
        UpstreamOutcome::HttpError(_) => {
            if fallback_enabled {
                NextAction::FallbackNow
            } else {
                NextAction::ReturnResponse
            }
        },
        UpstreamOutcome::TransportError => {
            if fallback_enabled {
                NextAction::FallbackNow
            } else {
                NextAction::FailWith(STATUS_BAD_GATEWAY)
            }
        },
    }
}

/// The decision when no key is available: fall back when enabled, else
/// answer 429.
pub fn on_pool_exhausted(fallback_enabled: bool) -> (r: NextAction)
    ensures
        r == if fallback_enabled {
            NextAction::FallbackNow
        } else {
            NextAction::FailWith(STATUS_TOO_MANY_REQUESTS)
        },
{
    if fallback_enabled {
        NextAction::FallbackNow
    } else {
        NextAction::FailWith(STATUS_TOO_MANY_REQUESTS)
    }
}

/// The decision when the account permit wait timed out: fall back when
/// enabled, else answer 503.
pub fn on_permit_timeout(fallback_enabled: bool) -> (r: NextAction)
    ensures
        r == if fallback_enabled {
            NextAction::FallbackNow
        } else {
            NextAction::FailWith(STATUS_SERVICE_UNAVAILABLE)
        },
{
    if fallback_enabled {
        NextAction::FallbackNow
    } else {
        NextAction::FailWith(STATUS_SERVICE_UNAVAILABLE)
    }
}

/// The decision after the single attempt of a route without a pool.
pub fn after_single_forward(fallback_enabled: bool, outcome: &UpstreamOutcome) -> (r: NextAction)
    ensures
        *outcome is Success ==> r == NextAction::ReturnResponse,
        !(*outcome is Success) && fallback_enabled ==> r == NextAction::FallbackNow,
        !(*outcome is Success) && !fallback_enabled ==> r == if *outcome is TransportError {
            NextAction::FailWith(STATUS_BAD_GATEWAY)
        } else {
            NextAction::ReturnResponse
        },
{
    match outcome {
        UpstreamOutcome::Success => NextAction::ReturnResponse,
        UpstreamOutcome::TransportError => {
            if fallback_enabled {
                NextAction::FallbackNow
            } else {
                NextAction::FailWith(STATUS_BAD_GATEWAY)
            }
        },
        _ => {
            if fallback_enabled {
                NextAction::FallbackNow
            } else {
                NextAction::ReturnResponse
            }
        },
    }
}

/// The entries a transformed request body carries, per protocol.
pub open spec fn kind_request_entries(
    k: TransformerKind,
    o: Entries,
    mm: Option<Seq<char>>,
) -> Entries {
    match k {
        TransformerKind::OpenAI => crate::openai::openai_request(o, mm),
        TransformerKind::Gemini => crate::gemini::gem_body(o),
    }
}

/// The upstream path a transformed request goes to, per protocol.
pub open spec fn kind_request_path(
    k: TransformerKind,
    o: Entries,
    mm: Option<Seq<char>>,
    is_stream: bool,
) -> Seq<char> {
    match k {
        TransformerKind::OpenAI => "/v1/chat/completions"@,
        TransformerKind::Gemini => crate::gemini::gem_path(
            crate::gemini::gem_model(o, mm),
            is_stream,
        ),
    }
}

/// The rewritten non-streaming response, per protocol.
pub open spec fn kind_response(
    k: TransformerKind,
    body: JsonV,
    model: Seq<char>,
    id: Seq<char>,
) -> JsonV {
    match k {
        TransformerKind::OpenAI => crate::openai::openai_response(body, model, id),
        TransformerKind::Gemini => crate::gemini::gemini_response(body, model, id),
    }
}

/// The model named in a request body, `unknown` otherwise.
pub open spec fn spec_request_model(bytes: Seq<u8>) -> Seq<char> {
    match spec_model_of(bytes) {
        Some(m) => m,
        None => "unknown"@,
    }
}

/// Everything the forwarder needs for a transformed request.
pub struct PreparedRequest {
    pub path: String,
    pub body_text: String,
    pub model: String,
}

/// The compute side of a transformed forward: parse the inbound body,
/// rewrite it for the chosen protocol, render the upstream body text, and
/// keep the original model name for the response direction. Fails with
/// 400 exactly when the body is not a JSON object.
pub fn prepare_transformed_request(
    kind: TransformerKind,
    bytes: &[u8],
    model_map: Option<&str>,
    is_stream: bool,
) -> (r: Result<PreparedRequest, u16>)
    ensures
        (text_json(bytes@) matches Some(j) && jv(j) is Obj) ==> (r matches Ok(p) && {
            let o = jv(text_json(bytes@)->Some_0)->Obj_0;
            &&& p.path@ == kind_request_path(kind, o, crate::strutil::opt_str_view(model_map), is_stream)
            &&& p.body_text@ == jtext(
                JsonV::Obj(kind_request_entries(kind, o, crate::strutil::opt_str_view(model_map))),
            )
            &&& p.model@ == spec_request_model(bytes@)
        }),
        !(text_json(bytes@) matches Some(j) && jv(j) is Obj) ==> r == Err::<PreparedRequest, u16>(
            STATUS_BAD_REQUEST,
        ),
{
    match parse_json(bytes) {
        Some(body) => {
            let model: String = match body.get("model") {
                Some(Json::Str(s)) => s.clone(),
                _ => String::from_str("unknown"),
            };
            let transformed = match kind {
                TransformerKind::OpenAI => crate::openai::OpenAITransformer.transform_request(
                    body,
                    model_map,
                    is_stream,
                ),
                TransformerKind::Gemini => crate::gemini::GeminiTransformer.transform_request(
                    body,
                    model_map,
                    is_stream,
                ),
            };
            match transformed {
                Ok(t) => {
                    let body_text = json_to_string(&t.body);
                    Ok(PreparedRequest { path: t.path, body_text, model })
                },
                Err(_not_an_object) => Err(STATUS_BAD_REQUEST),
            }
        },
        None => Err(STATUS_BAD_REQUEST),
    }
}

/// The compute side of a transformed non-streaming response: parse the
/// upstream body and render it as an Anthropic message with a fresh
/// identifier. Fails with 502 exactly when the upstream body is not JSON.
pub fn rewrite_response(kind: TransformerKind, resp_bytes: &[u8], model: &str) -> (r: Result<
    String,
    u16,
>)
    ensures
        text_json(resp_bytes@) is None ==> r == Err::<String, u16>(STATUS_BAD_GATEWAY),
        text_json(resp_bytes@) matches Some(j) ==> (r matches Ok(s) && exists|id: Seq<char>|
            is_message_id(id) && s@ == jtext(kind_response(kind, jv(j), model@, id))),
{
    match parse_json(resp_bytes) {
        Some(j) => {
            let rewritten = match kind {
                TransformerKind::OpenAI => crate::openai::OpenAITransformer.transform_response(
                    &j,
                    model,
                ),
                TransformerKind::Gemini => crate::gemini::GeminiTransformer.transform_response(
                    &j,
                    model,
                ),
            };
            match rewritten {
                Ok(out) => {
                    let s = json_to_string(&out);
                    proof {
                        let id = choose|id: Seq<char>|
                            is_message_id(id) && jv(out) == kind_response(
                                kind,
                                jv(j),
                                model@,
                                id,
                            );
                        assert(is_message_id(id) && s@ == jtext(
                            kind_response(kind, jv(j), model@, id),
                        ));
                    }
                    Ok(s)
                },
                Err(_never) => Err(STATUS_BAD_GATEWAY),
            }
        },
        None => Err(STATUS_BAD_GATEWAY),
    }
}

} // verus!
