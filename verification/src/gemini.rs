//! Conversion between the Anthropic Messages shape and the Gemini
//! generateContent shape: request rewriting with role mapping and content
//! parts, non-streaming response rewriting, and stateful rewriting of
//! streamed chunks into Anthropic SSE events.

use vstd::prelude::*;

use crate::json::{
    arr_first, av, int_field_or, jarr_first, jget, jget_str, jv, olookup, ov, Entries, Json, JsonV,
};
use crate::jparse::{parse_json, text_json};
use crate::strutil::{append_str, chars_to_string, opt_str_view, str_eq};
use crate::transformer::{
    anthropic_message, block_stop_data, build_anthropic_message, build_block_start,
    build_block_stop, build_delta, build_message_delta, build_message_start, build_message_stop,
    delta_data, ev, ev_push, is_message_id, lemma_ev_index, message_delta_data,
    message_start_data, message_stop_data, new_message_id, render_events, sse_text, start_evs,
    EventKind, SseEvent, StreamContext, StreamStepV, TransformError, TransformedRequest,
};

verus! {

use vstd::string::StringExecFns;

/// The Anthropic ⇄ Gemini protocol transformer.
pub struct GeminiTransformer;

/// Anthropic's `assistant` is Gemini's `model`; other roles pass through.
pub open spec fn gem_role(r: Seq<char>) -> Seq<char> {
    if r == "assistant"@ {
        "model"@
    } else {
        r
    }
}

/// Map an Anthropic role name onto Gemini's.
pub fn map_role(role: &str) -> (r: &str)
    ensures
        r@ == gem_role(role@),
{
    if str_eq(role, "assistant") {
        "model"
    } else {
        role
    }
}

/// A `{"text":...}` part.
pub open spec fn gem_part(t: Seq<char>) -> JsonV {
    JsonV::Obj(seq![("text"@, JsonV::Str(t))])
}

/// The parts of a content-block array: one part per block whose `text`
/// field is a string; other blocks are dropped.
pub open spec fn parts_of_blocks(blocks: Seq<JsonV>) -> Seq<JsonV>
    decreases blocks.len(),
{
    if blocks.len() == 0 {
        Seq::empty()
    } else {
        let rest = parts_of_blocks(blocks.drop_last());
        match jget_str(blocks.last(), "text"@) {
            Some(t) => rest.push(gem_part(t)),
            None => rest,
        }
    }
}

/// Anthropic message content as Gemini parts: a string becomes one part,
/// an array is filtered block-wise, anything else one empty part.
pub open spec fn to_parts_v(content: JsonV) -> JsonV {
    match content {
        JsonV::Str(s) => JsonV::Arr(seq![gem_part(s)]),
        JsonV::Arr(blocks) => JsonV::Arr(parts_of_blocks(blocks)),
        _ => JsonV::Arr(seq![gem_part(Seq::empty())]),
    }
}

/// Build a `{"text":...}` part.
fn build_part(t: String) -> (r: Json)
    ensures
        jv(r) == gem_part(t@),
{
    let ghost tv = t@;
    let mut o: Vec<(String, Json)> = Vec::new();
    crate::json::obj_push(&mut o, "text", Json::Str(t));
    proof {
        assert(ov(o@) =~= gem_part(tv)->Obj_0);
    }
    Json::Obj(o)
}

/// Anthropic message content rendered as Gemini parts.
pub fn to_parts(content: &Json) -> (r: Json)
    ensures
        jv(r) == to_parts_v(jv(*content)),
{
    match content {
        Json::Str(s) => {
            let part = build_part(s.clone());
            let mut a: Vec<Json> = Vec::new();
            crate::json::arr_push(&mut a, part);
            proof {
                assert(av(a@) =~= seq![gem_part(s@)]);
            }
            Json::Arr(a)
        },
        Json::Arr(blocks) => {
            let n = blocks.len();
            let mut out: Vec<Json> = Vec::new();
            let mut i: usize = 0;
            proof {
                crate::json::lemma_av_index(blocks@);
            }
            while i < n
                invariant
                    n == blocks@.len(),
                    i <= n,
                    av(blocks@).len() == n,
                    forall|k: int| 0 <= k < n ==> av(blocks@)[k] == jv(#[trigger] blocks@[k]),
                    av(out@) == parts_of_blocks(av(blocks@).take(i as int)),
                decreases n - i,
            {
                let ghost pre = av(blocks@).take(i as int);
                proof {
                    assert(av(blocks@).take(i + 1).drop_last() =~= pre);
                    assert(av(blocks@).take(i + 1).last() == av(blocks@)[i as int]);
                }
                match blocks[i].get("text") {
                    Some(Json::Str(t)) => {
                        let part = build_part(t.clone());
                        let ghost preout = av(out@);
                        crate::json::arr_push(&mut out, part);
                    },
                    _ => {},
                }
                i += 1;
            }
            proof {
                assert(av(blocks@).take(n as int) =~= av(blocks@));
            }
            Json::Arr(out)
        },
        _ => {
            let part = build_part(String::new());
            let mut a: Vec<Json> = Vec::new();
            crate::json::arr_push(&mut a, part);
            proof {
                assert(av(a@) =~= seq![gem_part(Seq::<char>::empty())]);
            }
            Json::Arr(a)
        },
    }
}

/// The role of a message, `user` when absent or not a string.
pub open spec fn role_of(m: JsonV) -> Seq<char> {
    match jget_str(m, "role"@) {
        Some(r) => r,
        None => "user"@,
    }
}

/// One Anthropic message as a Gemini content: its mapped role and its
/// content as parts (missing content behaves as null).
pub open spec fn gem_content_of(m: JsonV) -> JsonV {
    JsonV::Obj(
        seq![
            ("role"@, JsonV::Str(gem_role(role_of(m)))),
            (
                "parts"@,
                to_parts_v(
                    match jget(m, "content"@) {
                        Some(c) => c,
                        None => JsonV::Null,
                    },
                ),
            ),
        ],
    )
}

/// The Gemini contents of a message list: system messages are dropped,
/// every other message is converted in order.
pub open spec fn gem_contents(msgs: Seq<JsonV>) -> Seq<JsonV>
    decreases msgs.len(),
{
    if msgs.len() == 0 {
        Seq::empty()
    } else {
        let rest = gem_contents(msgs.drop_last());
        if jget_str(msgs.last(), "role"@) == Some("system"@) {
            rest
        } else {
            rest.push(gem_content_of(msgs.last()))
        }
    }
}

/// The contents drawn from a request body: empty when `messages` is
/// missing or not an array.
pub open spec fn gem_contents_of_body(o: Entries) -> Seq<JsonV> {
    match olookup(o, "messages"@) {
        Some(JsonV::Arr(m)) => gem_contents(m),
        _ => Seq::empty(),
    }
}

/// The texts of a system array's blocks, in order.
pub open spec fn sys_text_list(arr: Seq<JsonV>) -> Seq<Seq<char>>
    decreases arr.len(),
{
    if arr.len() == 0 {
        Seq::empty()
    } else {
        let rest = sys_text_list(arr.drop_last());
        match jget_str(arr.last(), "text"@) {
            Some(t) => rest.push(t),
            None => rest,
        }
    }
}

/// Texts joined with a newline between them.
pub open spec fn join_nl(l: Seq<Seq<char>>) -> Seq<char>
    decreases l.len(),
{
    if l.len() == 0 {
        Seq::empty()
    } else if l.len() == 1 {
        l.last()
    } else {
        join_nl(l.drop_last()) + seq!['\n'] + l.last()
    }
}

/// The system instruction text: a string as it is, an array as its block
/// texts joined with newlines, anything else empty.
pub open spec fn gem_system_text(sys: JsonV) -> Seq<char> {
    match sys {
        JsonV::Str(s) => s,
        JsonV::Arr(a) => join_nl(sys_text_list(a)),
        _ => Seq::empty(),
    }
}

/// The generation settings carried over: `max_tokens`, `temperature`,
/// `top_p` and `stop_sequences`, under Gemini's names, in that order.
pub open spec fn gem_generation_config(o: Entries) -> Entries {
    let g0 = Seq::<(Seq<char>, JsonV)>::empty();
    let g1 = match olookup(o, "max_tokens"@) {
        Some(v) => g0.push(("maxOutputTokens"@, v)),
        None => g0,
    };
    let g2 = match olookup(o, "temperature"@) {
        Some(v) => g1.push(("temperature"@, v)),
        None => g1,
    };
    let g3 = match olookup(o, "top_p"@) {
        Some(v) => g2.push(("topP"@, v)),
        None => g2,
    };
    match olookup(o, "stop_sequences"@) {
        Some(v) => g3.push(("stopSequences"@, v)),
        None => g3,
    }
}

/// The whole Gemini request body: the contents, then the system
/// instruction when its text is non-empty, then the generation settings
/// when any are present.
pub open spec fn gem_body(o: Entries) -> Entries {
    let b0 = seq![("contents"@, JsonV::Arr(gem_contents_of_body(o)))];
    let b1 = match olookup(o, "system"@) {
        Some(sys) => if gem_system_text(sys).len() > 0 {
            b0.push(
                (
                    "systemInstruction"@,
                    JsonV::Obj(
                        seq![("parts"@, JsonV::Arr(seq![gem_part(gem_system_text(sys))]))],
                    ),
                ),
            )
        } else {
            b0
        },
        None => b0,
    };
    let g = gem_generation_config(o);
    if g.len() > 0 {
        b1.push(("generationConfig"@, JsonV::Obj(g)))
    } else {
        b1
    }
}

/// The upstream model: the mapping when set, else the request's `model`
/// string, else a default.
pub open spec fn gem_model(o: Entries, mm: Option<Seq<char>>) -> Seq<char> {
    match mm {
        Some(m) => m,
        None => match olookup(o, "model"@) {
            Some(JsonV::Str(s)) => s,
            _ => "gemini-2.0-flash"@,
        },
    }
}

/// The endpoint path for a model, streaming or not.
pub open spec fn gem_path(model: Seq<char>, is_stream: bool) -> Seq<char> {
    if is_stream {
        "/v1beta/models/"@ + model + ":streamGenerateContent?alt=sse"@
    } else {
        "/v1beta/models/"@ + model + ":generateContent"@
    }
}

/// `candidates[0]` of a Gemini response or chunk.
pub open spec fn cand0(body: JsonV) -> Option<JsonV> {
    match jget(body, "candidates"@) {
        Some(c) => jarr_first(c),
        None => None,
    }
}

/// `candidates[0].content.parts[0].text`, empty when absent.
pub open spec fn gem_resp_text(body: JsonV) -> Seq<char> {
    match cand0(body) {
        Some(c) => match jget(c, "content"@) {
            Some(ct) => match jget(ct, "parts"@) {
                Some(p) => match jarr_first(p) {
                    Some(p0) => match jget_str(p0, "text"@) {
                        Some(t) => t,
                        None => Seq::empty(),
                    },
                    None => Seq::empty(),
                },
                None => Seq::empty(),
            },
            None => Seq::empty(),
        },
        None => Seq::empty(),
    }
}

/// `candidates[0].finishReason` when it is a string.
pub open spec fn gem_chunk_finish(body: JsonV) -> Option<Seq<char>> {
    match cand0(body) {
        Some(c) => jget_str(c, "finishReason"@),
        None => None,
    }
}

/// The finish reason of a response, `STOP` when absent.
pub open spec fn gem_resp_finish(body: JsonV) -> Seq<char> {
    match gem_chunk_finish(body) {
        Some(f) => f,
        None => "STOP"@,
    }
}

/// Gemini's finish reason mapped onto Anthropic's stop reason.
pub open spec fn gem_stop_reason(f: Seq<char>) -> Seq<char> {
    if f == "STOP"@ {
        "end_turn"@
    } else if f == "MAX_TOKENS"@ {
        "max_tokens"@
    } else {
        f
    }
}

/// `usageMetadata.promptTokenCount` of a response, 0 when absent.
pub open spec fn gem_resp_input_tokens(body: JsonV) -> u64 {
    match jget(body, "usageMetadata"@) {
        Some(u) => crate::json::jget_int_or(u, "promptTokenCount"@, 0),
        None => 0,
    }
}

/// `usageMetadata.candidatesTokenCount` of a response, 0 when absent.
pub open spec fn gem_resp_output_tokens(body: JsonV) -> u64 {
    match jget(body, "usageMetadata"@) {
        Some(u) => crate::json::jget_int_or(u, "candidatesTokenCount"@, 0),
        None => 0,
    }
}

/// The whole rewritten non-streaming response.
pub open spec fn gemini_response(body: JsonV, model: Seq<char>, id: Seq<char>) -> JsonV {
    anthropic_message(
        id,
        model,
        gem_resp_text(body),
        gem_stop_reason(gem_resp_finish(body)),
        gem_resp_input_tokens(body),
        gem_resp_output_tokens(body),
    )
}

/// What one parsed Gemini chunk does: the token counters follow
/// `usageMetadata` field-wise, the block opens the first time, non-empty
/// text becomes a delta, and a finish reason closes the block and reports
/// the mapped stop reason with the current output count.
pub open spec fn gem_chunk_step(
    d: JsonV,
    started: bool,
    block_index: u32,
    in_t: u64,
    out_t: u64,
) -> StreamStepV {
    let in1 = match jget(d, "usageMetadata"@) {
        Some(u) => match jget(u, "promptTokenCount"@) {
            Some(JsonV::Int(n)) => n,
            _ => in_t,
        },
        None => in_t,
    };
    let out1 = match jget(d, "usageMetadata"@) {
        Some(u) => match jget(u, "candidatesTokenCount"@) {
            Some(JsonV::Int(n)) => n,
            _ => out_t,
        },
        None => out_t,
    };
    let opening = start_evs(started, block_index);
    let text = gem_resp_text(d);
    let delta_evs: Seq<(EventKind, JsonV)> = if text.len() > 0 {
        seq![(EventKind::ContentBlockDelta, delta_data(block_index, text))]
    } else {
        Seq::empty()
    };
    let fin_evs: Seq<(EventKind, JsonV)> = match gem_chunk_finish(d) {
        Some(f) => seq![
            (EventKind::ContentBlockStop, block_stop_data(block_index)),
            (EventKind::MessageDelta, message_delta_data(gem_stop_reason(f), out1)),
        ],
        None => Seq::empty(),
    };
    StreamStepV {
        events: opening + delta_evs + fin_evs,
        started: true,
        input_tokens: in1,
        output_tokens: out1,
    }
}

fn response_text(body: &Json) -> (r: String)
    ensures
        r@ == gem_resp_text(jv(*body)),
{
    match body.get("candidates") {
        Some(cands) => match arr_first(cands) {
            Some(c) => match c.get("content") {
                Some(ct) => match ct.get("parts") {
                    Some(p) => match arr_first(p) {
                        Some(p0) => match p0.get("text") {
                            Some(Json::Str(t)) => t.clone(),
                            _ => String::new(),
                        },
                        None => String::new(),
                    },
                    None => String::new(),
                },
                None => String::new(),
            },
            None => String::new(),
        },
        None => String::new(),
    }
}

fn chunk_finish(body: &Json) -> (r: Option<String>)
    ensures
        match r {
            Some(f) => gem_chunk_finish(jv(*body)) == Some(f@),
            None => gem_chunk_finish(jv(*body)) is None,
        },
{
    match body.get("candidates") {
        Some(cands) => match arr_first(cands) {
            Some(c) => match c.get("finishReason") {
                Some(Json::Str(f)) => Some(f.clone()),
                _ => None,
            },
            None => None,
        },
        None => None,
    }
}

/// Map Gemini's finish reason to Anthropic's stop reason.
fn map_stop_reason(f: &str) -> (r: &str)
    ensures
        r@ == gem_stop_reason(f@),
{
    if str_eq(f, "STOP") {
        "end_turn"
    } else if str_eq(f, "MAX_TOKENS") {
        "max_tokens"
    } else {
        f
    }
}

fn system_text_of(sys: &Json) -> (r: String)
    ensures
        r@ == gem_system_text(jv(*sys)),
{
    match sys {
        Json::Str(s) => s.clone(),
        Json::Arr(arr) => {
            let n = arr.len();
            let mut out: Vec<char> = Vec::new();
            let mut count: usize = 0;
            proof {
                crate::json::lemma_av_index(arr@);
            }
            let mut i: usize = 0;
            while i < n
                invariant
                    n == arr@.len(),
                    i <= n,
                    av(arr@).len() == n,
                    forall|k: int| 0 <= k < n ==> av(arr@)[k] == jv(#[trigger] arr@[k]),
                    count <= i,
                    count == sys_text_list(av(arr@).take(i as int)).len(),
                    out@ == join_nl(sys_text_list(av(arr@).take(i as int))),
                decreases n - i,
            {
                let ghost lpre = sys_text_list(av(arr@).take(i as int));
                proof {
                    assert(av(arr@).take(i + 1).drop_last() =~= av(arr@).take(i as int));
                    assert(av(arr@).take(i + 1).last() == av(arr@)[i as int]);
                }
                match arr[i].get("text") {
                    Some(Json::Str(t)) => {
                        if count > 0 {
                            out.push('\n');
                        }
                        append_str(&mut out, t.as_str());
                        count += 1;
                        proof {
                            assert(sys_text_list(av(arr@).take(i + 1)) == lpre.push(t@));
                            assert(lpre.push(t@).drop_last() =~= lpre);
                            if lpre.len() == 0 {
                                assert(join_nl(lpre.push(t@)) == t@);
                                assert(out@ =~= t@);
                            } else {
                                assert(join_nl(lpre.push(t@)) == join_nl(lpre) + seq!['\n'] + t@);
                                assert(out@ =~= join_nl(lpre) + seq!['\n'] + t@);
                            }
                        }
                    },
                    _ => {},
                }
                i += 1;
            }
            proof {
                assert(av(arr@).take(n as int) =~= av(arr@));
            }
            chars_to_string(&out)
        },
        _ => String::new(),
    }
}

impl GeminiTransformer {
    /// Rewrite an Anthropic request body for Gemini. Fails exactly when the
    /// body is not a JSON object; the path names the chosen model and the
    /// streaming or non-streaming endpoint.
    pub fn transform_request(&self, body: Json, model_map: Option<&str>, is_stream: bool) -> (r:
        Result<TransformedRequest, TransformError>)
        ensures
            jv(body) is Obj ==> (r matches Ok(t) && t.path@ == gem_path(
                gem_model(jv(body)->Obj_0, opt_str_view(model_map)),
                is_stream,
            ) && jv(t.body) == JsonV::Obj(gem_body(jv(body)->Obj_0)) && t.extra_headers@.len()
                == 0),
            !(jv(body) is Obj) ==> r is Err,
    {
        match body {
            Json::Obj(o) => {
                let ghost oe = ov(o@);
                let model: String = match model_map {
                    Some(m) => String::from_str(m),
                    None => match crate::json::obj_get(&o, "model") {
                        Some(Json::Str(s)) => s.clone(),
                        _ => String::from_str("gemini-2.0-flash"),
                    },
                };
                proof {
                    assert(model@ == gem_model(oe, opt_str_view(model_map)));
                }
                let mut pc: Vec<char> = Vec::new();
                append_str(&mut pc, "/v1beta/models/");
                append_str(&mut pc, model.as_str());
                if is_stream {
                    append_str(&mut pc, ":streamGenerateContent?alt=sse");
                } else {
                    append_str(&mut pc, ":generateContent");
                }
                let path = chars_to_string(&pc);
                let mut contents: Vec<Json> = Vec::new();
                match crate::json::obj_get(&o, "messages") {
                    Some(Json::Arr(msgs)) => {
                        let n = msgs.len();
                        let mut i: usize = 0;
                        proof {
                            crate::json::lemma_av_index(msgs@);
                        }
                        while i < n
                            invariant
                                n == msgs@.len(),
                                i <= n,
                                av(msgs@).len() == n,
                                forall|k: int|
                                    0 <= k < n ==> av(msgs@)[k] == jv(#[trigger] msgs@[k]),
                                av(contents@) == gem_contents(av(msgs@).take(i as int)),
                            decreases n - i,
                        {
                            proof {
                                assert(av(msgs@).take(i + 1).drop_last() =~= av(msgs@).take(
                                    i as int,
                                ));
                                assert(av(msgs@).take(i + 1).last() == av(msgs@)[i as int]);
                            }
                            let keep = match msgs[i].get("role") {
                                Some(Json::Str(rs)) => !str_eq(rs.as_str(), "system"),
                                _ => true,
                            };
                            if keep {
                                let role_name: String = match msgs[i].get("role") {
                                    Some(Json::Str(rs)) => rs.clone(),
                                    _ => String::from_str("user"),
                                };
                                let mapped = map_role(role_name.as_str());
                                let parts = match msgs[i].get("content") {
                                    Some(c) => to_parts(c),
                                    None => {
                                        let absent = Json::Null;
                                        to_parts(&absent)
                                    },
                                };
                                let ghost partsv = jv(parts);
                                let mut co: Vec<(String, Json)> = Vec::new();
                                crate::json::obj_push(&mut co, "role", crate::json::jstr(mapped));
                                crate::json::obj_push(&mut co, "parts", parts);
                                proof {
                                    assert(ov(co@) =~= gem_content_of(jv(msgs@[i as int]))->Obj_0);
                                }
                                crate::json::arr_push(&mut contents, Json::Obj(co));
                            }
                            i += 1;
                        }
                        proof {
                            assert(av(msgs@).take(n as int) =~= av(msgs@));
                        }
                    },
                    _ => {},
                }
                proof {
                    assert(av(contents@) == gem_contents_of_body(oe));
                }
                let mut bo: Vec<(String, Json)> = Vec::new();
                crate::json::obj_push(&mut bo, "contents", Json::Arr(contents));
                match crate::json::obj_get(&o, "system") {
                    Some(sys_ref) => {
                        let sys_text = system_text_of(sys_ref);
                        if !sys_text.as_str().is_empty() {
                            let ghost stv = sys_text@;
                            let part = build_part(sys_text);
                            let mut parr: Vec<Json> = Vec::new();
                            crate::json::arr_push(&mut parr, part);
                            let mut si: Vec<(String, Json)> = Vec::new();
                            crate::json::obj_push(&mut si, "parts", Json::Arr(parr));
                            proof {
                                assert(av(parr@) =~= seq![gem_part(stv)]);
                                assert(ov(si@) =~= seq![
                                    ("parts"@, JsonV::Arr(seq![gem_part(stv)])),
                                ]);
                            }
                            crate::json::obj_push(&mut bo, "systemInstruction", Json::Obj(si));
                        }
                    },
                    None => {},
                }
                let ghost b1 = ov(bo@);
                let mut g: Vec<(String, Json)> = Vec::new();
                match crate::json::obj_get(&o, "max_tokens") {
                    Some(v) => crate::json::obj_push(&mut g, "maxOutputTokens", v.deep_clone()),
                    None => {},
                }
                match crate::json::obj_get(&o, "temperature") {
                    Some(v) => crate::json::obj_push(&mut g, "temperature", v.deep_clone()),
                    None => {},
                }
                match crate::json::obj_get(&o, "top_p") {
                    Some(v) => crate::json::obj_push(&mut g, "topP", v.deep_clone()),
                    None => {},
                }
                match crate::json::obj_get(&o, "stop_sequences") {
                    Some(v) => crate::json::obj_push(&mut g, "stopSequences", v.deep_clone()),
                    None => {},
                }
                proof {
                    assert(ov(g@) == gem_generation_config(oe));
                    crate::json::lemma_ov_index(g@);
                }
                if g.len() > 0 {
                    crate::json::obj_push(&mut bo, "generationConfig", Json::Obj(g));
                }
                proof {
                    assert(ov(bo@) == gem_body(oe));
                }
                Ok(
                    TransformedRequest {
                        path,
                        body: Json::Obj(bo),
                        extra_headers: Vec::new(),
                    },
                )
            },
            _ => Err(TransformError(String::from_str("request body is not a JSON object"))),
        }
    }

    /// Rewrite a non-streaming Gemini response as an Anthropic message
    /// carrying the given fresh identifier.
    pub fn transform_response_with_id(&self, body: &Json, model: &str, id: String) -> (r: Json)
        ensures
            jv(r) == gemini_response(jv(*body), model@, id@),
    {
        let text = response_text(body);
        let finish: String = match chunk_finish(body) {
            Some(f) => f,
            None => String::from_str("STOP"),
        };
        let stop = map_stop_reason(finish.as_str());
        let in_t = match body.get("usageMetadata") {
            Some(u) => int_field_or(u, "promptTokenCount", 0),
            None => 0,
        };
        let out_t = match body.get("usageMetadata") {
            Some(u) => int_field_or(u, "candidatesTokenCount", 0),
            None => 0,
        };
        build_anthropic_message(id, model, text, stop, in_t, out_t)
    }

    /// Rewrite a non-streaming Gemini response as an Anthropic message with
    /// a freshly minted identifier. This never fails.
    pub fn transform_response(&self, body: &Json, model: &str) -> (r: Result<Json, TransformError>)
        ensures
            r is Ok,
            r matches Ok(j) ==> exists|id: Seq<char>|
                is_message_id(id) && jv(j) == gemini_response(jv(*body), model@, id),
    {
        let id = new_message_id();
        let ghost idv = id@;
        let out = self.transform_response_with_id(body, model, id);
        proof {
            assert(is_message_id(idv) && jv(out) == gemini_response(jv(*body), model@, idv));
        }
        Ok(out)
    }

    /// The events that open a stream: exactly one `message_start`.
    pub fn stream_start_sse(&self, ctx: &StreamContext) -> (r: Vec<SseEvent>)
        ensures
            ev(r@) == seq![
                (EventKind::MessageStart, message_start_data(ctx.message_id@, ctx.model@)),
            ],
    {
        let data = build_message_start(ctx.message_id.as_str(), ctx.model.as_str());
        let mut out: Vec<SseEvent> = Vec::new();
        ev_push(&mut out, EventKind::MessageStart, data);
        proof {
            assert(ev(out@) =~= seq![
                (EventKind::MessageStart, message_start_data(ctx.message_id@, ctx.model@)),
            ]);
        }
        out
    }

    /// The events that close a stream: exactly one `message_stop`.
    pub fn stream_end_sse(&self, ctx: &mut StreamContext) -> (r: Vec<SseEvent>)
        ensures
            ev(r@) == seq![(EventKind::MessageStop, message_stop_data())],
            *final(ctx) == *old(ctx),
    {
        let data = build_message_stop();
        let mut out: Vec<SseEvent> = Vec::new();
        ev_push(&mut out, EventKind::MessageStop, data);
        proof {
            assert(ev(out@) =~= seq![(EventKind::MessageStop, message_stop_data())]);
        }
        out
    }

    /// Rewrite one SSE payload. A payload that is not JSON is an error and
    /// changes nothing; a parsed chunk behaves as `gem_chunk_step` says.
    pub fn transform_stream_chunk_sse(&self, chunk: &[u8], ctx: &mut StreamContext) -> (r: Result<
        Vec<SseEvent>,
        TransformError,
    >)
        ensures
            text_json(chunk@) is None ==> (r is Err && *final(ctx) == *old(ctx)),
            text_json(chunk@) is Some ==> (r matches Ok(evs) && {
                let j = text_json(chunk@)->Some_0;
                let st = gem_chunk_step(
                    jv(j),
                    old(ctx).started,
                    old(ctx).block_index,
                    old(ctx).input_tokens,
                    old(ctx).output_tokens,
                );
                &&& ev(evs@) == st.events
                &&& final(ctx).started == st.started
                &&& final(ctx).input_tokens == st.input_tokens
                &&& final(ctx).output_tokens == st.output_tokens
                &&& final(ctx).block_index == old(ctx).block_index
                &&& final(ctx).model == old(ctx).model
                &&& final(ctx).message_id == old(ctx).message_id
            }),
    {
        match parse_json(chunk) {
            None => Err(TransformError(String::from_str("stream chunk is not valid JSON"))),
            Some(data) => {
                let ghost dv = jv(data);
                let ghost st = gem_chunk_step(
                    dv,
                    ctx.started,
                    ctx.block_index,
                    ctx.input_tokens,
                    ctx.output_tokens,
                );
                match data.get("usageMetadata") {
                    Some(u) => {
                        match u.get("promptTokenCount") {
                            Some(Json::Int(n)) => {
                                ctx.input_tokens = *n;
                            },
                            _ => {},
                        }
                        match u.get("candidatesTokenCount") {
                            Some(Json::Int(n)) => {
                                ctx.output_tokens = *n;
                            },
                            _ => {},
                        }
                    },
                    None => {},
                }
                let mut events: Vec<SseEvent> = Vec::new();
                if !ctx.started {
                    ctx.started = true;
                    let bs = build_block_start(ctx.block_index);
                    ev_push(&mut events, EventKind::ContentBlockStart, bs);
                }
                proof {
                    assert(ev(events@) =~= start_evs(old(ctx).started, old(ctx).block_index));
                }
                let text = response_text(&data);
                if !text.as_str().is_empty() {
                    let d = build_delta(ctx.block_index, text);
                    ev_push(&mut events, EventKind::ContentBlockDelta, d);
                }
                match chunk_finish(&data) {
                    Some(f) => {
                        let bs = build_block_stop(ctx.block_index);
                        ev_push(&mut events, EventKind::ContentBlockStop, bs);
                        let stop = map_stop_reason(f.as_str());
                        let md = build_message_delta(stop, ctx.output_tokens);
                        ev_push(&mut events, EventKind::MessageDelta, md);
                    },
                    None => {},
                }
                proof {
                    assert(ev(events@) =~= st.events);
                }
                Ok(events)
            },
        }
    }

    /// The opening of a stream, rendered: one `message_start` record.
    pub fn stream_start_events(&self, ctx: &StreamContext) -> (r: Vec<String>)
        ensures
            r@.len() == 1,
            r@[0]@ == sse_text(
                EventKind::MessageStart,
                message_start_data(ctx.message_id@, ctx.model@),
            ),
    {
        let evs = self.stream_start_sse(ctx);
        let out = render_events(&evs);
        proof {
            lemma_ev_index(evs@);
        }
        out
    }

    /// The close of a stream, rendered: one `message_stop` record.
    pub fn stream_end_events(&self, ctx: &mut StreamContext) -> (r: Vec<String>)
        ensures
            r@.len() == 1,
            r@[0]@ == sse_text(EventKind::MessageStop, message_stop_data()),
            *final(ctx) == *old(ctx),
    {
        let evs = self.stream_end_sse(ctx);
        let out = render_events(&evs);
        proof {
            lemma_ev_index(evs@);
        }
        out
    }

    /// Rewrite one SSE payload into rendered Anthropic SSE records.
    pub fn transform_stream_chunk(&self, chunk: &[u8], ctx: &mut StreamContext) -> (r: Result<
        Vec<String>,
        TransformError,
    >)
        ensures
            text_json(chunk@) is None ==> (r is Err && *final(ctx) == *old(ctx)),
            text_json(chunk@) is Some ==> (r matches Ok(v) && {
                let j = text_json(chunk@)->Some_0;
                let st = gem_chunk_step(
                    jv(j),
                    old(ctx).started,
                    old(ctx).block_index,
                    old(ctx).input_tokens,
                    old(ctx).output_tokens,
                );
                &&& v@.len() == st.events.len()
                &&& forall|i: int|
                    0 <= i < v@.len() ==> (#[trigger] v@[i])@ == sse_text(
                        st.events[i].0,
                        st.events[i].1,
                    )
                &&& final(ctx).started == st.started
                &&& final(ctx).input_tokens == st.input_tokens
                &&& final(ctx).output_tokens == st.output_tokens
                &&& final(ctx).block_index == old(ctx).block_index
                &&& final(ctx).model == old(ctx).model
                &&& final(ctx).message_id == old(ctx).message_id
            }),
    {
        match self.transform_stream_chunk_sse(chunk, ctx) {
            Ok(evs) => {
                let out = render_events(&evs);
                proof {
                    lemma_ev_index(evs@);
                    if text_json(chunk@) is Some {
                        let j = text_json(chunk@)->Some_0;
                        let st = gem_chunk_step(
                            jv(j),
                            old(ctx).started,
                            old(ctx).block_index,
                            old(ctx).input_tokens,
                            old(ctx).output_tokens,
                        );
                        assert forall|i: int|
                            0 <= i < out@.len() implies (#[trigger] out@[i])@ == sse_text(
                            st.events[i].0,
                            st.events[i].1,
                        ) by {
                            assert(out@[i]@ == sse_text(evs@[i].kind, jv(evs@[i].data)));
                            assert(ev(evs@)[i] == (evs@[i].kind, jv(evs@[i].data)));
                        }
                    }
                }
                Ok(out)
            },
            Err(e) => Err(e),
        }
    }
}

/// Any rewritten non-streaming response is a syntactically valid Anthropic
/// message: a non-empty identifier, type `message`, role `assistant`,
/// exactly one text block, and the mapped stop reason.
pub proof fn lemma_gemini_response_valid(body: JsonV, model: Seq<char>, id: Seq<char>)
    requires
        is_message_id(id),
    ensures
        crate::transformer::valid_anthropic_message(gemini_response(body, model, id)),
        crate::json::jget_str(gemini_response(body, model, id), "stop_reason"@) == Some(
            gem_stop_reason(gem_resp_finish(body)),
        ),
        crate::json::jget_str(gemini_response(body, model, id), "id"@) == Some(id),
        crate::json::jget_str(gemini_response(body, model, id), "model"@) == Some(model),
{
    reveal_strlit("msg_");
    assert("msg_"@.len() == 4);
    assert(id.subrange(0, 4).len() == 4);
    assert(id.len() > 0);
    crate::transformer::lemma_anthropic_message_valid(
        id,
        model,
        gem_resp_text(body),
        gem_stop_reason(gem_resp_finish(body)),
        gem_resp_input_tokens(body),
        gem_resp_output_tokens(body),
    );
}

} // verus!
