//! Conversion between the Anthropic Messages shape and the OpenAI chat
//! completions shape: request rewriting, non-streaming response rewriting,
//! and stateful rewriting of streamed chunks into Anthropic SSE events.

use vstd::prelude::*;

use crate::json::{
    arr_first, av, int_field_or, jarr_first, jget, jget_int_or, jget_str, jv, obj_remove, obj_set,
    obj_take, olookup, oremove, oset, ov, Entries, Json, JsonV,
};
use crate::jparse::{parse_json, text_json};
use crate::strutil::{opt_str_view, spec_trim_b, trim_slice};
use crate::transformer::{
    anthropic_message, block_start_data, block_stop_data, build_anthropic_message,
    build_block_start, build_block_stop, build_delta, build_message_delta, build_message_start,
    build_message_stop, delta_data, ev, ev_push, is_message_id, lemma_ev_index,
    message_delta_data, message_start_data, message_stop_data, new_message_id, render_events,
    sse_text, EventKind, SseEvent, StreamContext, TransformError, TransformedRequest,
};

verus! {

use vstd::string::StringExecFns;

/// The Anthropic ⇄ OpenAI protocol transformer.
pub struct OpenAITransformer;

/// `choices[0]` of an OpenAI response body.
pub open spec fn choice0(body: JsonV) -> Option<JsonV> {
    match jget(body, "choices"@) {
        Some(c) => jarr_first(c),
        None => None,
    }
}

/// OpenAI's finish reason mapped onto Anthropic's stop reason.
pub open spec fn openai_stop_reason(f: Seq<char>) -> Seq<char> {
    if f == "stop"@ {
        "end_turn"@
    } else if f == "length"@ {
        "max_tokens"@
    } else {
        f
    }
}

/// `choices[0].message.content` of a response, empty when absent.
pub open spec fn openai_resp_text(body: JsonV) -> Seq<char> {
    match choice0(body) {
        Some(c) => match jget(c, "message"@) {
            Some(m) => match jget_str(m, "content"@) {
                Some(t) => t,
                None => Seq::empty(),
            },
            None => Seq::empty(),
        },
        None => Seq::empty(),
    }
}

/// `choices[0].finish_reason` of a response, `stop` when absent.
pub open spec fn openai_resp_finish(body: JsonV) -> Seq<char> {
    match choice0(body) {
        Some(c) => match jget_str(c, "finish_reason"@) {
            Some(f) => f,
            None => "stop"@,
        },
        None => "stop"@,
    }
}

/// `usage.prompt_tokens` of a response, 0 when absent.
pub open spec fn openai_resp_input_tokens(body: JsonV) -> u64 {
    match jget(body, "usage"@) {
        Some(u) => jget_int_or(u, "prompt_tokens"@, 0),
        None => 0,
    }
}

/// `usage.completion_tokens` of a response, 0 when absent.
pub open spec fn openai_resp_output_tokens(body: JsonV) -> u64 {
    match jget(body, "usage"@) {
        Some(u) => jget_int_or(u, "completion_tokens"@, 0),
        None => 0,
    }
}

/// The whole rewritten non-streaming response.
pub open spec fn openai_response(body: JsonV, model: Seq<char>, id: Seq<char>) -> JsonV {
    anthropic_message(
        id,
        model,
        openai_resp_text(body),
        openai_stop_reason(openai_resp_finish(body)),
        openai_resp_input_tokens(body),
        openai_resp_output_tokens(body),
    )
}

/// The request entries with `model` replaced when a mapping is set.
pub open spec fn with_model(o: Entries, mm: Option<Seq<char>>) -> Entries {
    match mm {
        Some(m) => oset(o, "model"@, JsonV::Str(m)),
        None => o,
    }
}

/// A `{"role":"system","content":...}` message.
pub open spec fn sys_message(sys: JsonV) -> JsonV {
    JsonV::Obj(seq![("role"@, JsonV::Str("system"@)), ("content"@, sys)])
}

/// The request entries with the `system` field removed and, when `messages`
/// is an array, turned into its leading system message. A non-array
/// `messages` value is re-bound unchanged.
pub open spec fn with_system_moved(o: Entries) -> Entries {
    match olookup(o, "system"@) {
        Some(sys) => {
            let o1 = oremove(o, "system"@);
            match olookup(o1, "messages"@) {
                Some(JsonV::Arr(msgs)) => oset(
                    o1,
                    "messages"@,
                    JsonV::Arr(seq![sys_message(sys)] + msgs),
                ),
                Some(v) => oset(o1, "messages"@, v),
                None => o1,
            }
        },
        None => o,
    }
}

/// The request entries with the binding of `from` renamed to `to`.
pub open spec fn with_renamed(o: Entries, from: Seq<char>, to: Seq<char>) -> Entries {
    match olookup(o, from) {
        Some(v) => oset(oremove(o, from), to, v),
        None => o,
    }
}

/// The whole OpenAI request rewrite: replace the model, turn `system` into
/// the first message, rename `max_tokens` and `stop_sequences`, drop the
/// fields OpenAI does not take.
pub open spec fn openai_request(o: Entries, mm: Option<Seq<char>>) -> Entries {
    oremove(
        oremove(
            oremove(
                with_renamed(
                    with_renamed(
                        with_system_moved(with_model(o, mm)),
                        "max_tokens"@,
                        "max_completion_tokens"@,
                    ),
                    "stop_sequences"@,
                    "stop"@,
                ),
                "top_k"@,
            ),
            "metadata"@,
        ),
        "anthropic_version"@,
    )
}

impl OpenAITransformer {
    /// Rewrite an Anthropic request body for OpenAI. Fails exactly when the
    /// body is not a JSON object; the path is always the chat completions
    /// endpoint.
    pub fn transform_request(&self, body: Json, model_map: Option<&str>, is_stream: bool) -> (r:
        Result<TransformedRequest, TransformError>)
        ensures
            jv(body) is Obj ==> (r matches Ok(t) && t.path@ == "/v1/chat/completions"@ && jv(
                t.body,
            ) == JsonV::Obj(openai_request(jv(body)->Obj_0, opt_str_view(model_map)))
                && t.extra_headers@.len() == 0),
            !(jv(body) is Obj) ==> r is Err,
    {
        match body {
            Json::Obj(mut o) => {
                let ghost o0 = ov(o@);
                match model_map {
                    Some(m) => obj_set(&mut o, "model", crate::json::jstr(m)),
                    None => {},
                }
                let ghost o1 = ov(o@);
                proof {
                    assert(o1 == with_model(o0, opt_str_view(model_map)));
                }
                match obj_take(&mut o, "system") {
                    Some(sys_val) => {
                        let ghost sysv = jv(sys_val);
                        let ghost os = ov(o@);
                        match obj_take(&mut o, "messages") {
                            Some(Json::Arr(mut msgs)) => {
                                let ghost msgs0 = av(msgs@);
                                let mut sm: Vec<(String, Json)> = Vec::new();
                                crate::json::obj_push(&mut sm, "role", crate::json::jstr("system"));
                                crate::json::obj_push(&mut sm, "content", sys_val);
                                proof {
                                    assert(ov(sm@) =~= sys_message(sysv)->Obj_0);
                                }
                                let ghost mseq = msgs@;
                                msgs.insert(0, Json::Obj(sm));
                                proof {
                                    mseq.insert_ensures(0, Json::Obj(sm));
                                    crate::json::lemma_av_index(msgs@);
                                    crate::json::lemma_av_index(mseq);
                                    assert(av(msgs@) =~= seq![sys_message(sysv)] + msgs0) by {
                                        assert(av(msgs@).len() == msgs@.len());
                                        assert(av(msgs@)[0] == jv(msgs@[0]));
                                        assert(msgs@[0] == Json::Obj(sm));
                                        assert forall|i: int|
                                            1 <= i < msgs@.len() implies av(msgs@)[i] == msgs0[i
                                            - 1] by {
                                            assert(msgs@[i] == mseq[i - 1]);
                                            assert(av(msgs@)[i] == jv(msgs@[i]));
                                            assert(av(mseq)[i - 1] == jv(mseq[i - 1]));
                                        }
                                    }
                                }
                                obj_set(&mut o, "messages", Json::Arr(msgs));
                                proof {
                                    crate::json::lemma_oremove_idem(os, "messages"@);
                                }
                            },
                            Some(other) => {
                                obj_set(&mut o, "messages", other);
                                proof {
                                    crate::json::lemma_oremove_idem(os, "messages"@);
                                }
                            },
                            None => {
                                proof {
                                    crate::json::lemma_oremove_absent(os, "messages"@);
                                }
                            },
                        }
                    },
                    None => {
                        proof {
                            crate::json::lemma_oremove_absent(o1, "system"@);
                        }
                    },
                }
                let ghost o2 = ov(o@);
                proof {
                    assert(o2 == with_system_moved(o1));
                }
                match obj_take(&mut o, "max_tokens") {
                    Some(v) => obj_set(&mut o, "max_completion_tokens", v),
                    None => {
                        proof {
                            crate::json::lemma_oremove_absent(o2, "max_tokens"@);
                        }
                    },
                }
                let ghost o3 = ov(o@);
                proof {
                    assert(o3 == with_renamed(o2, "max_tokens"@, "max_completion_tokens"@));
                }
                match obj_take(&mut o, "stop_sequences") {
                    Some(v) => obj_set(&mut o, "stop", v),
                    None => {
                        proof {
                            crate::json::lemma_oremove_absent(o3, "stop_sequences"@);
                        }
                    },
                }
                let ghost o4 = ov(o@);
                proof {
                    assert(o4 == with_renamed(o3, "stop_sequences"@, "stop"@));
                }
                obj_remove(&mut o, "top_k");
                obj_remove(&mut o, "metadata");
                obj_remove(&mut o, "anthropic_version");
                let _unused = is_stream;
                Ok(
                    TransformedRequest {
                        path: String::from_str("/v1/chat/completions"),
                        body: Json::Obj(o),
                        extra_headers: Vec::new(),
                    },
                )
            },
            _ => Err(TransformError(String::from_str("request body is not a JSON object"))),
        }
    }
}

/// `choices[0].delta.content` of a streamed chunk, when it is a string.
pub open spec fn openai_chunk_text(d: JsonV) -> Option<Seq<char>> {
    match choice0(d) {
        Some(c) => match jget(c, "delta"@) {
            Some(dl) => jget_str(dl, "content"@),
            None => None,
        },
        None => None,
    }
}

/// `choices[0].finish_reason` of a streamed chunk, when it is a string.
pub open spec fn openai_chunk_finish(d: JsonV) -> Option<Seq<char>> {
    match choice0(d) {
        Some(c) => jget_str(c, "finish_reason"@),
        None => None,
    }
}

/// What one parsed OpenAI chunk does: open the block the first time, emit a
/// text delta for non-empty content (counting one output token), and on a
/// finish reason close the block and report the stop reason, with the
/// counters overridden by a `usage` object when one is present.
pub open spec fn openai_chunk_step(
    d: JsonV,
    started: bool,
    block_index: u32,
    in_t: u64,
    out_t: u64,
) -> crate::transformer::StreamStepV {
    let opening = crate::transformer::start_evs(started, block_index);
    let has_text = match openai_chunk_text(d) {
        Some(t) => t.len() > 0,
        None => false,
    };
    let delta_evs: Seq<(EventKind, JsonV)> = if has_text {
        seq![(EventKind::ContentBlockDelta, delta_data(block_index, openai_chunk_text(d)->Some_0))]
    } else {
        Seq::empty()
    };
    let out1 = if has_text {
        crate::transformer::inc_sat(out_t)
    } else {
        out_t
    };
    match openai_chunk_finish(d) {
        Some(f) => {
            let in2 = if jget(d, "usage"@) is Some {
                jget_int_or(jget(d, "usage"@)->Some_0, "prompt_tokens"@, 0)
            } else {
                in_t
            };
            let out2 = if jget(d, "usage"@) is Some {
                jget_int_or(jget(d, "usage"@)->Some_0, "completion_tokens"@, 0)
            } else {
                out1
            };
            crate::transformer::StreamStepV {
                events: opening + delta_evs + seq![
                    (EventKind::ContentBlockStop, block_stop_data(block_index)),
                    (EventKind::MessageDelta, message_delta_data(openai_stop_reason(f), out2)),
                ],
                started: true,
                input_tokens: in2,
                output_tokens: out2,
            }
        },
        None => crate::transformer::StreamStepV {
            events: opening + delta_evs,
            started: true,
            input_tokens: in_t,
            output_tokens: out1,
        },
    }
}

/// The `[DONE]` sentinel that ends an OpenAI stream.
pub open spec fn done_marker() -> Seq<u8> {
    seq![91u8, 68u8, 79u8, 78u8, 69u8, 93u8]
}

fn is_done_marker(t: &[u8]) -> (r: bool)
    ensures
        r == (t@ == done_marker()),
{
    if t.len() != 6 {
        return false;
    }
    let ok = t[0] == 91 && t[1] == 68 && t[2] == 79 && t[3] == 78 && t[4] == 69 && t[5] == 93;
    proof {
        if ok {
            assert(t@ =~= done_marker());
        } else {
            if t@ == done_marker() {
                assert(t@[0] == 91 && t@[1] == 68 && t@[2] == 79 && t@[3] == 78 && t@[4] == 69
                    && t@[5] == 93);
            }
        }
    }
    ok
}

/// Map OpenAI's finish reason to Anthropic's stop reason.
fn map_stop_reason(f: &str) -> (r: &str)
    ensures
        r@ == openai_stop_reason(f@),
{
    if crate::strutil::str_eq(f, "stop") {
        "end_turn"
    } else if crate::strutil::str_eq(f, "length") {
        "max_tokens"
    } else {
        f
    }
}

fn response_text(body: &Json) -> (r: String)
    ensures
        r@ == openai_resp_text(jv(*body)),
{
    match body.get("choices") {
        Some(choices) => match arr_first(choices) {
            Some(c) => match c.get("message") {
                Some(m) => match m.get("content") {
                    Some(Json::Str(s)) => s.clone(),
                    _ => String::new(),
                },
                None => String::new(),
            },
            None => String::new(),
        },
        None => String::new(),
    }
}

fn response_finish(body: &Json) -> (r: String)
    ensures
        r@ == openai_resp_finish(jv(*body)),
{
    match body.get("choices") {
        Some(choices) => match arr_first(choices) {
            Some(c) => match c.get("finish_reason") {
                Some(Json::Str(s)) => s.clone(),
                _ => String::from_str("stop"),
            },
            None => String::from_str("stop"),
        },
        None => String::from_str("stop"),
    }
}

fn chunk_text(data: &Json) -> (r: Option<String>)
    ensures
        match r {
            Some(s) => openai_chunk_text(jv(*data)) == Some(s@),
            None => openai_chunk_text(jv(*data)) is None,
        },
{
    match data.get("choices") {
        Some(choices) => match arr_first(choices) {
            Some(c) => match c.get("delta") {
                Some(dl) => match dl.get("content") {
                    Some(Json::Str(s)) => Some(s.clone()),
                    _ => None,
                },
                None => None,
            },
            None => None,
        },
        None => None,
    }
}

fn chunk_finish(data: &Json) -> (r: Option<String>)
    ensures
        match r {
            Some(s) => openai_chunk_finish(jv(*data)) == Some(s@),
            None => openai_chunk_finish(jv(*data)) is None,
        },
{
    match data.get("choices") {
        Some(choices) => match arr_first(choices) {
            Some(c) => match c.get("finish_reason") {
                Some(Json::Str(s)) => Some(s.clone()),
                _ => None,
            },
            None => None,
        },
        None => None,
    }
}

impl OpenAITransformer {
    /// Rewrite a non-streaming OpenAI response as an Anthropic message
    /// carrying the given fresh identifier.
    pub fn transform_response_with_id(&self, body: &Json, model: &str, id: String) -> (r: Json)
        ensures
            jv(r) == openai_response(jv(*body), model@, id@),
    {
        let text = response_text(body);
        let finish = response_finish(body);
        let stop = map_stop_reason(finish.as_str());
        let in_t = match body.get("usage") {
            Some(u) => int_field_or(u, "prompt_tokens", 0),
            None => 0,
        };
        let out_t = match body.get("usage") {
            Some(u) => int_field_or(u, "completion_tokens", 0),
            None => 0,
        };
        build_anthropic_message(id, model, text, stop, in_t, out_t)
    }

    /// Rewrite a non-streaming OpenAI response as an Anthropic message with
    /// a freshly minted identifier. This never fails.
    pub fn transform_response(&self, body: &Json, model: &str) -> (r: Result<Json, TransformError>)
        ensures
            r is Ok,
            r matches Ok(j) ==> exists|id: Seq<char>|
                is_message_id(id) && jv(j) == openai_response(jv(*body), model@, id),
    {
        let id = new_message_id();
        let ghost idv = id@;
        let out = self.transform_response_with_id(body, model, id);
        proof {
            assert(is_message_id(idv) && jv(out) == openai_response(jv(*body), model@, idv));
        }
        Ok(out)
    }

    /// The events that open a stream: exactly one `message_start`.
    pub fn stream_start_sse(&self, ctx: &StreamContext) -> (r: Vec<SseEvent>)
        ensures
            ev(r@) == seq![
                (EventKind::MessageStart, message_start_data(ctx.message_id@, ctx.model@)),
            ],
    {
        let data = build_message_start(ctx.message_id.as_str(), ctx.model.as_str());
        let mut out: Vec<SseEvent> = Vec::new();
        ev_push(&mut out, EventKind::MessageStart, data);
        proof {
            assert(ev(out@) =~= seq![
                (EventKind::MessageStart, message_start_data(ctx.message_id@, ctx.model@)),
            ]);
        }
        out
    }

    /// The events that close a stream: exactly one `message_stop`.
    pub fn stream_end_sse(&self, ctx: &mut StreamContext) -> (r: Vec<SseEvent>)
        ensures
            ev(r@) == seq![(EventKind::MessageStop, message_stop_data())],
            *final(ctx) == *old(ctx),
    {
        let data = build_message_stop();
        let mut out: Vec<SseEvent> = Vec::new();
        ev_push(&mut out, EventKind::MessageStop, data);
        proof {
            assert(ev(out@) =~= seq![(EventKind::MessageStop, message_stop_data())]);
        }
        out
    }

    /// Rewrite one SSE payload. The `[DONE]` sentinel yields no events; a
    /// payload that is not JSON is an error and changes nothing; a parsed
    /// chunk behaves as `openai_chunk_step` says.
    pub fn transform_stream_chunk_sse(&self, chunk: &[u8], ctx: &mut StreamContext) -> (r: Result<
        Vec<SseEvent>,
        TransformError,
    >)
        ensures
            spec_trim_b(chunk@) == done_marker() ==> (r matches Ok(v) && v@.len() == 0
                && *final(ctx) == *old(ctx)),
            spec_trim_b(chunk@) != done_marker() && text_json(chunk@) is None ==> (r is Err
                && *final(ctx) == *old(ctx)),
            (spec_trim_b(chunk@) != done_marker() && text_json(chunk@) is Some) ==> (r
                matches Ok(evs) && {
                let j = text_json(chunk@)->Some_0;
                let st = openai_chunk_step(
                    jv(j),
                    old(ctx).started,
                    old(ctx).block_index,
                    old(ctx).input_tokens,
                    old(ctx).output_tokens,
                );
                &&& ev(evs@) == st.events
                &&& final(ctx).started == st.started
                &&& final(ctx).input_tokens == st.input_tokens
                &&& final(ctx).output_tokens == st.output_tokens
                &&& final(ctx).block_index == old(ctx).block_index
                &&& final(ctx).model == old(ctx).model
                &&& final(ctx).message_id == old(ctx).message_id
            }),
    {
        let trimmed = trim_slice(chunk);
        if is_done_marker(trimmed) {
            return Ok(Vec::new());
        }
        match parse_json(chunk) {
            None => Err(TransformError(String::from_str("stream chunk is not valid JSON"))),
            Some(data) => {
                let ghost dv = jv(data);
                let ghost st = openai_chunk_step(
                    dv,
                    ctx.started,
                    ctx.block_index,
                    ctx.input_tokens,
                    ctx.output_tokens,
                );
                let mut events: Vec<SseEvent> = Vec::new();
                if !ctx.started {
                    ctx.started = true;
                    let bs = build_block_start(ctx.block_index);
                    ev_push(&mut events, EventKind::ContentBlockStart, bs);
                }
                proof {
                    assert(ev(events@) =~= crate::transformer::start_evs(
                        old(ctx).started,
                        old(ctx).block_index,
                    ));
                }
                match chunk_text(&data) {
                    Some(t) => {
                        if !t.as_str().is_empty() {
                            ctx.output_tokens = if ctx.output_tokens == u64::MAX {
                                ctx.output_tokens
                            } else {
                                ctx.output_tokens + 1
                            };
                            let d = build_delta(ctx.block_index, t);
                            ev_push(&mut events, EventKind::ContentBlockDelta, d);
                        }
                    },
                    None => {},
                }
                match chunk_finish(&data) {
                    Some(f) => {
                        match data.get("usage") {
                            Some(u) => {
                                ctx.input_tokens = int_field_or(u, "prompt_tokens", 0);
                                ctx.output_tokens = int_field_or(u, "completion_tokens", 0);
                            },
                            None => {},
                        }
                        let bs = build_block_stop(ctx.block_index);
                        ev_push(&mut events, EventKind::ContentBlockStop, bs);
                        let stop = map_stop_reason(f.as_str());
                        let md = build_message_delta(stop, ctx.output_tokens);
                        ev_push(&mut events, EventKind::MessageDelta, md);
                    },
                    None => {},
                }
                proof {
                    assert(ev(events@) =~= st.events);
                }
                Ok(events)
            },
        }
    }
}

impl OpenAITransformer {
    /// The opening of a stream, rendered: one `message_start` record.
    pub fn stream_start_events(&self, ctx: &StreamContext) -> (r: Vec<String>)
        ensures
            r@.len() == 1,
            r@[0]@ == sse_text(
                EventKind::MessageStart,
                message_start_data(ctx.message_id@, ctx.model@),
            ),
    {
        let evs = self.stream_start_sse(ctx);
        let out = render_events(&evs);
        proof {
            lemma_ev_index(evs@);
        }
        out
    }

    /// The close of a stream, rendered: one `message_stop` record.
    pub fn stream_end_events(&self, ctx: &mut StreamContext) -> (r: Vec<String>)
        ensures
            r@.len() == 1,
            r@[0]@ == sse_text(EventKind::MessageStop, message_stop_data()),
            *final(ctx) == *old(ctx),
    {
        let evs = self.stream_end_sse(ctx);
        let out = render_events(&evs);
        proof {
            lemma_ev_index(evs@);
        }
        out
    }

    /// Rewrite one SSE payload into rendered Anthropic SSE records.
    pub fn transform_stream_chunk(&self, chunk: &[u8], ctx: &mut StreamContext) -> (r: Result<
        Vec<String>,
        TransformError,
    >)
        ensures
            spec_trim_b(chunk@) == done_marker() ==> (r matches Ok(v) && v@.len() == 0
                && *final(ctx) == *old(ctx)),
            spec_trim_b(chunk@) != done_marker() && text_json(chunk@) is None ==> (r is Err
                && *final(ctx) == *old(ctx)),
            (spec_trim_b(chunk@) != done_marker() && text_json(chunk@) is Some) ==> (r
                matches Ok(v) && {
                let j = text_json(chunk@)->Some_0;
                let st = openai_chunk_step(
                    jv(j),
                    old(ctx).started,
                    old(ctx).block_index,
                    old(ctx).input_tokens,
                    old(ctx).output_tokens,
                );
                &&& v@.len() == st.events.len()
                &&& forall|i: int|
                    0 <= i < v@.len() ==> (#[trigger] v@[i])@ == sse_text(
                        st.events[i].0,
                        st.events[i].1,
                    )
                &&& final(ctx).started == st.started
                &&& final(ctx).input_tokens == st.input_tokens
                &&& final(ctx).output_tokens == st.output_tokens
                &&& final(ctx).block_index == old(ctx).block_index
                &&& final(ctx).model == old(ctx).model
                &&& final(ctx).message_id == old(ctx).message_id
            }),
    {
        match self.transform_stream_chunk_sse(chunk, ctx) {
            Ok(evs) => {
                let out = render_events(&evs);
                proof {
                    lemma_ev_index(evs@);
                    if spec_trim_b(chunk@) != done_marker() && text_json(chunk@) is Some {
                        let j = text_json(chunk@)->Some_0;
                        let st = openai_chunk_step(
                            jv(j),
                            old(ctx).started,
                            old(ctx).block_index,
                            old(ctx).input_tokens,
                            old(ctx).output_tokens,
                        );
                        assert forall|i: int|
                            0 <= i < out@.len() implies (#[trigger] out@[i])@ == sse_text(
                            st.events[i].0,
                            st.events[i].1,
                        ) by {
                            assert(out@[i]@ == sse_text(evs@[i].kind, jv(evs@[i].data)));
                            assert(ev(evs@)[i] == (evs@[i].kind, jv(evs@[i].data)));
                        }
                    }
                }
                Ok(out)
            },
            Err(e) => Err(e),
        }
    }
}

/// Any rewritten non-streaming response is a syntactically valid Anthropic
/// message: a non-empty identifier, type `message`, role `assistant`,
/// exactly one text block, and the mapped stop reason.
pub proof fn lemma_openai_response_valid(body: JsonV, model: Seq<char>, id: Seq<char>)
    requires
        is_message_id(id),
    ensures
        crate::transformer::valid_anthropic_message(openai_response(body, model, id)),
        crate::json::jget_str(openai_response(body, model, id), "stop_reason"@) == Some(
            openai_stop_reason(openai_resp_finish(body)),
        ),
        crate::json::jget_str(openai_response(body, model, id), "id"@) == Some(id),
        crate::json::jget_str(openai_response(body, model, id), "model"@) == Some(model),
{
    reveal_strlit("msg_");
    assert("msg_"@.len() == 4);
    assert(id.subrange(0, 4).len() == 4);
    assert(id.len() > 0);
    crate::transformer::lemma_anthropic_message_valid(
        id,
        model,
        openai_resp_text(body),
        openai_stop_reason(openai_resp_finish(body)),
        openai_resp_input_tokens(body),
        openai_resp_output_tokens(body),
    );
}

} // verus!
