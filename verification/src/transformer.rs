//! What the protocol transformers share: the error and request types, the
//! streaming context, the Anthropic SSE event shapes and their rendering,
//! and the registry that picks a transformer by name.

use vstd::prelude::*;

use crate::json::{av, jv, ov, Json, JsonV};
use crate::jtext::jtext;
use crate::strutil::{append_str, chars_to_string, str_eq};

verus! {

/// Why a transformation failed.
#[derive(Debug)]
pub struct TransformError(pub String);

/// A rewritten upstream request: the path to call, the body to send, and
/// extra headers to add.
pub struct TransformedRequest {
    pub path: String,
    pub body: Json,
    pub extra_headers: Vec<(String, String)>,
}

/// Mutable state of one streaming response while its chunks go by.
pub struct StreamContext {
    pub model: String,
    pub message_id: String,
    pub input_tokens: u64,
    pub output_tokens: u64,
    pub block_index: u32,
    pub started: bool,
}

/// The kinds of events of the Anthropic streaming protocol.
#[derive(Debug, PartialEq, Eq, Clone, Copy)]
pub enum EventKind {
    MessageStart,
    ContentBlockStart,
    ContentBlockDelta,
    ContentBlockStop,
    MessageDelta,
    MessageStop,
}

/// One outgoing SSE event: its kind and its JSON payload.
pub struct SseEvent {
    pub kind: EventKind,
    pub data: Json,
}

/// The event name on the wire.
pub open spec fn kind_name(k: EventKind) -> Seq<char> {
    match k {
        EventKind::MessageStart => "message_start"@,
        EventKind::ContentBlockStart => "content_block_start"@,
        EventKind::ContentBlockDelta => "content_block_delta"@,
        EventKind::ContentBlockStop => "content_block_stop"@,
        EventKind::MessageDelta => "message_delta"@,
        EventKind::MessageStop => "message_stop"@,
    }
}

/// The wire text of one event: `event: <name>\ndata: <json>\n\n`.
pub open spec fn sse_text(k: EventKind, d: JsonV) -> Seq<char> {
    "event: "@ + kind_name(k) + "\ndata: "@ + jtext(d) + "\n\n"@
}

/// The view of an event list: kinds with payload views.
pub open spec fn ev(s: Seq<SseEvent>) -> Seq<(EventKind, JsonV)>
    decreases s,
{
    if s.len() == 0 {
        Seq::empty()
    } else {
        ev(s.drop_last()).push((s.last().kind, jv(s.last().data)))
    }
}

/// `ev` maps the view element-wise.
pub proof fn lemma_ev_index(s: Seq<SseEvent>)
    ensures
        ev(s).len() == s.len(),
        forall|i: int| 0 <= i < s.len() ==> ev(s)[i] == ((#[trigger] s[i]).kind, jv(s[i].data)),
    decreases s.len(),
{
    if s.len() > 0 {
        lemma_ev_index(s.drop_last());
        assert forall|i: int| 0 <= i < s.len() implies ev(s)[i] == ((#[trigger] s[i]).kind, jv(
            s[i].data,
        )) by {
            if i < s.len() - 1 {
                assert(s.drop_last()[i] == s[i]);
                assert(ev(s)[i] == ev(s.drop_last())[i]);
            } else {
                assert(s[i] == s.last());
            }
        }
    }
}

/// Append an event to a list under construction.
pub fn ev_push(s: &mut Vec<SseEvent>, kind: EventKind, data: Json)
    ensures
        ev(final(s)@) == ev(old(s)@).push((kind, jv(data))),
{
    let ghost mid = s@;
    s.push(SseEvent { kind, data });
    proof {
        assert(s@.drop_last() =~= mid);
    }
}

impl SseEvent {
    /// The wire text of this event.
    pub fn render(&self) -> (r: String)
        ensures
            r@ == sse_text(self.kind, jv(self.data)),
    {
        let mut out: Vec<char> = Vec::new();
        append_str(&mut out, "event: ");
        match self.kind {
            EventKind::MessageStart => append_str(&mut out, "message_start"),
            EventKind::ContentBlockStart => append_str(&mut out, "content_block_start"),
            EventKind::ContentBlockDelta => append_str(&mut out, "content_block_delta"),
            EventKind::ContentBlockStop => append_str(&mut out, "content_block_stop"),
            EventKind::MessageDelta => append_str(&mut out, "message_delta"),
            EventKind::MessageStop => append_str(&mut out, "message_stop"),
        }
        append_str(&mut out, "\ndata: ");
        crate::jtext::write_json(&self.data, &mut out);
        append_str(&mut out, "\n\n");
        chars_to_string(&out)
    }
}

/// The wire texts of a whole event list, in order.
pub fn render_events(events: &Vec<SseEvent>) -> (r: Vec<String>)
    ensures
        r@.len() == events@.len(),
        forall|i: int|
            0 <= i < events@.len() ==> r@[i]@ == sse_text(
                (#[trigger] events@[i]).kind,
                jv(events@[i].data),
            ),
{
    let n = events.len();
    let mut out: Vec<String> = Vec::new();
    let mut i: usize = 0;
    while i < n
        invariant
            n == events@.len(),
            i <= n,
            out@.len() == i,
            forall|j: int|
                0 <= j < i ==> out@[j]@ == sse_text(
                    (#[trigger] events@[j]).kind,
                    jv(events@[j].data),
                ),
        decreases n - i,
    {
        let s = events[i].render();
        out.push(s);
        i += 1;
    }
    out
}

/// A freshly minted message identifier: `msg_` plus 32 hexadecimal
/// characters.
pub open spec fn is_message_id(id: Seq<char>) -> bool {
    id.len() == 36 && id.subrange(0, 4) == "msg_"@
}

/// Relies on `uuid::Uuid::new_v4` and its `simple` formatting: 32
/// hexadecimal ASCII characters, here prefixed with `msg_`.
#[verifier::external_body]
pub fn new_message_id() -> (r: String)
    ensures
        r@.len() == 36,
        r@.subrange(0, 4) == "msg_"@,
{
    format!("msg_{}", uuid::Uuid::new_v4().simple())
}

/// A `{"type":"text","text":...}` content block.
pub open spec fn text_block(text: Seq<char>) -> JsonV {
    JsonV::Obj(seq![("type"@, JsonV::Str("text"@)), ("text"@, JsonV::Str(text))])
}

/// A `{"input_tokens":...,"output_tokens":...}` usage object.
pub open spec fn usage_obj(input_tokens: u64, output_tokens: u64) -> JsonV {
    JsonV::Obj(
        seq![
            ("input_tokens"@, JsonV::Int(input_tokens)),
            ("output_tokens"@, JsonV::Int(output_tokens)),
        ],
    )
}

/// A complete non-streaming Anthropic message with one text block.
pub open spec fn anthropic_message(
    id: Seq<char>,
    model: Seq<char>,
    text: Seq<char>,
    stop_reason: Seq<char>,
    input_tokens: u64,
    output_tokens: u64,
) -> JsonV {
    JsonV::Obj(
        seq![
            ("id"@, JsonV::Str(id)),
            ("type"@, JsonV::Str("message"@)),
            ("role"@, JsonV::Str("assistant"@)),
            ("model"@, JsonV::Str(model)),
            ("content"@, JsonV::Arr(seq![text_block(text)])),
            ("stop_reason"@, JsonV::Str(stop_reason)),
            ("stop_sequence"@, JsonV::Null),
            ("usage"@, usage_obj(input_tokens, output_tokens)),
        ],
    )
}

/// The payload of `message_start`: an empty assistant message envelope.
pub open spec fn message_start_data(id: Seq<char>, model: Seq<char>) -> JsonV {
    JsonV::Obj(
        seq![
            ("type"@, JsonV::Str("message_start"@)),
            (
                "message"@,
                JsonV::Obj(
                    seq![
                        ("id"@, JsonV::Str(id)),
                        ("type"@, JsonV::Str("message"@)),
                        ("role"@, JsonV::Str("assistant"@)),
                        ("model"@, JsonV::Str(model)),
                        ("content"@, JsonV::Arr(Seq::empty())),
                        ("stop_reason"@, JsonV::Null),
                        ("stop_sequence"@, JsonV::Null),
                        ("usage"@, usage_obj(0, 0)),
                    ],
                ),
            ),
        ],
    )
}

/// The payload of `content_block_start` for an empty text block.
pub open spec fn block_start_data(index: u32) -> JsonV {
    JsonV::Obj(
        seq![
            ("type"@, JsonV::Str("content_block_start"@)),
            ("index"@, JsonV::Int(index as u64)),
            ("content_block"@, text_block(""@)),
        ],
    )
}

/// The payload of `content_block_delta` carrying `text`.
pub open spec fn delta_data(index: u32, text: Seq<char>) -> JsonV {
    JsonV::Obj(
        seq![
            ("type"@, JsonV::Str("content_block_delta"@)),
            ("index"@, JsonV::Int(index as u64)),
            (
                "delta"@,
                JsonV::Obj(
                    seq![("type"@, JsonV::Str("text_delta"@)), ("text"@, JsonV::Str(text))],
                ),
            ),
        ],
    )
}

/// The payload of `content_block_stop`.
pub open spec fn block_stop_data(index: u32) -> JsonV {
    JsonV::Obj(
        seq![
            ("type"@, JsonV::Str("content_block_stop"@)),
            ("index"@, JsonV::Int(index as u64)),
        ],
    )
}

/// The payload of `message_delta`: the stop reason and the output tokens.
pub open spec fn message_delta_data(stop_reason: Seq<char>, output_tokens: u64) -> JsonV {
    JsonV::Obj(
        seq![
            ("type"@, JsonV::Str("message_delta"@)),
            (
                "delta"@,
                JsonV::Obj(
                    seq![("stop_reason"@, JsonV::Str(stop_reason)), ("stop_sequence"@, JsonV::Null)],
                ),
            ),
            ("usage"@, JsonV::Obj(seq![("output_tokens"@, JsonV::Int(output_tokens))])),
        ],
    )
}

/// The payload of `message_stop`.
pub open spec fn message_stop_data() -> JsonV {
    JsonV::Obj(seq![("type"@, JsonV::Str("message_stop"@))])
}

/// Build a `{"type":"text","text":...}` block.
pub fn build_text_block(text: String) -> (r: Json)
    ensures
        jv(r) == text_block(text@),
{
    let mut o: Vec<(String, Json)> = Vec::new();
    crate::json::obj_push(&mut o, "type", crate::json::jstr("text"));
    crate::json::obj_push(&mut o, "text", Json::Str(text));
    proof {
        assert(ov(o@) =~= text_block(text@)->Obj_0);
    }
    Json::Obj(o)
}

/// Build a usage object.
pub fn build_usage(input_tokens: u64, output_tokens: u64) -> (r: Json)
    ensures
        jv(r) == usage_obj(input_tokens, output_tokens),
{
    let mut o: Vec<(String, Json)> = Vec::new();
    crate::json::obj_push(&mut o, "input_tokens", Json::Int(input_tokens));
    crate::json::obj_push(&mut o, "output_tokens", Json::Int(output_tokens));
    proof {
        assert(ov(o@) =~~= usage_obj(input_tokens, output_tokens)->Obj_0);
    }
    Json::Obj(o)
}

/// Build a complete non-streaming Anthropic message.
pub fn build_anthropic_message(
    id: String,
    model: &str,
    text: String,
    stop_reason: &str,
    input_tokens: u64,
    output_tokens: u64,
) -> (r: Json)
    ensures
        jv(r) == anthropic_message(id@, model@, text@, stop_reason@, input_tokens, output_tokens),
{
    let ghost idv = id@;
    let ghost textv = text@;
    let block = build_text_block(text);
    let mut content: Vec<Json> = Vec::new();
    crate::json::arr_push(&mut content, block);
    proof {
        assert(av(content@) =~= seq![text_block(textv)]);
    }
    let usage = build_usage(input_tokens, output_tokens);
    let mut o: Vec<(String, Json)> = Vec::new();
    crate::json::obj_push(&mut o, "id", Json::Str(id));
    crate::json::obj_push(&mut o, "type", crate::json::jstr("message"));
    crate::json::obj_push(&mut o, "role", crate::json::jstr("assistant"));
    crate::json::obj_push(&mut o, "model", crate::json::jstr(model));
    crate::json::obj_push(&mut o, "content", Json::Arr(content));
    crate::json::obj_push(&mut o, "stop_reason", crate::json::jstr(stop_reason));
    crate::json::obj_push(&mut o, "stop_sequence", Json::Null);
    crate::json::obj_push(&mut o, "usage", usage);
    proof {
        assert(ov(o@) =~~= anthropic_message(
            idv,
            model@,
            textv,
            stop_reason@,
            input_tokens,
            output_tokens,
        )->Obj_0);
    }
    Json::Obj(o)
}

/// Build the `message_start` payload for a context.
pub fn build_message_start(id: &str, model: &str) -> (r: Json)
    ensures
        jv(r) == message_start_data(id@, model@),
{
    let usage = build_usage(0, 0);
    let mut m: Vec<(String, Json)> = Vec::new();
    crate::json::obj_push(&mut m, "id", crate::json::jstr(id));
    crate::json::obj_push(&mut m, "type", crate::json::jstr("message"));
    crate::json::obj_push(&mut m, "role", crate::json::jstr("assistant"));
    crate::json::obj_push(&mut m, "model", crate::json::jstr(model));
    crate::json::obj_push(&mut m, "content", Json::Arr(Vec::new()));
    crate::json::obj_push(&mut m, "stop_reason", Json::Null);
    crate::json::obj_push(&mut m, "stop_sequence", Json::Null);
    crate::json::obj_push(&mut m, "usage", usage);
    proof {
        assert(av(Seq::<Json>::empty()) =~= Seq::<JsonV>::empty());
        assert(ov(m@) =~= seq![
            ("id"@, JsonV::Str(id@)),
            ("type"@, JsonV::Str("message"@)),
            ("role"@, JsonV::Str("assistant"@)),
            ("model"@, JsonV::Str(model@)),
            ("content"@, JsonV::Arr(Seq::<JsonV>::empty())),
            ("stop_reason"@, JsonV::Null),
            ("stop_sequence"@, JsonV::Null),
            ("usage"@, usage_obj(0, 0)),
        ]);
    }
    let mut o: Vec<(String, Json)> = Vec::new();
    crate::json::obj_push(&mut o, "type", crate::json::jstr("message_start"));
    crate::json::obj_push(&mut o, "message", Json::Obj(m));
    proof {
        assert(ov(o@) =~= message_start_data(id@, model@)->Obj_0);
    }
    Json::Obj(o)
}

/// Build the `content_block_start` payload.
pub fn build_block_start(index: u32) -> (r: Json)
    ensures
        jv(r) == block_start_data(index),
{
    let block = build_text_block(String::new());
    proof {
        reveal_strlit("");
        assert(Seq::<char>::empty() =~= ""@);
        assert(jv(block) == text_block(""@));
    }
    let mut o: Vec<(String, Json)> = Vec::new();
    crate::json::obj_push(&mut o, "type", crate::json::jstr("content_block_start"));
    crate::json::obj_push(&mut o, "index", Json::Int(index as u64));
    crate::json::obj_push(&mut o, "content_block", block);
    proof {
        assert(ov(o@) =~= block_start_data(index)->Obj_0);
    }
    Json::Obj(o)
}

/// Build the `content_block_delta` payload.
pub fn build_delta(index: u32, text: String) -> (r: Json)
    ensures
        jv(r) == delta_data(index, text@),
{
    let ghost textv = text@;
    let mut d: Vec<(String, Json)> = Vec::new();
    crate::json::obj_push(&mut d, "type", crate::json::jstr("text_delta"));
    crate::json::obj_push(&mut d, "text", Json::Str(text));
    proof {
        assert(ov(d@) =~= seq![("type"@, JsonV::Str("text_delta"@)), ("text"@, JsonV::Str(textv))]);
    }
    let mut o: Vec<(String, Json)> = Vec::new();
    crate::json::obj_push(&mut o, "type", crate::json::jstr("content_block_delta"));
    crate::json::obj_push(&mut o, "index", Json::Int(index as u64));
    crate::json::obj_push(&mut o, "delta", Json::Obj(d));
    proof {
        assert(ov(o@) =~= delta_data(index, textv)->Obj_0);
    }
    Json::Obj(o)
}

/// Build the `content_block_stop` payload.
pub fn build_block_stop(index: u32) -> (r: Json)
    ensures
        jv(r) == block_stop_data(index),
{
    let mut o: Vec<(String, Json)> = Vec::new();
    crate::json::obj_push(&mut o, "type", crate::json::jstr("content_block_stop"));
    crate::json::obj_push(&mut o, "index", Json::Int(index as u64));
    proof {
        assert(ov(o@) =~= block_stop_data(index)->Obj_0);
    }
    Json::Obj(o)
}

/// Build the `message_delta` payload.
pub fn build_message_delta(stop_reason: &str, output_tokens: u64) -> (r: Json)
    ensures
        jv(r) == message_delta_data(stop_reason@, output_tokens),
{
    let mut d: Vec<(String, Json)> = Vec::new();
    crate::json::obj_push(&mut d, "stop_reason", crate::json::jstr(stop_reason));
    crate::json::obj_push(&mut d, "stop_sequence", Json::Null);
    let mut u: Vec<(String, Json)> = Vec::new();
    crate::json::obj_push(&mut u, "output_tokens", Json::Int(output_tokens));
    proof {
        assert(ov(d@) =~= seq![
            ("stop_reason"@, JsonV::Str(stop_reason@)),
            ("stop_sequence"@, JsonV::Null),
        ]);
        assert(ov(u@) =~= seq![("output_tokens"@, JsonV::Int(output_tokens))]);
    }
    let mut o: Vec<(String, Json)> = Vec::new();
    crate::json::obj_push(&mut o, "type", crate::json::jstr("message_delta"));
    crate::json::obj_push(&mut o, "delta", Json::Obj(d));
    crate::json::obj_push(&mut o, "usage", Json::Obj(u));
    proof {
        assert(ov(o@) =~= message_delta_data(stop_reason@, output_tokens)->Obj_0);
    }
    Json::Obj(o)
}

/// Build the `message_stop` payload.
pub fn build_message_stop() -> (r: Json)
    ensures
        jv(r) == message_stop_data(),
{
    let mut o: Vec<(String, Json)> = Vec::new();
    crate::json::obj_push(&mut o, "type", crate::json::jstr("message_stop"));
    proof {
        assert(ov(o@) =~~= message_stop_data()->Obj_0);
    }
    Json::Obj(o)
}

/// The protocol conversions this proxy knows.
#[derive(Debug, PartialEq, Eq, Clone, Copy)]
pub enum TransformerKind {
    OpenAI,
    Gemini,
}

/// The transformer registered under `name`: `openai`, `gemini`, or none.
pub fn create_transformer(name: &str) -> (r: Option<TransformerKind>)
    ensures
        name@ == "openai"@ ==> r == Some(TransformerKind::OpenAI),
        name@ == "gemini"@ ==> r == Some(TransformerKind::Gemini),
        name@ != "openai"@ && name@ != "gemini"@ ==> r is None,
{
    proof {
        reveal_strlit("openai");
        reveal_strlit("gemini");
        assert("openai"@[0] == 'o');
        assert("gemini"@[0] == 'g');
    }
    if str_eq(name, "openai") {
        Some(TransformerKind::OpenAI)
    } else if str_eq(name, "gemini") {
        Some(TransformerKind::Gemini)
    } else {
        None
    }
}

/// What one streaming chunk does: the events it emits and the context
/// flags and counters afterwards.
pub struct StreamStepV {
    pub events: Seq<(EventKind, JsonV)>,
    pub started: bool,
    pub input_tokens: u64,
    pub output_tokens: u64,
}

/// The opening events of a chunk: a `content_block_start` the first time.
pub open spec fn start_evs(started: bool, block_index: u32) -> Seq<(EventKind, JsonV)> {
    if !started {
        seq![(EventKind::ContentBlockStart, block_start_data(block_index))]
    } else {
        Seq::empty()
    }
}

/// One more, stopping at the maximum.
pub open spec fn inc_sat(n: u64) -> u64 {
    if n == u64::MAX {
        n
    } else {
        (n + 1) as u64
    }
}

/// A syntactically valid Anthropic message: a non-empty identifier, type
/// `message`, role `assistant`, exactly one text content block, and a stop
/// reason.
pub open spec fn valid_anthropic_message(v: JsonV) -> bool {
    &&& match crate::json::jget_str(v, "id"@) {
        Some(id) => id.len() > 0,
        None => false,
    }
    &&& crate::json::jget_str(v, "type"@) == Some("message"@)
    &&& crate::json::jget_str(v, "role"@) == Some("assistant"@)
    &&& match crate::json::jget(v, "content"@) {
        Some(JsonV::Arr(blocks)) => blocks.len() == 1 && crate::json::jget_str(blocks[0], "type"@)
            == Some("text"@) && crate::json::jget_str(blocks[0], "text"@) is Some,
        _ => false,
    }
    &&& crate::json::jget_str(v, "stop_reason"@) is Some
}

/// The message envelope shared by both transformers is well-formed for any
/// extracted text, stop reason and token counts, and its fields read back
/// exactly as written.
pub proof fn lemma_anthropic_message_valid(
    id: Seq<char>,
    model: Seq<char>,
    text: Seq<char>,
    stop_reason: Seq<char>,
    input_tokens: u64,
    output_tokens: u64,
)
    requires
        id.len() > 0,
    ensures
        valid_anthropic_message(
            anthropic_message(id, model, text, stop_reason, input_tokens, output_tokens),
        ),
        crate::json::jget_str(
            anthropic_message(id, model, text, stop_reason, input_tokens, output_tokens),
            "stop_reason"@,
        ) == Some(stop_reason),
        crate::json::jget_str(
            anthropic_message(id, model, text, stop_reason, input_tokens, output_tokens),
            "id"@,
        ) == Some(id),
        crate::json::jget_str(
            anthropic_message(id, model, text, stop_reason, input_tokens, output_tokens),
            "model"@,
        ) == Some(model),
        crate::json::jget(
            anthropic_message(id, model, text, stop_reason, input_tokens, output_tokens),
            "usage"@,
        ) == Some(usage_obj(input_tokens, output_tokens)),
{
    reveal_strlit("id");
    reveal_strlit("type");
    reveal_strlit("role");
    reveal_strlit("model");
    reveal_strlit("content");
    reveal_strlit("stop_reason");
    reveal_strlit("stop_sequence");
    reveal_strlit("usage");
    reveal_strlit("text");
    assert("id"@.len() == 2);
    assert("type"@.len() == 4);
    assert("role"@.len() == 4);
    assert("model"@.len() == 5);
    assert("content"@.len() == 7);
    assert("stop_reason"@.len() == 11);
    assert("stop_sequence"@.len() == 13);
    assert("usage"@.len() == 5);
    assert("text"@.len() == 4);
    assert("type"@[0] == 't' && "role"@[0] == 'r' && "text"@[0] == 't');
    assert("type"@[1] == 'y' && "text"@[1] == 'e');
    assert("model"@[0] == 'm' && "usage"@[0] == 'u');
    let m = anthropic_message(id, model, text, stop_reason, input_tokens, output_tokens);
    let s = m->Obj_0;
    let s1 = s.drop_first();
    let s2 = s1.drop_first();
    let s3 = s2.drop_first();
    let s4 = s3.drop_first();
    let s5 = s4.drop_first();
    let s6 = s5.drop_first();
    let s7 = s6.drop_first();
    assert(s1 =~= seq![
        ("type"@, JsonV::Str("message"@)),
        ("role"@, JsonV::Str("assistant"@)),
        ("model"@, JsonV::Str(model)),
        ("content"@, JsonV::Arr(seq![text_block(text)])),
        ("stop_reason"@, JsonV::Str(stop_reason)),
        ("stop_sequence"@, JsonV::Null),
        ("usage"@, usage_obj(input_tokens, output_tokens)),
    ]);
    assert(s2 =~= s1.drop_first());
    assert(s3 =~= s2.drop_first());
    assert(s4 =~= s3.drop_first());
    assert(s5 =~= s4.drop_first());
    assert(s6 =~= s5.drop_first());
    assert(s7 =~= s6.drop_first());
    assert(crate::json::olookup(s, "id"@) == Some(JsonV::Str(id)));
    assert(crate::json::olookup(s, "type"@) == crate::json::olookup(s1, "type"@));
    assert(crate::json::olookup(s1, "type"@) == Some(JsonV::Str("message"@)));
    assert(crate::json::olookup(s, "role"@) == crate::json::olookup(s1, "role"@));
    assert(crate::json::olookup(s1, "role"@) == crate::json::olookup(s2, "role"@));
    assert(crate::json::olookup(s2, "role"@) == Some(JsonV::Str("assistant"@)));
    assert(crate::json::olookup(s, "model"@) == crate::json::olookup(s1, "model"@));
    assert(crate::json::olookup(s1, "model"@) == crate::json::olookup(s2, "model"@));
    assert(crate::json::olookup(s2, "model"@) == crate::json::olookup(s3, "model"@));
    assert(crate::json::olookup(s3, "model"@) == Some(JsonV::Str(model)));
    assert(crate::json::olookup(s, "content"@) == crate::json::olookup(s1, "content"@));
    assert(crate::json::olookup(s1, "content"@) == crate::json::olookup(s2, "content"@));
    assert(crate::json::olookup(s2, "content"@) == crate::json::olookup(s3, "content"@));
    assert(crate::json::olookup(s3, "content"@) == crate::json::olookup(s4, "content"@));
    assert(crate::json::olookup(s4, "content"@) == Some(JsonV::Arr(seq![text_block(text)])));
    assert(crate::json::olookup(s, "stop_reason"@) == crate::json::olookup(s1, "stop_reason"@));
    assert(crate::json::olookup(s1, "stop_reason"@) == crate::json::olookup(s2, "stop_reason"@));
    assert(crate::json::olookup(s2, "stop_reason"@) == crate::json::olookup(s3, "stop_reason"@));
    assert(crate::json::olookup(s3, "stop_reason"@) == crate::json::olookup(s4, "stop_reason"@));
    assert(crate::json::olookup(s4, "stop_reason"@) == crate::json::olookup(s5, "stop_reason"@));
    assert(crate::json::olookup(s5, "stop_reason"@) == Some(JsonV::Str(stop_reason)));
    assert(crate::json::olookup(s, "usage"@) == crate::json::olookup(s1, "usage"@));
    assert(crate::json::olookup(s1, "usage"@) == crate::json::olookup(s2, "usage"@));
    assert(crate::json::olookup(s2, "usage"@) == crate::json::olookup(s3, "usage"@));
    assert(crate::json::olookup(s3, "usage"@) == crate::json::olookup(s4, "usage"@));
    assert(crate::json::olookup(s4, "usage"@) == crate::json::olookup(s5, "usage"@));
    assert(crate::json::olookup(s5, "usage"@) == crate::json::olookup(s6, "usage"@));
    assert(crate::json::olookup(s6, "usage"@) == crate::json::olookup(s7, "usage"@));
    assert(crate::json::olookup(s7, "usage"@) == Some(usage_obj(input_tokens, output_tokens)));
    let b = text_block(text)->Obj_0;
    assert(crate::json::olookup(b, "type"@) == Some(JsonV::Str("text"@)));
    assert(b.drop_first() =~= seq![("text"@, JsonV::Str(text))]);
    assert(crate::json::olookup(b, "text"@) == crate::json::olookup(b.drop_first(), "text"@));
    assert(crate::json::olookup(b.drop_first(), "text"@) == Some(JsonV::Str(text)));
}

} // verus!
