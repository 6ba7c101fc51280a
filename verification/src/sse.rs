//! Line-oriented SSE reassembly and rewriting: upstream body bytes arrive
//! in arbitrary frames; complete `data:` lines are carved out, their
//! payloads fed to the chosen transformer, and the produced Anthropic SSE
//! records handed back, with any partial line kept for the next frame.

use vstd::prelude::*;

use crate::gemini::{gem_chunk_step, GeminiTransformer};
use crate::jparse::text_json;
use crate::json::{jv, JsonV};
use crate::openai::{done_marker, openai_chunk_step, OpenAITransformer};
use crate::strutil::{spec_trim_b, trim_slice};
use crate::transformer::{
    ev, message_start_data, message_stop_data, render_events, sse_text, EventKind, SseEvent,
    StreamContext, StreamStepV, TransformerKind,
};

verus! {

use vstd::slice::slice_to_vec;

/// The first newline in a byte sequence.
pub open spec fn find_nl(s: Seq<u8>) -> Option<int>
    decreases s.len(),
{
    if s.len() == 0 {
        None
    } else if s[0] == 10 {
        Some(0)
    } else {
        match find_nl(s.drop_first()) {
            Some(i) => Some(i + 1),
            None => None,
        }
    }
}

/// What `find_nl` finds is the first newline.
pub proof fn lemma_find_nl(s: Seq<u8>)
    ensures
        match find_nl(s) {
            Some(i) => 0 <= i < s.len() && s[i] == 10 && forall|j: int| 0 <= j < i ==> s[j] != 10,
            None => forall|j: int| 0 <= j < s.len() ==> s[j] != 10,
        },
    decreases s.len(),
{
    if s.len() > 0 && s[0] != 10 {
        lemma_find_nl(s.drop_first());
        assert forall|j: int| 0 <= j < s.len() implies (j == 0 || s.drop_first()[j - 1] == s[j])
            by {}
    }
}

/// The `data:` prefix of an SSE data line.
pub open spec fn data_prefix() -> Seq<u8> {
    seq![100u8, 97u8, 116u8, 97u8, 58u8]
}

/// The payload carried by one complete line: trim the line, strip the
/// `data:` prefix, trim again; empty payloads and other lines carry none.
pub open spec fn line_payload(line: Seq<u8>) -> Option<Seq<u8>> {
    let t = spec_trim_b(line);
    if t.len() >= 5 && t.subrange(0, 5) == data_prefix() {
        let p = spec_trim_b(t.skip(5));
        if p.len() > 0 {
            Some(p)
        } else {
            None
        }
    } else {
        None
    }
}

/// All payloads of the complete lines of a buffer, and the partial line
/// left over.
pub open spec fn split_payloads(s: Seq<u8>) -> (Seq<Seq<u8>>, Seq<u8>)
    decreases s.len(),
    via split_payloads_dec
{
    match find_nl(s) {
        Some(i) => {
            let line = s.take(i + 1);
            let rest = split_payloads(s.skip(i + 1));
            match line_payload(line) {
                Some(p) => (seq![p] + rest.0, rest.1),
                None => rest,
            }
        },
        None => (Seq::empty(), s),
    }
}

#[via_fn]
proof fn split_payloads_dec(s: Seq<u8>) {
    lemma_find_nl(s);
}

/// What one payload does under a given transformer: OpenAI's `[DONE]`
/// sentinel and any unparseable payload are skipped with nothing changed;
/// a parsed chunk behaves as that transformer's chunk step.
pub open spec fn chunk_step_of(
    k: TransformerKind,
    payload: Seq<u8>,
    started: bool,
    block_index: u32,
    in_t: u64,
    out_t: u64,
) -> StreamStepV {
    let skip = StreamStepV {
        events: Seq::empty(),
        started: started,
        input_tokens: in_t,
        output_tokens: out_t,
    };
    match k {
        TransformerKind::OpenAI => {
            if spec_trim_b(payload) == done_marker() {
                skip
            } else {
                match text_json(payload) {
                    Some(j) => openai_chunk_step(jv(j), started, block_index, in_t, out_t),
                    None => skip,
                }
            }
        },
        TransformerKind::Gemini => {
            match text_json(payload) {
                Some(j) => gem_chunk_step(jv(j), started, block_index, in_t, out_t),
                None => skip,
            }
        },
    }
}

/// What a run of payloads does: each step feeds the next one's context.
pub open spec fn drain_steps(
    k: TransformerKind,
    payloads: Seq<Seq<u8>>,
    started: bool,
    block_index: u32,
    in_t: u64,
    out_t: u64,
) -> StreamStepV
    decreases payloads.len(),
{
    if payloads.len() == 0 {
        StreamStepV { events: Seq::empty(), started, input_tokens: in_t, output_tokens: out_t }
    } else {
        let first = chunk_step_of(k, payloads[0], started, block_index, in_t, out_t);
        let rest = drain_steps(
            k,
            payloads.drop_first(),
            first.started,
            block_index,
            first.input_tokens,
            first.output_tokens,
        );
        StreamStepV {
            events: first.events + rest.events,
            started: rest.started,
            input_tokens: rest.input_tokens,
            output_tokens: rest.output_tokens,
        }
    }
}

/// Appending one payload extends a run by one step at its end.
pub proof fn lemma_drain_snoc(
    k: TransformerKind,
    payloads: Seq<Seq<u8>>,
    p: Seq<u8>,
    started: bool,
    block_index: u32,
    in_t: u64,
    out_t: u64,
)
    ensures
        ({
            let pre = drain_steps(k, payloads, started, block_index, in_t, out_t);
            let last = chunk_step_of(
                k,
                p,
                pre.started,
                block_index,
                pre.input_tokens,
                pre.output_tokens,
            );
            drain_steps(k, payloads.push(p), started, block_index, in_t, out_t) == StreamStepV {
                events: pre.events + last.events,
                started: last.started,
                input_tokens: last.input_tokens,
                output_tokens: last.output_tokens,
            }
        }),
    decreases payloads.len(),
{
    if payloads.len() == 0 {
        assert(payloads.push(p)[0] == p);
        assert(payloads.push(p).drop_first() =~= Seq::<Seq<u8>>::empty());
        let first = chunk_step_of(k, p, started, block_index, in_t, out_t);
        assert(drain_steps(
            k,
            Seq::<Seq<u8>>::empty(),
            first.started,
            block_index,
            first.input_tokens,
            first.output_tokens,
        ).events =~= Seq::<(EventKind, JsonV)>::empty());
        assert(first.events + Seq::<(EventKind, JsonV)>::empty() =~= first.events);
        assert(Seq::<(EventKind, JsonV)>::empty() + first.events =~= first.events);
    } else {
        assert(payloads.push(p)[0] == payloads[0]);
        assert(payloads.push(p).drop_first() =~= payloads.drop_first().push(p));
        let first = chunk_step_of(k, payloads[0], started, block_index, in_t, out_t);
        lemma_drain_snoc(
            k,
            payloads.drop_first(),
            p,
            first.started,
            block_index,
            first.input_tokens,
            first.output_tokens,
        );
        let pre1 = drain_steps(
            k,
            payloads.drop_first(),
            first.started,
            block_index,
            first.input_tokens,
            first.output_tokens,
        );
        let last = chunk_step_of(
            k,
            p,
            pre1.started,
            block_index,
            pre1.input_tokens,
            pre1.output_tokens,
        );
        assert(first.events + (pre1.events + last.events) =~= (first.events + pre1.events)
            + last.events);
    }
}

/// The view of a payload list.
pub open spec fn pv(s: Seq<Vec<u8>>) -> Seq<Seq<u8>>
    decreases s,
{
    if s.len() == 0 {
        Seq::empty()
    } else {
        pv(s.drop_last()).push(s.last()@)
    }
}

/// Append every byte of `frame` to `buf`.
fn extend_bytes(buf: &mut Vec<u8>, frame: &[u8])
    ensures
        final(buf)@ == old(buf)@ + frame@,
{
    let n = frame.len();
    let mut i: usize = 0;
    while i < n
        invariant
            n == frame@.len(),
            i <= n,
            buf@ == old(buf)@ + frame@.take(i as int),
        decreases n - i,
    {
        buf.push(frame[i]);
        i += 1;
        proof {
            assert(frame@.take(i as int) =~= frame@.take(i - 1).push(frame@[i - 1]));
        }
    }
    proof {
        assert(frame@.take(n as int) =~= frame@);
    }
}

/// Find the first newline byte in a vector.
fn find_newline(buf: &Vec<u8>) -> (r: Option<usize>)
    ensures
        match r {
            Some(i) => find_nl(buf@) == Some(i as int),
            None => find_nl(buf@) is None,
        },
{
    let n = buf.len();
    let mut i: usize = 0;
    while i < n
        invariant
            n == buf@.len(),
            i <= n,
            forall|j: int| 0 <= j < i ==> buf@[j] != 10,
        decreases n - i,
    {
        if buf[i] == 10 {
            proof {
                lemma_find_nl(buf@);
                match find_nl(buf@) {
                    Some(t) => {
                        if t < i as int {
                            assert(buf@[t] != 10);
                        }
                        if t > i as int {
                            assert(buf@[i as int] != 10);
                        }
                    },
                    None => {
                        assert(buf@[i as int] != 10);
                    },
                }
            }
            return Some(i);
        }
        i += 1;
    }
    proof {
        lemma_find_nl(buf@);
        match find_nl(buf@) {
            Some(t) => {
                assert(buf@[t] != 10);
            },
            None => {},
        }
    }
    None
}

/// The payload of one complete line, if it is a non-empty `data:` line.
fn payload_of_line(line: &[u8]) -> (r: Option<Vec<u8>>)
    ensures
        match r {
            Some(p) => line_payload(line@) == Some(p@),
            None => line_payload(line@) is None,
        },
{
    let t = trim_slice(line);
    if t.len() < 5 {
        return None;
    }
    if !(t[0] == 100 && t[1] == 97 && t[2] == 116 && t[3] == 97 && t[4] == 58) {
        proof {
            if t@.subrange(0, 5) == data_prefix() {
                assert(t@.subrange(0, 5)[0] == t@[0] && t@.subrange(0, 5)[1] == t@[1]
                    && t@.subrange(0, 5)[2] == t@[2] && t@.subrange(0, 5)[3] == t@[3]
                    && t@.subrange(0, 5)[4] == t@[4]);
            }
        }
        return None;
    }
    proof {
        assert(t@.subrange(0, 5) =~= data_prefix());
    }
    let rest = &t[5..t.len()];
    proof {
        assert(rest@ =~= t@.skip(5));
    }
    let p = trim_slice(rest);
    if p.len() == 0 {
        return None;
    }
    Some(slice_to_vec(p))
}

/// Carve every complete line out of `buf`, keeping the partial tail, and
/// hand back the payloads in order.
pub fn drain_payloads(buf: &mut Vec<u8>) -> (r: Vec<Vec<u8>>)
    ensures
        (pv(r@), final(buf)@) == split_payloads(old(buf)@),
{
    let mut out: Vec<Vec<u8>> = Vec::new();
    loop
        invariant_except_break
            split_payloads(old(buf)@) == (pv(out@) + split_payloads(buf@).0, split_payloads(
                buf@,
            ).1),
        ensures
            split_payloads(old(buf)@) == (pv(out@), buf@),
        decreases buf@.len(),
    {
        proof {
            lemma_find_nl(buf@);
        }
        let nl = find_newline(buf);
        match nl {
            Some(i) => {
                let blen = buf.len();
                proof {
                    lemma_find_nl(buf@);
                    assert((i as int) < buf@.len());
                }
                let line: Vec<u8> = slice_to_vec(&buf.as_slice()[0..i + 1]);
                let tail: Vec<u8> = slice_to_vec(&buf.as_slice()[i + 1..blen]);
                let ghost pre = buf@;
                *buf = tail;
                proof {
                    assert(line@ =~= pre.take(i + 1));
                    assert(buf@ =~= pre.skip(i + 1));
                }
                let p = payload_of_line(line.as_slice());
                match p {
                    Some(payload) => {
                        let ghost preout = out@;
                        out.push(payload);
                        proof {
                            assert(out@.drop_last() =~= preout);
                            assert(pv(out@) == pv(preout).push(payload@));
                            assert(pv(preout).push(payload@) + split_payloads(buf@).0 =~= pv(
                                preout,
                            ) + (seq![payload@] + split_payloads(buf@).0));
                        }
                    },
                    None => {},
                }
            },
            None => {
                proof {
                    assert(pv(out@) + Seq::<Seq<u8>>::empty() =~= pv(out@));
                }
                break ;
            },
        }
    }
    out
}

/// One in-flight streaming response being rewritten: the chosen protocol,
/// the per-stream context, and the partial-line buffer.
pub struct SseRewriter {
    pub kind: TransformerKind,
    pub ctx: StreamContext,
    pub buf: Vec<u8>,
}

impl SseRewriter {
    /// A rewriter for a fresh stream.
    pub fn new(kind: TransformerKind, model: String, message_id: String) -> (r: SseRewriter)
        ensures
            r.kind == kind,
            r.ctx.model == model,
            r.ctx.message_id == message_id,
            r.ctx.input_tokens == 0,
            r.ctx.output_tokens == 0,
            r.ctx.block_index == 0,
            r.ctx.started == false,
            r.buf@.len() == 0,
    {
        SseRewriter {
            kind,
            ctx: StreamContext {
                model,
                message_id,
                input_tokens: 0,
                output_tokens: 0,
                block_index: 0,
                started: false,
            },
            buf: Vec::new(),
        }
    }

    /// The records that open the stream: exactly one `message_start`.
    pub fn start_events(&self) -> (r: Vec<String>)
        ensures
            r@.len() == 1,
            r@[0]@ == sse_text(
                EventKind::MessageStart,
                message_start_data(self.ctx.message_id@, self.ctx.model@),
            ),
    {
        match self.kind {
            TransformerKind::OpenAI => OpenAITransformer.stream_start_events(&self.ctx),
            TransformerKind::Gemini => GeminiTransformer.stream_start_events(&self.ctx),
        }
    }

    fn apply_payload(&mut self, payload: &[u8]) -> (r: Vec<SseEvent>)
        ensures
            ({
                let st = chunk_step_of(
                    old(self).kind,
                    payload@,
                    old(self).ctx.started,
                    old(self).ctx.block_index,
                    old(self).ctx.input_tokens,
                    old(self).ctx.output_tokens,
                );
                &&& ev(r@) == st.events
                &&& final(self).ctx.started == st.started
                &&& final(self).ctx.input_tokens == st.input_tokens
                &&& final(self).ctx.output_tokens == st.output_tokens
                &&& final(self).ctx.block_index == old(self).ctx.block_index
                &&& final(self).ctx.model == old(self).ctx.model
                &&& final(self).ctx.message_id == old(self).ctx.message_id
                &&& final(self).kind == old(self).kind
                &&& final(self).buf == old(self).buf
            }),
    {
        let outcome = match self.kind {
            TransformerKind::OpenAI => OpenAITransformer.transform_stream_chunk_sse(
                payload,
                &mut self.ctx,
            ),
            TransformerKind::Gemini => GeminiTransformer.transform_stream_chunk_sse(
                payload,
                &mut self.ctx,
            ),
        };
        match outcome {
            Ok(evs) => evs,
            Err(_skipped) => {
                let none: Vec<SseEvent> = Vec::new();
                proof {
                    assert(ev(none@) =~= Seq::<(EventKind, JsonV)>::empty());
                }
                none
            },
        }
    }

    /// Feed one frame of upstream body bytes: every complete `data:` line
    /// in the buffer is rewritten, in order, and the rendered records come
    /// back; a partial trailing line waits for the next frame.
    pub fn push_frame(&mut self, frame: &[u8]) -> (r: Vec<String>)
        ensures
            ({
                let parts = split_payloads(old(self).buf@ + frame@);
                let st = drain_steps(
                    old(self).kind,
                    parts.0,
                    old(self).ctx.started,
                    old(self).ctx.block_index,
                    old(self).ctx.input_tokens,
                    old(self).ctx.output_tokens,
                );
                &&& final(self).buf@ == parts.1
                &&& r@.len() == st.events.len()
                &&& forall|i: int|
                    0 <= i < r@.len() ==> (#[trigger] r@[i])@ == sse_text(
                        st.events[i].0,
                        st.events[i].1,
                    )
                &&& final(self).ctx.started == st.started
                &&& final(self).ctx.input_tokens == st.input_tokens
                &&& final(self).ctx.output_tokens == st.output_tokens
                &&& final(self).ctx.block_index == old(self).ctx.block_index
                &&& final(self).ctx.model == old(self).ctx.model
                &&& final(self).ctx.message_id == old(self).ctx.message_id
                &&& final(self).kind == old(self).kind
            }),
    {
        extend_bytes(&mut self.buf, frame);
        let payloads = drain_payloads(&mut self.buf);
        let ghost ps = pv(payloads@);
        let ghost tail = self.buf@;
        proof {
            lemma_pv_index(payloads@);
        }
        let ghost k = self.kind;
        let ghost started0 = self.ctx.started;
        let ghost bi0 = self.ctx.block_index;
        let ghost in0 = self.ctx.input_tokens;
        let ghost out0 = self.ctx.output_tokens;
        let n = payloads.len();
        let mut events: Vec<SseEvent> = Vec::new();
        let mut i: usize = 0;
        while i < n
            invariant
                n == payloads@.len(),
                i <= n,
                ps == pv(payloads@),
                ps.len() == n,
                forall|t: int| 0 <= t < n ==> ps[t] == (#[trigger] payloads@[t])@,
                self.kind == k,
                self.buf@ == tail,
                self.ctx.block_index == bi0,
                self.ctx.model == old(self).ctx.model,
                self.ctx.message_id == old(self).ctx.message_id,
                ({
                    let st = drain_steps(k, ps.take(i as int), started0, bi0, in0, out0);
                    &&& ev(events@) == st.events
                    &&& self.ctx.started == st.started
                    &&& self.ctx.input_tokens == st.input_tokens
                    &&& self.ctx.output_tokens == st.output_tokens
                }),
            decreases n - i,
        {
            let ghost pre = drain_steps(k, ps.take(i as int), started0, bi0, in0, out0);
            let mut evs = self.apply_payload(payloads[i].as_slice());
            let ghost evsq = evs@;
            let ghost preevents = events@;
            events.append(&mut evs);
            proof {
                lemma_drain_snoc(k, ps.take(i as int), ps[i as int], started0, bi0, in0, out0);
                assert(ps.take(i + 1) =~= ps.take(i as int).push(ps[i as int]));
                lemma_ev_concat(preevents, evsq);
            }
            i += 1;
        }
        proof {
            assert(ps.take(n as int) =~= ps);
        }
        let out = render_events(&events);
        proof {
            crate::transformer::lemma_ev_index(events@);
            let st = drain_steps(k, ps, started0, bi0, in0, out0);
            assert forall|t: int| 0 <= t < out@.len() implies (#[trigger] out@[t])@ == sse_text(
                st.events[t].0,
                st.events[t].1,
            ) by {
                assert(out@[t]@ == sse_text(events@[t].kind, jv(events@[t].data)));
                assert(ev(events@)[t] == (events@[t].kind, jv(events@[t].data)));
            }
        }
        out
    }

    /// Close the stream: rewrite any residual partial line the same way a
    /// complete one is, then emit exactly one `message_stop`.
    pub fn finish(&mut self) -> (r: Vec<String>)
        ensures
            ({
                let st = match line_payload(old(self).buf@) {
                    Some(p) => chunk_step_of(
                        old(self).kind,
                        p,
                        old(self).ctx.started,
                        old(self).ctx.block_index,
                        old(self).ctx.input_tokens,
                        old(self).ctx.output_tokens,
                    ),
                    None => StreamStepV {
                        events: Seq::empty(),
                        started: old(self).ctx.started,
                        input_tokens: old(self).ctx.input_tokens,
                        output_tokens: old(self).ctx.output_tokens,
                    },
                };
                let all = st.events + seq![(EventKind::MessageStop, message_stop_data())];
                &&& r@.len() == all.len()
                &&& forall|i: int|
                    0 <= i < r@.len() ==> (#[trigger] r@[i])@ == sse_text(all[i].0, all[i].1)
                &&& final(self).ctx.started == st.started
                &&& final(self).ctx.input_tokens == st.input_tokens
                &&& final(self).ctx.output_tokens == st.output_tokens
                &&& final(self).buf@.len() == 0
            }),
    {
        let ghost st0 = ({
            let st = match line_payload(self.buf@) {
                Some(p) => chunk_step_of(
                    self.kind,
                    p,
                    self.ctx.started,
                    self.ctx.block_index,
                    self.ctx.input_tokens,
                    self.ctx.output_tokens,
                ),
                None => StreamStepV {
                    events: Seq::empty(),
                    started: self.ctx.started,
                    input_tokens: self.ctx.input_tokens,
                    output_tokens: self.ctx.output_tokens,
                },
            };
            st
        });
        let mut events: Vec<SseEvent> = Vec::new();
        let residual_payload = payload_of_line(self.buf.as_slice());
        match residual_payload {
            Some(p) => {
                let mut evs = self.apply_payload(p.as_slice());
                let ghost evsq = evs@;
                events.append(&mut evs);
                proof {
                    assert(events@ =~= evsq);
                }
            },
            None => {},
        }
        self.buf.clear();
        let end = match self.kind {
            TransformerKind::OpenAI => {
                let mut c = StreamContext {
                    model: String::new(),
                    message_id: String::new(),
                    input_tokens: 0,
                    output_tokens: 0,
                    block_index: 0,
                    started: false,
                };
                OpenAITransformer.stream_end_sse(&mut c)
            },
            TransformerKind::Gemini => {
                let mut c = StreamContext {
                    model: String::new(),
                    message_id: String::new(),
                    input_tokens: 0,
                    output_tokens: 0,
                    block_index: 0,
                    started: false,
                };
                GeminiTransformer.stream_end_sse(&mut c)
            },
        };
        let ghost preevents = events@;
        let mut endv = end;
        let ghost endq = endv@;
        events.append(&mut endv);
        proof {
            lemma_ev_concat(preevents, endq);
        }
        let out = render_events(&events);
        proof {
            crate::transformer::lemma_ev_index(events@);
            let all = st0.events + seq![(EventKind::MessageStop, message_stop_data())];
            if line_payload(old(self).buf@) is None {
                assert(preevents =~= Seq::<SseEvent>::empty());
                assert(ev(preevents) =~= Seq::<(EventKind, JsonV)>::empty());
            }
            assert(ev(events@) == ev(preevents) + ev(endq));
            assert(ev(events@) =~= all);
            assert forall|t: int| 0 <= t < out@.len() implies (#[trigger] out@[t])@ == sse_text(
                all[t].0,
                all[t].1,
            ) by {
                assert(out@[t]@ == sse_text(events@[t].kind, jv(events@[t].data)));
                assert(ev(events@)[t] == (events@[t].kind, jv(events@[t].data)));
            }
        }
        out
    }
}

/// `pv` maps the view element-wise.
pub proof fn lemma_pv_index(s: Seq<Vec<u8>>)
    ensures
        pv(s).len() == s.len(),
        forall|i: int| 0 <= i < s.len() ==> pv(s)[i] == (#[trigger] s[i])@,
    decreases s.len(),
{
    if s.len() > 0 {
        lemma_pv_index(s.drop_last());
        assert forall|i: int| 0 <= i < s.len() implies pv(s)[i] == (#[trigger] s[i])@ by {
            if i < s.len() - 1 {
                assert(s.drop_last()[i] == s[i]);
                assert(pv(s)[i] == pv(s.drop_last())[i]);
            } else {
                assert(s[i] == s.last());
            }
        }
    }
}

/// The event view of a concatenation.
pub proof fn lemma_ev_concat(a: Seq<SseEvent>, b: Seq<SseEvent>)
    ensures
        ev(a + b) == ev(a) + ev(b),
    decreases b.len(),
{
    if b.len() == 0 {
        assert(a + b =~= a);
        assert(ev(b) =~= Seq::<(EventKind, JsonV)>::empty());
        assert(ev(a) + ev(b) =~= ev(a));
    } else {
        assert((a + b).drop_last() =~= a + b.drop_last());
        assert((a + b).last() == b.last());
        lemma_ev_concat(a, b.drop_last());
        assert(ev(a + b) =~= ev(a) + ev(b));
    }
}

/// How many events of kind `k` a list holds.
pub open spec fn count_kind(s: Seq<(EventKind, JsonV)>, k: EventKind) -> int
    decreases s.len(),
{
    if s.len() == 0 {
        0
    } else {
        count_kind(s.drop_last(), k) + if s.last().0 == k {
            1int
        } else {
            0int
        }
    }
}

/// Counting distributes over concatenation.
pub proof fn lemma_count_concat(a: Seq<(EventKind, JsonV)>, b: Seq<(EventKind, JsonV)>, k: EventKind)
    ensures
        count_kind(a + b, k) == count_kind(a, k) + count_kind(b, k),
    decreases b.len(),
{
    if b.len() == 0 {
        assert(a + b =~= a);
    } else {
        assert((a + b).drop_last() =~= a + b.drop_last());
        assert((a + b).last() == b.last());
        lemma_count_concat(a, b.drop_last(), k);
    }
}

/// A positive count exhibits a position.
pub proof fn lemma_count_pos(s: Seq<(EventKind, JsonV)>, k: EventKind)
    requires
        count_kind(s, k) > 0,
    ensures
        exists|i: int| 0 <= i < s.len() && (#[trigger] s[i]).0 == k,
    decreases s.len(),
{
    if s.last().0 == k {
        assert(s[s.len() - 1].0 == k);
    } else {
        lemma_count_pos(s.drop_last(), k);
        let i = choose|i: int| 0 <= i < s.drop_last().len() && (#[trigger] s.drop_last()[i]).0 == k;
        assert(s[i].0 == k);
    }
}

proof fn lemma_count1(e: (EventKind, JsonV), k: EventKind)
    ensures
        count_kind(seq![e], k) == if e.0 == k {
            1int
        } else {
            0int
        },
{
    assert(seq![e].drop_last() =~= Seq::<(EventKind, JsonV)>::empty());
    assert(count_kind(Seq::<(EventKind, JsonV)>::empty(), k) == 0);
}

proof fn lemma_count2(e1: (EventKind, JsonV), e2: (EventKind, JsonV), k: EventKind)
    ensures
        count_kind(seq![e1, e2], k) == (if e1.0 == k {
            1int
        } else {
            0int
        }) + (if e2.0 == k {
            1int
        } else {
            0int
        }),
{
    assert(seq![e1, e2].drop_last() =~= seq![e1]);
    assert(seq![e1, e2].last() == e2);
    lemma_count1(e1, k);
}

proof fn lemma_step_parts_shape(
    started: bool,
    st_started: bool,
    opening: Seq<(EventKind, JsonV)>,
    delta_evs: Seq<(EventKind, JsonV)>,
    fin_evs: Seq<(EventKind, JsonV)>,
)
    requires
        st_started == true,
        started ==> opening =~= Seq::<(EventKind, JsonV)>::empty(),
        !started ==> opening.len() == 1 && opening[0].0 == EventKind::ContentBlockStart,
        delta_evs.len() <= 1,
        forall|i: int|
            0 <= i < delta_evs.len() ==> (#[trigger] delta_evs[i]).0
                == EventKind::ContentBlockDelta,
        fin_evs.len() == 0 || fin_evs.len() == 2,
        fin_evs.len() == 2 ==> fin_evs[0].0 == EventKind::ContentBlockStop && fin_evs[1].0
            == EventKind::MessageDelta,
    ensures
        stream_shape(opening + delta_evs + fin_evs, started, st_started),
{
    let events = opening + delta_evs + fin_evs;
    let kinds = seq![
        EventKind::MessageStart,
        EventKind::MessageStop,
        EventKind::ContentBlockStart,
    ];
    assert forall|k: EventKind| true implies count_kind(events, k) == count_kind(opening, k)
        + count_kind(delta_evs, k) + count_kind(fin_evs, k) by {
        lemma_count_concat(opening, delta_evs, k);
        lemma_count_concat(opening + delta_evs, fin_evs, k);
    }
    assert forall|k: EventKind| true implies count_kind(opening, k) == (if !started && k
        == EventKind::ContentBlockStart {
        1int
    } else {
        0int
    }) by {
        if started {
            assert(count_kind(opening, k) == 0);
        } else {
            assert(opening =~= seq![opening[0]]);
            lemma_count1(opening[0], k);
        }
    }
    assert forall|k: EventKind| k != EventKind::ContentBlockDelta implies count_kind(delta_evs, k)
        == 0 by {
        if delta_evs.len() == 1 {
            assert(delta_evs =~= seq![delta_evs[0]]);
            lemma_count1(delta_evs[0], k);
        } else {
            assert(delta_evs =~= Seq::<(EventKind, JsonV)>::empty());
        }
    }
    assert forall|k: EventKind| k != EventKind::ContentBlockStop && k != EventKind::MessageDelta
        implies count_kind(fin_evs, k) == 0 by {
        if fin_evs.len() == 2 {
            assert(fin_evs =~= seq![fin_evs[0], fin_evs[1]]);
            lemma_count2(fin_evs[0], fin_evs[1], k);
        } else {
            assert(fin_evs =~= Seq::<(EventKind, JsonV)>::empty());
        }
    }
    assert forall|i: int|
        0 <= i < events.len() && (#[trigger] events[i]).0 == EventKind::ContentBlockStop implies (
    started || count_kind(events.take(i), EventKind::ContentBlockStart) >= 1) by {
        if !started {
            assert(events[0] == opening[0]);
            assert(events[0].0 == EventKind::ContentBlockStart);
            assert(i != 0);
            assert(events.take(i)[0] == events[0]);
            lemma_count_at(events.take(i), EventKind::ContentBlockStart, 0);
        }
    }
}

/// The shape of a well-formed run of chunk events between a started flag
/// of `started` before and `after` afterwards: no `message_start` or
/// `message_stop` at all, one `content_block_start` exactly when the flag
/// rises, and every `content_block_stop` after a start (or in an already
/// started stream).
pub open spec fn stream_shape(events: Seq<(EventKind, JsonV)>, started: bool, after: bool) -> bool {
    &&& count_kind(events, EventKind::MessageStart) == 0
    &&& count_kind(events, EventKind::MessageStop) == 0
    &&& (started ==> after)
    &&& count_kind(events, EventKind::ContentBlockStart) == if !started && after {
        1int
    } else {
        0int
    }
    &&& forall|i: int|
        0 <= i < events.len() && (#[trigger] events[i]).0 == EventKind::ContentBlockStop ==> (
        started || count_kind(events.take(i), EventKind::ContentBlockStart) >= 1)
}

/// An occurrence gives a positive count.
pub proof fn lemma_count_at(s: Seq<(EventKind, JsonV)>, k: EventKind, j: int)
    requires
        0 <= j < s.len(),
        s[j].0 == k,
    ensures
        count_kind(s, k) >= 1,
    decreases s.len(),
{
    lemma_count_nonneg(s.drop_last(), k);
    if j == s.len() - 1 {
        assert(s.last() == s[j]);
    } else {
        assert(s.drop_last()[j] == s[j]);
        lemma_count_at(s.drop_last(), k, j);
    }
}

/// Counts are never negative.
pub proof fn lemma_count_nonneg(s: Seq<(EventKind, JsonV)>, k: EventKind)
    ensures
        count_kind(s, k) >= 0,
    decreases s.len(),
{
    if s.len() > 0 {
        lemma_count_nonneg(s.drop_last(), k);
    }
}

/// Well-shaped runs compose.
pub proof fn lemma_shape_concat(
    a: Seq<(EventKind, JsonV)>,
    b: Seq<(EventKind, JsonV)>,
    s0: bool,
    s1: bool,
    s2: bool,
)
    requires
        stream_shape(a, s0, s1),
        stream_shape(b, s1, s2),
    ensures
        stream_shape(a + b, s0, s2),
{
    lemma_count_concat(a, b, EventKind::MessageStart);
    lemma_count_concat(a, b, EventKind::MessageStop);
    lemma_count_concat(a, b, EventKind::ContentBlockStart);
    let c = a + b;
    let alen = a.len() as int;
    assert forall|i: int|
        0 <= i < c.len() && (#[trigger] c[i]).0 == EventKind::ContentBlockStop implies (s0
        || count_kind(c.take(i), EventKind::ContentBlockStart) >= 1) by {
        if !s0 {
            if i < alen {
                assert(c[i] == a[i]);
                assert(c.take(i) =~= a.take(i));
                assert(count_kind(a.take(i), EventKind::ContentBlockStart) >= 1);
            } else {
                assert(c[i] == b[i - alen]);
                assert(c.take(i) =~= a + b.take(i - alen));
                lemma_count_concat(a, b.take(i - alen), EventKind::ContentBlockStart);
                if s1 {
                    lemma_count_nonneg(b.take(i - alen), EventKind::ContentBlockStart);
                } else {
                    assert(count_kind(b.take(i - alen), EventKind::ContentBlockStart) >= 1);
                    lemma_count_nonneg(a, EventKind::ContentBlockStart);
                }
            }
        }
    }
}

/// What one payload's events can hold: never a `message_start` or
/// `message_stop`; a `content_block_start` exactly on the not-yet-started
/// to started transition; the started flag only ever rises; and every
/// `content_block_stop` in a chunk that starts the block comes after the
/// start.
pub proof fn lemma_chunk_step_shape(
    k: TransformerKind,
    payload: Seq<u8>,
    started: bool,
    block_index: u32,
    in_t: u64,
    out_t: u64,
)
    ensures
        stream_shape(
            chunk_step_of(k, payload, started, block_index, in_t, out_t).events,
            started,
            chunk_step_of(k, payload, started, block_index, in_t, out_t).started,
        ),
{
    let st = chunk_step_of(k, payload, started, block_index, in_t, out_t);
    match k {
        TransformerKind::OpenAI => {
            if spec_trim_b(payload) == done_marker() || text_json(payload) is None {
                assert(st.events =~= Seq::<(EventKind, JsonV)>::empty());
                assert(count_kind(st.events, EventKind::MessageStart) == 0);
                assert(count_kind(st.events, EventKind::MessageStop) == 0);
                assert(count_kind(st.events, EventKind::ContentBlockStart) == 0);
            } else {
                let j = text_json(payload)->Some_0;
                let d = jv(j);
                let opening = crate::transformer::start_evs(started, block_index);
                let has_text = match crate::openai::openai_chunk_text(d) {
                    Some(t) => t.len() > 0,
                    None => false,
                };
                let delta_evs: Seq<(EventKind, JsonV)> = if has_text {
                    seq![
                        (
                            EventKind::ContentBlockDelta,
                            crate::transformer::delta_data(
                                block_index,
                                crate::openai::openai_chunk_text(d)->Some_0,
                            ),
                        ),
                    ]
                } else {
                    Seq::empty()
                };
                match crate::openai::openai_chunk_finish(d) {
                    Some(f) => {
                        assert(st.events == opening + delta_evs + st.events.skip(
                            opening.len() + delta_evs.len() as int,
                        )) by {
                            assert(st.events =~= opening + delta_evs + st.events.skip(
                                opening.len() + delta_evs.len() as int,
                            ));
                        }
                        let fin = st.events.skip(opening.len() + delta_evs.len() as int);
                        assert(fin =~= st.events.skip(opening.len() + delta_evs.len() as int));
                        assert(fin.len() == 2 && fin[0].0 == EventKind::ContentBlockStop
                            && fin[1].0 == EventKind::MessageDelta);
                        lemma_step_parts_shape(started, st.started, opening, delta_evs, fin);
                    },
                    None => {
                        lemma_step_parts_shape(
                            started,
                            st.started,
                            opening,
                            delta_evs,
                            Seq::empty(),
                        );
                        assert(st.events =~= opening + delta_evs + Seq::<
                            (EventKind, JsonV),
                        >::empty());
                    },
                }
            }
        },
        TransformerKind::Gemini => {
            if text_json(payload) is None {
                assert(st.events =~= Seq::<(EventKind, JsonV)>::empty());
                assert(count_kind(st.events, EventKind::MessageStart) == 0);
                assert(count_kind(st.events, EventKind::MessageStop) == 0);
                assert(count_kind(st.events, EventKind::ContentBlockStart) == 0);
            } else {
                let j = text_json(payload)->Some_0;
                let d = jv(j);
                let opening = crate::transformer::start_evs(started, block_index);
                let text = crate::gemini::gem_resp_text(d);
                let delta_evs: Seq<(EventKind, JsonV)> = if text.len() > 0 {
                    seq![
                        (
                            EventKind::ContentBlockDelta,
                            crate::transformer::delta_data(block_index, text),
                        ),
                    ]
                } else {
                    Seq::empty()
                };
                match crate::gemini::gem_chunk_finish(d) {
                    Some(f) => {
                        let fin = st.events.skip(opening.len() + delta_evs.len() as int);
                        assert(st.events == opening + delta_evs + fin) by {
                            assert(st.events =~= opening + delta_evs + fin);
                        }
                        assert(fin =~= st.events.skip(opening.len() + delta_evs.len() as int));
                        assert(fin.len() == 2 && fin[0].0 == EventKind::ContentBlockStop
                            && fin[1].0 == EventKind::MessageDelta);
                        lemma_step_parts_shape(started, st.started, opening, delta_evs, fin);
                    },
                    None => {
                        lemma_step_parts_shape(
                            started,
                            st.started,
                            opening,
                            delta_evs,
                            Seq::empty(),
                        );
                        assert(st.events =~= opening + delta_evs + Seq::<
                            (EventKind, JsonV),
                        >::empty());
                    },
                }
            }
        },
    }
}

/// Over any run of payloads: no `message_start` or `message_stop` is ever
/// emitted by chunks; the started flag only rises; a `content_block_start`
/// appears exactly once, at the rise; and every `content_block_stop` that
/// follows a fresh start comes after it.
pub proof fn lemma_drain_shape(
    k: TransformerKind,
    payloads: Seq<Seq<u8>>,
    started: bool,
    block_index: u32,
    in_t: u64,
    out_t: u64,
)
    ensures
        stream_shape(
            drain_steps(k, payloads, started, block_index, in_t, out_t).events,
            started,
            drain_steps(k, payloads, started, block_index, in_t, out_t).started,
        ),
    decreases payloads.len(),
{
    let st = drain_steps(k, payloads, started, block_index, in_t, out_t);
    if payloads.len() == 0 {
        assert(count_kind(st.events, EventKind::MessageStart) == 0);
        assert(count_kind(st.events, EventKind::MessageStop) == 0);
        assert(count_kind(st.events, EventKind::ContentBlockStart) == 0);
    } else {
        let first = chunk_step_of(k, payloads[0], started, block_index, in_t, out_t);
        lemma_chunk_step_shape(k, payloads[0], started, block_index, in_t, out_t);
        let rest = drain_steps(
            k,
            payloads.drop_first(),
            first.started,
            block_index,
            first.input_tokens,
            first.output_tokens,
        );
        lemma_drain_shape(
            k,
            payloads.drop_first(),
            first.started,
            block_index,
            first.input_tokens,
            first.output_tokens,
        );
        lemma_shape_concat(first.events, rest.events, started, first.started, rest.started);
        assert(st.events == first.events + rest.events);
        assert(st.started == rest.started);
    }
}

/// The whole rewritten stream — the opening record, the chunk records of
/// any payload run from a fresh context, and the closing record — carries
/// exactly one `message_start` (first) and one `message_stop` (last), at
/// most one `content_block_start`, and every `content_block_stop` comes
/// after a `content_block_start`.
pub proof fn lemma_stream_event_shape(
    k: TransformerKind,
    payloads: Seq<Seq<u8>>,
    id: Seq<char>,
    model: Seq<char>,
    block_index: u32,
    in_t: u64,
    out_t: u64,
)
    ensures
        ({
            let st = drain_steps(k, payloads, false, block_index, in_t, out_t);
            let full = seq![(EventKind::MessageStart, message_start_data(id, model))] + st.events
                + seq![(EventKind::MessageStop, message_stop_data())];
            &&& count_kind(full, EventKind::MessageStart) == 1
            &&& count_kind(full, EventKind::MessageStop) == 1
            &&& count_kind(full, EventKind::ContentBlockStart) <= 1
            &&& full[0].0 == EventKind::MessageStart
            &&& full[full.len() - 1].0 == EventKind::MessageStop
            &&& forall|i: int|
                0 <= i < full.len() && (#[trigger] full[i]).0 == EventKind::ContentBlockStop
                    ==> exists|j: int|
                    0 <= j < i && (#[trigger] full[j]).0 == EventKind::ContentBlockStart
        }),
{
    lemma_drain_shape(k, payloads, false, block_index, in_t, out_t);
    let st = drain_steps(k, payloads, false, block_index, in_t, out_t);
    assert(stream_shape(st.events, false, st.started));
    let head = seq![(EventKind::MessageStart, message_start_data(id, model))];
    let tail = seq![(EventKind::MessageStop, message_stop_data())];
    let full = head + st.events + tail;
    lemma_count1(head[0], EventKind::MessageStart);
    lemma_count1(head[0], EventKind::MessageStop);
    lemma_count1(head[0], EventKind::ContentBlockStart);
    lemma_count1(tail[0], EventKind::MessageStart);
    lemma_count1(tail[0], EventKind::MessageStop);
    lemma_count1(tail[0], EventKind::ContentBlockStart);
    assert(head =~= seq![head[0]]);
    assert(tail =~= seq![tail[0]]);
    lemma_count_concat(head, st.events, EventKind::MessageStart);
    lemma_count_concat(head + st.events, tail, EventKind::MessageStart);
    lemma_count_concat(head, st.events, EventKind::MessageStop);
    lemma_count_concat(head + st.events, tail, EventKind::MessageStop);
    lemma_count_concat(head, st.events, EventKind::ContentBlockStart);
    lemma_count_concat(head + st.events, tail, EventKind::ContentBlockStart);
    assert forall|i: int|
        0 <= i < full.len() && (#[trigger] full[i]).0 == EventKind::ContentBlockStop
            implies exists|j: int|
        0 <= j < i && (#[trigger] full[j]).0 == EventKind::ContentBlockStart by {
        assert(full[i] == (head + st.events + tail)[i]);
        assert(1 <= i < 1 + st.events.len());
        assert(full[i] == st.events[i - 1]);
        assert(count_kind(st.events.take(i - 1), EventKind::ContentBlockStart) >= 1);
        lemma_count_pos(st.events.take(i - 1), EventKind::ContentBlockStart);
        let j2 = choose|j2: int|
            0 <= j2 < st.events.take(i - 1).len() && (#[trigger] st.events.take(i - 1)[j2]).0
                == EventKind::ContentBlockStart;
        assert(st.events.take(i - 1)[j2] == st.events[j2]);
        assert(full[1 + j2] == st.events[j2]);
        assert(0 <= 1 + j2 < i && full[1 + j2].0 == EventKind::ContentBlockStart);
    }
}

} // verus!
