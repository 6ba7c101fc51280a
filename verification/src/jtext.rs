//! Rendering a JSON value as compact text. The grammar of the output is
//! fixed by the spec functions here; the executable writer is proved to
//! produce exactly that text.

use vstd::prelude::*;

use crate::json::{av, jv, ov, Entries, Json, JsonV};
use crate::strutil::append_str;

verus! {

use vstd::string::StrSliceExecFns;

/// The character for a decimal digit value.
pub open spec fn dec_digit(d: u64) -> char {
    ((d + 48) as u8) as char
}

/// The decimal text of `n`, most significant digit first.
pub open spec fn dec_chars(n: u64) -> Seq<char>
    decreases n,
{
    if n < 10 {
        seq![dec_digit(n)]
    } else {
        dec_chars(n / 10).push(dec_digit(n % 10))
    }
}

/// The character for a hexadecimal digit value, lowercase.
pub open spec fn hex_digit(d: u32) -> char {
    if d < 10 {
        ((d + 48) as u8) as char
    } else {
        ((d + 87) as u8) as char
    }
}

/// How one character appears inside a JSON string literal.
pub open spec fn esc_char(c: char) -> Seq<char> {
    if c == '"' {
        seq!['\\', '"']
    } else if c == '\\' {
        seq!['\\', '\\']
    } else if c == '\n' {
        seq!['\\', 'n']
    } else if c == '\r' {
        seq!['\\', 'r']
    } else if c == '\t' {
        seq!['\\', 't']
    } else if (c as u32) < 32 {
        seq!['\\', 'u', '0', '0', hex_digit((c as u32) / 16), hex_digit((c as u32) % 16)]
    } else {
        seq![c]
    }
}

/// The body of a JSON string literal.
pub open spec fn str_chars(s: Seq<char>) -> Seq<char>
    decreases s.len(),
{
    if s.len() == 0 {
        Seq::empty()
    } else {
        str_chars(s.drop_last()) + esc_char(s.last())
    }
}

/// A quoted JSON string literal.
pub open spec fn quoted(s: Seq<char>) -> Seq<char> {
    seq!['"'] + str_chars(s) + seq!['"']
}

/// The compact text of a JSON value.
pub open spec fn jtext(v: JsonV) -> Seq<char>
    decreases v,
{
    match v {
        JsonV::Null => "null"@,
        JsonV::Bool(b) => if b {
            "true"@
        } else {
            "false"@
        },
        JsonV::Int(n) => dec_chars(n),
        JsonV::NumRaw(s) => s,
        JsonV::Str(s) => quoted(s),
        JsonV::Arr(a) => seq!['['] + arr_items(a) + seq![']'],
        JsonV::Obj(o) => seq!['{'] + obj_items(o) + seq!['}'],
    }
}

/// Comma-separated element texts.
pub open spec fn arr_items(a: Seq<JsonV>) -> Seq<char>
    decreases a,
{
    if a.len() == 0 {
        Seq::empty()
    } else if a.len() == 1 {
        jtext(a.last())
    } else {
        arr_items(a.drop_last()) + seq![','] + jtext(a.last())
    }
}

/// Comma-separated `"key":value` entry texts.
pub open spec fn obj_items(o: Entries) -> Seq<char>
    decreases o,
{
    if o.len() == 0 {
        Seq::empty()
    } else if o.len() == 1 {
        quoted(o.last().0) + seq![':'] + jtext(o.last().1)
    } else {
        obj_items(o.drop_last()) + seq![','] + quoted(o.last().0) + seq![':'] + jtext(o.last().1)
    }
}

/// Write the decimal text of `n`.
fn write_dec(n: u64, out: &mut Vec<char>)
    ensures
        final(out)@ == old(out)@ + dec_chars(n),
    decreases n,
{
    if n < 10 {
        let d: u8 = (n as u8) + 48;
        out.push(d as char);
    } else {
        write_dec(n / 10, out);
        let d: u8 = ((n % 10) as u8) + 48;
        out.push(d as char);
    }
}

/// Write one character, escaped as JSON requires.
fn write_escaped(c: char, out: &mut Vec<char>)
    ensures
        final(out)@ == old(out)@ + esc_char(c),
{
    if c == '"' {
        out.push('\\');
        out.push('"');
    } else if c == '\\' {
        out.push('\\');
        out.push('\\');
    } else if c == '\n' {
        out.push('\\');
        out.push('n');
    } else if c == '\r' {
        out.push('\\');
        out.push('r');
    } else if c == '\t' {
        out.push('\\');
        out.push('t');
    } else {
        let x: u32 = c as u32;
        if x < 32 {
            out.push('\\');
            out.push('u');
            out.push('0');
            out.push('0');
            let hi: u32 = x / 16;
            let lo: u32 = x % 16;
            let h: u8 = if hi < 10 {
                (hi as u8) + 48
            } else {
                (hi as u8) + 87
            };
            let l: u8 = if lo < 10 {
                (lo as u8) + 48
            } else {
                (lo as u8) + 87
            };
            out.push(h as char);
            out.push(l as char);
        } else {
            out.push(c);
        }
    }
    proof {
        assert(final(out)@ =~= old(out)@ + esc_char(c));
    }
}

/// Write a quoted JSON string literal with the characters of `s`.
fn write_quoted(s: &str, out: &mut Vec<char>)
    ensures
        final(out)@ == old(out)@ + quoted(s@),
{
    out.push('"');
    let n = s.unicode_len();
    let mut i: usize = 0;
    while i < n
        invariant
            n == s@.len(),
            i <= n,
            out@ == old(out)@ + seq!['"'] + str_chars(s@.take(i as int)),
        decreases n - i,
    {
        write_escaped(s.get_char(i), out);
        proof {
            assert(s@.take(i + 1).drop_last() =~= s@.take(i as int));
            assert(s@.take(i + 1).last() == s@[i as int]);
        }
        i += 1;
    }
    out.push('"');
    proof {
        assert(s@.take(n as int) =~= s@);
        assert(final(out)@ =~= old(out)@ + quoted(s@));
    }
}

/// Write the compact text of `j`.
pub fn write_json(j: &Json, out: &mut Vec<char>)
    ensures
        final(out)@ == old(out)@ + jtext(jv(*j)),
    decreases *j,
{
    match j {
        Json::Null => {
            append_str(out, "null");
        },
        Json::Bool(b) => {
            if *b {
                append_str(out, "true");
            } else {
                append_str(out, "false");
            }
        },
        Json::Int(n) => {
            write_dec(*n, out);
        },
        Json::NumRaw(s) => {
            append_str(out, s.as_str());
        },
        Json::Str(s) => {
            write_quoted(s.as_str(), out);
        },
        Json::Arr(a) => {
            write_arr(a, out);
        },
        Json::Obj(o) => {
            write_obj(o, out);
        },
    }
}

/// Write `[e1,e2,...]`.
fn write_arr(a: &Vec<Json>, out: &mut Vec<char>)
    ensures
        final(out)@ == old(out)@ + seq!['['] + arr_items(av(a@)) + seq![']'],
    decreases *a,
{
    proof {
        crate::json::lemma_av_index(a@);
    }
    out.push('[');
    let n = a.len();
    let mut i: usize = 0;
    while i < n
        invariant
            n == a@.len(),
            av(a@).len() == n,
            forall|k: int| 0 <= k < n ==> av(a@)[k] == jv(#[trigger] a@[k]),
            i <= n,
            out@ == old(out)@ + seq!['['] + arr_items(av(a@).take(i as int)),
        decreases n - i,
    {
        if i > 0 {
            out.push(',');
        }
        proof {
            assert(decreases_to!(*a => a@[i as int]));
        }
        write_json(&a[i], out);
        proof {
            let q = av(a@);
            assert(q.take(i + 1).drop_last() =~= q.take(i as int));
            assert(q.take(i + 1).last() == q[i as int]);
            assert(out@ =~= old(out)@ + seq!['['] + arr_items(q.take(i + 1)));
        }
        i += 1;
    }
    out.push(']');
    proof {
        assert(av(a@).take(n as int) =~= av(a@));
        assert(final(out)@ =~= old(out)@ + seq!['['] + arr_items(av(a@)) + seq![']']);
    }
}

/// Write `{"k1":v1,"k2":v2,...}`.
fn write_obj(o: &Vec<(String, Json)>, out: &mut Vec<char>)
    ensures
        final(out)@ == old(out)@ + seq!['{'] + obj_items(ov(o@)) + seq!['}'],
    decreases *o,
{
    proof {
        crate::json::lemma_ov_index(o@);
    }
    out.push('{');
    let n = o.len();
    let mut i: usize = 0;
    while i < n
        invariant
            n == o@.len(),
            ov(o@).len() == n,
            forall|k: int| 0 <= k < n ==> ov(o@)[k] == ((#[trigger] o@[k]).0@, jv(o@[k].1)),
            i <= n,
            out@ == old(out)@ + seq!['{'] + obj_items(ov(o@).take(i as int)),
        decreases n - i,
    {
        if i > 0 {
            out.push(',');
        }
        write_quoted(o[i].0.as_str(), out);
        out.push(':');
        proof {
            assert(decreases_to!(*o => o@[i as int]));
            assert(decreases_to!(o@[i as int] => o@[i as int].1));
        }
        write_json(&o[i].1, out);
        proof {
            let q = ov(o@);
            assert(q.take(i + 1).drop_last() =~= q.take(i as int));
            assert(q.take(i + 1).last() == q[i as int]);
            assert(out@ =~= old(out)@ + seq!['{'] + obj_items(q.take(i + 1)));
        }
        i += 1;
    }
    out.push('}');
    proof {
        assert(ov(o@).take(n as int) =~= ov(o@));
        assert(final(out)@ =~= old(out)@ + seq!['{'] + obj_items(ov(o@)) + seq!['}']);
    }
}

/// The compact text of `j`, as a `String`.
pub fn json_to_string(j: &Json) -> (r: String)
    ensures
        r@ == jtext(jv(*j)),
{
    let mut out: Vec<char> = Vec::new();
    write_json(j, &mut out);
    crate::strutil::chars_to_string(&out)
}

} // verus!
