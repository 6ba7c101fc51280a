//! The crate's own JSON tree: the value type the transformers and the
//! pipeline compute on, together with its mathematical view and the
//! object-level operations used to rewrite request and response bodies.

use vstd::prelude::*;

verus! {

use vstd::string::StringExecFns;

/// A JSON value. Numbers that the proxy's logic reads are non-negative
/// integers and are held exactly; any other number is kept as its decimal
/// text and passed through unchanged.
#[derive(Debug, PartialEq, Eq)]
pub enum Json {
    Null,
    Bool(bool),
    Int(u64),
    NumRaw(String),
    Str(String),
    Arr(Vec<Json>),
    Obj(Vec<(String, Json)>),
}

/// The mathematical shape of a JSON value: strings as character sequences,
/// aggregates as sequences.
#[verifier::ext_equal]
pub enum JsonV {
    Null,
    Bool(bool),
    Int(u64),
    NumRaw(Seq<char>),
    Str(Seq<char>),
    Arr(Seq<JsonV>),
    Obj(Seq<(Seq<char>, JsonV)>),
}

/// The view of a JSON value.
pub open spec fn jv(j: Json) -> JsonV
    decreases j,
{
    match j {
        Json::Null => JsonV::Null,
        Json::Bool(b) => JsonV::Bool(b),
        Json::Int(n) => JsonV::Int(n),
        Json::NumRaw(s) => JsonV::NumRaw(s@),
        Json::Str(s) => JsonV::Str(s@),
        Json::Arr(a) => JsonV::Arr(av(a@)),
        Json::Obj(o) => JsonV::Obj(ov(o@)),
    }
}

/// The view of an array's element list.
pub open spec fn av(a: Seq<Json>) -> Seq<JsonV>
    decreases a,
{
    if a.len() == 0 {
        Seq::empty()
    } else {
        av(a.drop_last()).push(jv(a.last()))
    }
}

/// The view of an object's entry list.
pub open spec fn ov(o: Seq<(String, Json)>) -> Seq<(Seq<char>, JsonV)>
    decreases o,
{
    if o.len() == 0 {
        Seq::empty()
    } else {
        ov(o.drop_last()).push((o.last().0@, jv(o.last().1)))
    }
}

/// `av` maps the view element-wise.
pub proof fn lemma_av_index(a: Seq<Json>)
    ensures
        av(a).len() == a.len(),
        forall|i: int| 0 <= i < a.len() ==> av(a)[i] == jv(#[trigger] a[i]),
    decreases a.len(),
{
    if a.len() > 0 {
        lemma_av_index(a.drop_last());
        assert forall|i: int| 0 <= i < a.len() implies av(a)[i] == jv(#[trigger] a[i]) by {
            if i < a.len() - 1 {
                assert(a.drop_last()[i] == a[i]);
                assert(av(a)[i] == av(a.drop_last())[i]);
            } else {
                assert(a[i] == a.last());
            }
        }
    }
}

/// `ov` maps the view element-wise.
pub proof fn lemma_ov_index(o: Seq<(String, Json)>)
    ensures
        ov(o).len() == o.len(),
        forall|i: int| 0 <= i < o.len() ==> ov(o)[i] == ((#[trigger] o[i]).0@, jv(o[i].1)),
    decreases o.len(),
{
    if o.len() > 0 {
        lemma_ov_index(o.drop_last());
        assert forall|i: int| 0 <= i < o.len() implies ov(o)[i] == ((#[trigger] o[i]).0@, jv(
            o[i].1,
        )) by {
            if i < o.len() - 1 {
                assert(o.drop_last()[i] == o[i]);
                assert(ov(o)[i] == ov(o.drop_last())[i]);
            } else {
                assert(o[i] == o.last());
            }
        }
    }
}

/// The entry list of an object view.
pub type Entries = Seq<(Seq<char>, JsonV)>;

/// The value of the first entry named `k`, if any.
pub open spec fn olookup(o: Entries, k: Seq<char>) -> Option<JsonV>
    decreases o.len(),
{
    if o.len() == 0 {
        None
    } else if o[0].0 == k {
        Some(o[0].1)
    } else {
        olookup(o.drop_first(), k)
    }
}

/// The entry list with every entry named `k` removed.
pub open spec fn oremove(o: Entries, k: Seq<char>) -> Entries
    decreases o.len(),
{
    if o.len() == 0 {
        Seq::empty()
    } else if o.last().0 == k {
        oremove(o.drop_last(), k)
    } else {
        oremove(o.drop_last(), k).push(o.last())
    }
}

/// The entry list with the binding of `k` replaced by `v` (placed last).
pub open spec fn oset(o: Entries, k: Seq<char>, v: JsonV) -> Entries {
    oremove(o, k).push((k, v))
}

/// Field lookup on a JSON value: `None` on anything but an object.
pub open spec fn jget(v: JsonV, k: Seq<char>) -> Option<JsonV> {
    match v {
        JsonV::Obj(o) => olookup(o, k),
        _ => None,
    }
}

/// The character content of a string value.
pub open spec fn jas_str(v: JsonV) -> Option<Seq<char>> {
    match v {
        JsonV::Str(s) => Some(s),
        _ => None,
    }
}

/// The string content of field `k`, if the field holds a string.
pub open spec fn jget_str(v: JsonV, k: Seq<char>) -> Option<Seq<char>> {
    match jget(v, k) {
        Some(x) => jas_str(x),
        None => None,
    }
}

/// The integer content of field `k`, or `d` if absent or not an integer.
pub open spec fn jget_int_or(v: JsonV, k: Seq<char>, d: u64) -> u64 {
    match jget(v, k) {
        Some(JsonV::Int(n)) => n,
        _ => d,
    }
}

/// Looking up after skipping a non-matching prefix finds the same entry.
pub proof fn lemma_olookup_skip(o: Entries, k: Seq<char>, i: int)
    requires
        0 <= i <= o.len(),
        forall|j: int| 0 <= j < i ==> (#[trigger] o[j]).0 != k,
    ensures
        olookup(o, k) == olookup(o.skip(i), k),
    decreases i,
{
    if i == 0 {
        assert(o.skip(0) =~= o);
    } else {
        assert(o[0].0 != k);
        lemma_olookup_skip(o.drop_first(), k, i - 1);
        assert(o.drop_first().skip(i - 1) =~= o.skip(i));
    }
}

/// How lookup extends when one entry is appended.
pub proof fn lemma_olookup_push(o: Entries, e: (Seq<char>, JsonV), k: Seq<char>)
    ensures
        olookup(o, k) is Some ==> olookup(o.push(e), k) == olookup(o, k),
        olookup(o, k) is None && e.0 == k ==> olookup(o.push(e), k) == Some(e.1),
        olookup(o, k) is None && e.0 != k ==> olookup(o.push(e), k) is None,
    decreases o.len(),
{
    if o.len() == 0 {
        assert(o.push(e)[0] == e);
        assert(o.push(e).drop_first() =~= Seq::<(Seq<char>, JsonV)>::empty());
        assert(olookup(Seq::<(Seq<char>, JsonV)>::empty(), k) is None);
    } else {
        assert(o.push(e)[0] == o[0]);
        lemma_olookup_push(o.drop_first(), e, k);
        assert(o.push(e).drop_first() =~= o.drop_first().push(e));
        if o[0].0 == k {
            assert(olookup(o.push(e), k) == Some(o[0].1));
            assert(olookup(o, k) == Some(o[0].1));
        } else {
            assert(olookup(o.push(e), k) == olookup(o.drop_first().push(e), k));
            assert(olookup(o, k) == olookup(o.drop_first(), k));
        }
    }
}

/// How removal extends when one entry is appended.
pub proof fn lemma_oremove_push(o: Entries, e: (Seq<char>, JsonV), k: Seq<char>)
    ensures
        oremove(o.push(e), k) == if e.0 == k {
            oremove(o, k)
        } else {
            oremove(o, k).push(e)
        },
{
    assert(o.push(e).last() == e);
    assert(o.push(e).drop_last() =~= o);
}

/// Removing `k` erases `k` and leaves every other binding alone.
pub proof fn lemma_oremove_lookup(o: Entries, k: Seq<char>, k2: Seq<char>)
    ensures
        olookup(oremove(o, k), k) is None,
        k2 != k ==> olookup(oremove(o, k), k2) == olookup(o, k2),
    decreases o.len(),
{
    if o.len() > 0 {
        let o1 = o.drop_last();
        let e = o.last();
        lemma_oremove_lookup(o1, k, k2);
        assert(o1.push(e) =~= o);
        lemma_olookup_push(o1, e, k);
        lemma_olookup_push(o1, e, k2);
        if e.0 != k {
            lemma_olookup_push(oremove(o1, k), e, k);
            lemma_olookup_push(oremove(o1, k), e, k2);
        }
    }
}

/// Setting `k` binds `k` to `v` and leaves every other binding alone.
pub proof fn lemma_oset_lookup(o: Entries, k: Seq<char>, v: JsonV, k2: Seq<char>)
    ensures
        olookup(oset(o, k, v), k) == Some(v),
        k2 != k ==> olookup(oset(o, k, v), k2) == olookup(o, k2),
{
    lemma_oremove_lookup(o, k, k2);
    lemma_oremove_lookup(o, k, k);
    lemma_olookup_push(oremove(o, k), (k, v), k);
    lemma_olookup_push(oremove(o, k), (k, v), k2);
}

impl Json {
    /// A structurally identical copy.
    pub fn deep_clone(&self) -> (r: Json)
        ensures
            jv(r) == jv(*self),
        decreases *self,
    {
        match self {
            Json::Null => Json::Null,
            Json::Bool(b) => Json::Bool(*b),
            Json::Int(n) => Json::Int(*n),
            Json::NumRaw(s) => Json::NumRaw(s.clone()),
            Json::Str(s) => Json::Str(s.clone()),
            Json::Arr(a) => Json::Arr(clone_elems(a)),
            Json::Obj(o) => Json::Obj(clone_entries(o)),
        }
    }
}

/// A structurally identical copy of an array's elements.
fn clone_elems(a: &Vec<Json>) -> (r: Vec<Json>)
    ensures
        av(r@) == av(a@),
    decreases *a,
{
    let n = a.len();
    let mut out: Vec<Json> = Vec::new();
    let mut i: usize = 0;
    while i < n
        invariant
            n == a@.len(),
            i <= n,
            av(out@) == av(a@.take(i as int)),
        decreases n - i,
    {
        proof {
            assert(decreases_to!(*a => a@[i as int]));
        }
        let c = a[i].deep_clone();
        let ghost prev = out@;
        out.push(c);
        proof {
            assert(out@.drop_last() =~= prev);
            assert(a@.take(i + 1).drop_last() =~= a@.take(i as int));
            assert(a@.take(i + 1).last() == a@[i as int]);
            assert(av(out@) == av(prev).push(jv(c)));
            assert(av(a@.take(i + 1)) == av(a@.take(i as int)).push(jv(a@[i as int])));
        }
        i += 1;
    }
    proof {
        assert(a@.take(n as int) =~= a@);
    }
    out
}

/// A structurally identical copy of an object's entries.
fn clone_entries(o: &Vec<(String, Json)>) -> (r: Vec<(String, Json)>)
    ensures
        ov(r@) == ov(o@),
    decreases *o,
{
    let n = o.len();
    let mut out: Vec<(String, Json)> = Vec::new();
    let mut i: usize = 0;
    while i < n
        invariant
            n == o@.len(),
            i <= n,
            ov(out@) == ov(o@.take(i as int)),
        decreases n - i,
    {
        proof {
            assert(decreases_to!(*o => o@[i as int]));
            assert(decreases_to!(o@[i as int] => o@[i as int].1));
        }
        let ks = o[i].0.clone();
        let c = o[i].1.deep_clone();
        let ghost prev = out@;
        out.push((ks, c));
        proof {
            assert(out@.drop_last() =~= prev);
            assert(o@.take(i + 1).drop_last() =~= o@.take(i as int));
            assert(o@.take(i + 1).last() == o@[i as int]);
            assert(out@.last() == (ks, c));
            assert(ov(out@) == ov(prev).push((ks@, jv(c))));
            assert(ov(o@.take(i + 1)) == ov(o@.take(i as int)).push(
                (o@[i as int].0@, jv(o@[i as int].1)),
            ));
        }
        i += 1;
    }
    proof {
        assert(o@.take(n as int) =~= o@);
    }
    out
}

/// A reference to the value of the first entry named `key`.
pub fn obj_get<'a>(o: &'a Vec<(String, Json)>, key: &str) -> (r: Option<&'a Json>)
    ensures
        match r {
            Some(v) => olookup(ov(o@), key@) == Some(jv(*v)),
            None => olookup(ov(o@), key@) is None,
        },
{
    let n = o.len();
    let mut i: usize = 0;
    while i < n
        invariant
            n == o@.len(),
            i <= n,
            forall|j: int| 0 <= j < i ==> (#[trigger] o@[j]).0@ != key@,
        decreases n - i,
    {
        if crate::strutil::str_eq(o[i].0.as_str(), key) {
            proof {
                lemma_ov_index(o@);
                assert forall|j: int| 0 <= j < i implies (#[trigger] ov(o@)[j]).0 != key@ by {
                    assert(ov(o@)[j] == (o@[j].0@, jv(o@[j].1)));
                }
                lemma_olookup_skip(ov(o@), key@, i as int);
                assert(ov(o@).skip(i as int)[0] == ov(o@)[i as int]);
            }
            return Some(&o[i].1);
        }
        i += 1;
    }
    proof {
        lemma_ov_index(o@);
        assert forall|j: int| 0 <= j < n implies (#[trigger] ov(o@)[j]).0 != key@ by {
            assert(ov(o@)[j] == (o@[j].0@, jv(o@[j].1)));
        }
        lemma_olookup_skip(ov(o@), key@, n as int);
        assert(ov(o@).skip(n as int) =~= Seq::<(Seq<char>, JsonV)>::empty());
    }
    None
}

/// Remove every entry named `key`; hand back a copy of the first one's value.
pub fn obj_take(o: &mut Vec<(String, Json)>, key: &str) -> (r: Option<Json>)
    ensures
        ov(final(o)@) == oremove(ov(old(o)@), key@),
        match r {
            Some(v) => olookup(ov(old(o)@), key@) == Some(jv(v)),
            None => olookup(ov(old(o)@), key@) is None,
        },
{
    let n = o.len();
    let mut out: Vec<(String, Json)> = Vec::new();
    let mut found: Option<Json> = None;
    let mut i: usize = 0;
    while i < n
        invariant
            *o == *old(o),
            n == o@.len(),
            i <= n,
            ov(out@) == oremove(ov(o@.take(i as int)), key@),
            match found {
                Some(v) => olookup(ov(o@.take(i as int)), key@) == Some(jv(v)),
                None => olookup(ov(o@.take(i as int)), key@) is None,
            },
        decreases n - i,
    {
        let hit = crate::strutil::str_eq(o[i].0.as_str(), key);
        proof {
            assert(o@.take(i + 1).drop_last() =~= o@.take(i as int));
            assert(o@.take(i + 1).last() == o@[i as int]);
            let pv = ov(o@.take(i as int));
            let e = (o@[i as int].0@, jv(o@[i as int].1));
            assert(ov(o@.take(i + 1)) == pv.push(e));
            lemma_olookup_push(pv, e, key@);
            lemma_oremove_push(pv, e, key@);
        }
        if hit {
            match found {
                None => {
                    found = Some(o[i].1.deep_clone());
                },
                Some(_) => {},
            }
        } else {
            let ks = o[i].0.clone();
            let c = o[i].1.deep_clone();
            let ghost prev = out@;
            out.push((ks, c));
            proof {
                assert(out@.drop_last() =~= prev);
                assert(out@.last() == (ks, c));
                assert(ov(out@) == ov(prev).push((ks@, jv(c))));
            }
        }
        i += 1;
    }
    proof {
        assert(o@.take(n as int) =~= o@);
    }
    *o = out;
    found
}

/// Remove every entry named `key`.
pub fn obj_remove(o: &mut Vec<(String, Json)>, key: &str)
    ensures
        ov(final(o)@) == oremove(ov(old(o)@), key@),
{
    let _taken = obj_take(o, key);
}

/// Bind `key` to `v`, dropping any previous binding.
pub fn obj_set(o: &mut Vec<(String, Json)>, key: &str, v: Json)
    ensures
        ov(final(o)@) == oset(ov(old(o)@), key@, jv(v)),
{
    let _taken = obj_take(o, key);
    let ks = String::from_str(key);
    let ghost mid = o@;
    o.push((ks, v));
    proof {
        assert(o@.drop_last() =~= mid);
        assert(o@.last() == (ks, v));
    }
}

/// Append an entry built from a key literal and a value.
pub fn obj_push(o: &mut Vec<(String, Json)>, key: &str, v: Json)
    ensures
        ov(final(o)@) == ov(old(o)@).push((key@, jv(v))),
{
    let ks = String::from_str(key);
    let ghost mid = o@;
    o.push((ks, v));
    proof {
        assert(o@.drop_last() =~= mid);
        assert(o@.last() == (ks, v));
    }
}

/// Append an element to an array under construction.
pub fn arr_push(a: &mut Vec<Json>, v: Json)
    ensures
        av(final(a)@) == av(old(a)@).push(jv(v)),
{
    let ghost mid = a@;
    a.push(v);
    proof {
        assert(a@.drop_last() =~= mid);
    }
}

/// A string value from a literal.
pub fn jstr(s: &str) -> (r: Json)
    ensures
        jv(r) == JsonV::Str(s@),
{
    Json::Str(String::from_str(s))
}

/// An unsuccessful lookup means no entry bears the key at all.
pub proof fn lemma_olookup_none_no_key(o: Entries, k: Seq<char>)
    requires
        olookup(o, k) is None,
    ensures
        forall|i: int| 0 <= i < o.len() ==> (#[trigger] o[i]).0 != k,
    decreases o.len(),
{
    if o.len() > 0 {
        lemma_olookup_none_no_key(o.drop_first(), k);
        assert forall|i: int| 0 <= i < o.len() implies (#[trigger] o[i]).0 != k by {
            if i > 0 {
                assert(o.drop_first()[i - 1] == o[i]);
            }
        }
    }
}

/// Removing a key that is not bound changes nothing.
pub proof fn lemma_oremove_absent(o: Entries, k: Seq<char>)
    requires
        olookup(o, k) is None,
    ensures
        oremove(o, k) == o,
    decreases o.len(),
{
    lemma_olookup_none_no_key(o, k);
    lemma_oremove_no_key(o, k);
}

proof fn lemma_oremove_no_key(o: Entries, k: Seq<char>)
    requires
        forall|i: int| 0 <= i < o.len() ==> (#[trigger] o[i]).0 != k,
    ensures
        oremove(o, k) == o,
    decreases o.len(),
{
    if o.len() == 0 {
        assert(oremove(o, k) =~= o);
    } else {
        assert(o.last() == o[o.len() - 1]);
        assert forall|i: int| 0 <= i < o.drop_last().len() implies (#[trigger] o.drop_last()[i]).0
            != k by {
            assert(o.drop_last()[i] == o[i]);
        }
        lemma_oremove_no_key(o.drop_last(), k);
        assert(oremove(o, k) =~= o);
    }
}

/// Removing a key twice is the same as removing it once.
pub proof fn lemma_oremove_idem(o: Entries, k: Seq<char>)
    ensures
        oremove(oremove(o, k), k) == oremove(o, k),
{
    lemma_oremove_lookup(o, k, k);
    lemma_oremove_absent(oremove(o, k), k);
}

/// The first element of an array value.
pub open spec fn jarr_first(v: JsonV) -> Option<JsonV> {
    match v {
        JsonV::Arr(a) => if a.len() > 0 {
            Some(a[0])
        } else {
            None
        },
        _ => None,
    }
}

impl Json {
    /// A reference to field `key` of an object value; `None` on anything
    /// else.
    pub fn get<'a>(&'a self, key: &str) -> (r: Option<&'a Json>)
        ensures
            match r {
                Some(v) => jget(jv(*self), key@) == Some(jv(*v)),
                None => jget(jv(*self), key@) is None,
            },
    {
        match self {
            Json::Obj(o) => obj_get(o, key),
            _ => None,
        }
    }
}

/// A reference to the first element of an array value.
pub fn arr_first(j: &Json) -> (r: Option<&Json>)
    ensures
        match r {
            Some(v) => jarr_first(jv(*j)) == Some(jv(*v)),
            None => jarr_first(jv(*j)) is None,
        },
{
    match j {
        Json::Arr(a) => {
            if a.len() > 0 {
                proof {
                    lemma_av_index(a@);
                }
                Some(&a[0])
            } else {
                None
            }
        },
        _ => None,
    }
}

/// The integer value of field `key`, or `default` when absent or not an
/// integer.
pub fn int_field_or(j: &Json, key: &str, default: u64) -> (r: u64)
    ensures
        r == jget_int_or(jv(*j), key@, default),
{
    match j.get(key) {
        Some(Json::Int(n)) => *n,
        _ => default,
    }
}

} // verus!
