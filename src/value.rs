//! Values that can be rendered, what rendering writes, and the renderer.

use vstd::prelude::*;
use vstd::utf8::encode_utf8;
use crate::encoding::{decimal, decimal_text, percent_encode, percent_encoded};
use crate::formatter::{
    after_raw, initial_state, popped, pushed, refreshed, FormatError, Formatter, WriterState,
};

verus! {

broadcast use vstd::seq::group_seq_axioms, vstd::std_specs::vec::group_vec_axioms;

/// A renderable value. A type with a renderer of its own is expressed
/// through `Raw`, `Pieces` and `Values`: what it writes, and whether it
/// continues the current pair or starts new ones.
#[derive(Debug, PartialEq, Eq)]
pub enum Value {
    /// Text, percent-encoded when written.
    Text(String),
    /// An integer, written in decimal.
    Int(i64),
    /// Text written as it is; a custom renderer's own output.
    Raw(String),
    /// Parts written one after another into the same pair.
    Pieces(Vec<Value>),
    /// Values written each as a pair of its own, under the current key.
    Values(Vec<Value>),
    /// A record with named fields: each field is a pair, or several, under
    /// the field's name appended to the current key. A field whose value
    /// writes nothing (an empty `Values`) adds nothing, so a record whose
    /// fields all write nothing renders as the empty string; a declaration
    /// without fields is rejected by the analysis instead.
    Record(Vec<Field>),
    /// A wrapper of one unnamed field, written as the field itself.
    Wrapper(Box<Value>),
}

/// A named field of a record.
#[derive(Debug, PartialEq, Eq)]
pub struct Field {
    pub name: String,
    pub value: Value,
}

/// The state after rendering `v` from state `st`.
pub open spec fn rendered_from(v: Value, st: WriterState) -> WriterState
    decreases v,
{
    match v {
        Value::Text(t) => after_raw(st, percent_encoded(encode_utf8(t@))),
        Value::Int(n) => after_raw(st, decimal(n as int)),
        Value::Raw(r) => after_raw(st, r@),
        Value::Pieces(vs) => sequence_from(vs@, false, st),
        Value::Values(vs) => sequence_from(vs@, true, st),
        Value::Record(fs) => fields_from(fs@, st),
        Value::Wrapper(inner) => refreshed(rendered_from(*inner, refreshed(st))),
    }
}

/// The state after rendering the values in order; with `each_fresh`, each
/// starts a pair of its own.
pub open spec fn sequence_from(vs: Seq<Value>, each_fresh: bool, st: WriterState) -> WriterState
    decreases vs,
{
    if vs.len() == 0 {
        st
    } else {
        let before = sequence_from(vs.drop_last(), each_fresh, st);
        if each_fresh {
            refreshed(rendered_from(vs.last(), refreshed(before)))
        } else {
            rendered_from(vs.last(), before)
        }
    }
}

/// The state after rendering the fields in order, each under its name.
pub open spec fn fields_from(fs: Seq<Field>, st: WriterState) -> WriterState
    decreases fs,
{
    if fs.len() == 0 {
        st
    } else {
        let before = fields_from(fs.drop_last(), st);
        let f = fs.last();
        refreshed(popped(refreshed(rendered_from(f.value, refreshed(pushed(refreshed(before), f.name@))))))
    }
}

/// The query string of `v`.
pub open spec fn rendered(v: Value) -> Seq<char> {
    rendered_from(v, initial_state()).out
}

/// The state after writing `v` as a value of its own: it starts a pair, and
/// whatever follows starts another.
pub open spec fn value_from(v: Value, st: WriterState) -> WriterState {
    refreshed(rendered_from(v, refreshed(st)))
}

/// The state after writing `v` as the field `name` of the current key.
pub open spec fn named_from(name: Seq<char>, v: Value, st: WriterState) -> WriterState {
    refreshed(popped(value_from(v, pushed(refreshed(st), name))))
}

/// Rendering only appends to the output, leaves the key segments as they
/// were, and never forgets that a value was written.
pub proof fn lemma_rendered_appends(v: Value, st: WriterState)
    ensures
        st.out.len() <= rendered_from(v, st).out.len(),
        rendered_from(v, st).prefixes == st.prefixes,
        st.previous ==> rendered_from(v, st).previous,
    decreases v,
{
    match v {
        Value::Pieces(vs) => lemma_sequence_appends(vs@, false, st),
        Value::Values(vs) => lemma_sequence_appends(vs@, true, st),
        Value::Record(fs) => lemma_fields_appends(fs@, st),
        Value::Wrapper(inner) => lemma_rendered_appends(*inner, refreshed(st)),
        _ => {},
    }
}

/// [`lemma_rendered_appends`] for a sequence of values.
pub proof fn lemma_sequence_appends(vs: Seq<Value>, each_fresh: bool, st: WriterState)
    ensures
        st.out.len() <= sequence_from(vs, each_fresh, st).out.len(),
        sequence_from(vs, each_fresh, st).prefixes == st.prefixes,
        st.previous ==> sequence_from(vs, each_fresh, st).previous,
    decreases vs,
{
    if vs.len() > 0 {
        lemma_sequence_appends(vs.drop_last(), each_fresh, st);
        let before = sequence_from(vs.drop_last(), each_fresh, st);
        if each_fresh {
            lemma_rendered_appends(vs.last(), refreshed(before));
        } else {
            lemma_rendered_appends(vs.last(), before);
        }
    }
}

/// [`lemma_rendered_appends`] for the fields of a record.
pub proof fn lemma_fields_appends(fs: Seq<Field>, st: WriterState)
    ensures
        st.out.len() <= fields_from(fs, st).out.len(),
        fields_from(fs, st).prefixes == st.prefixes,
        st.previous ==> fields_from(fs, st).previous,
    decreases fs,
{
    if fs.len() > 0 {
        lemma_fields_appends(fs.drop_last(), st);
        let before = fields_from(fs.drop_last(), st);
        let f = fs.last();
        let inner = pushed(refreshed(before), f.name@);
        lemma_rendered_appends(f.value, refreshed(inner));
        assert(inner.prefixes.drop_last() =~= before.prefixes);
    }
}

/// Rendering a sequence writes at least what rendering its first `k`
/// values writes.
proof fn lemma_sequence_take(vs: Seq<Value>, each_fresh: bool, st: WriterState, k: int)
    requires
        0 <= k <= vs.len(),
    ensures
        sequence_from(vs.take(k), each_fresh, st).out.len() <= sequence_from(vs, each_fresh, st).out.len(),
    decreases vs.len(),
{
    if k == vs.len() {
        assert(vs.take(k) =~= vs);
    } else {
        lemma_sequence_take(vs.drop_last(), each_fresh, st, k);
        assert(vs.drop_last().take(k) =~= vs.take(k));
        let before = sequence_from(vs.drop_last(), each_fresh, st);
        if each_fresh {
            lemma_rendered_appends(vs.last(), refreshed(before));
        } else {
            lemma_rendered_appends(vs.last(), before);
        }
    }
}

/// Rendering the fields writes at least what rendering the first `k` writes.
proof fn lemma_fields_take(fs: Seq<Field>, st: WriterState, k: int)
    requires
        0 <= k <= fs.len(),
    ensures
        fields_from(fs.take(k), st).out.len() <= fields_from(fs, st).out.len(),
    decreases fs.len(),
{
    if k == fs.len() {
        assert(fs.take(k) =~= fs);
    } else {
        lemma_fields_take(fs.drop_last(), st, k);
        assert(fs.drop_last().take(k) =~= fs.take(k));
        lemma_fields_appends(fs, st);
        lemma_fields_appends(fs.drop_last(), st);
        let before = fields_from(fs.drop_last(), st);
        let f = fs.last();
        lemma_rendered_appends(f.value, refreshed(pushed(refreshed(before), f.name@)));
    }
}

impl Value {
    /// Renders the value into `f`. Fails exactly when the sink cannot take
    /// all that rendering writes.
    pub fn fmt(&self, f: &mut Formatter) -> (r: Result<(), FormatError>)
        requires
            old(f).wf(),
        ensures
            final(f).wf(),
            final(f).limit() == old(f).limit(),
            r is Ok <==> rendered_from(*self, old(f)@).out.len() <= old(f).limit(),
            r is Ok ==> final(f)@ == rendered_from(*self, old(f)@),
        decreases self, 0nat,
    {
        match self {
            Value::Text(t) => {
                let encoded = percent_encode(t.as_str());
                f.write_raw(encoded.as_str())
            },
            Value::Int(n) => {
                let digits = decimal_text(*n);
                f.write_raw(digits.as_str())
            },
            Value::Raw(text) => f.write_raw(text.as_str()),
            Value::Pieces(vs) => fmt_sequence(vs, false, f),
            Value::Values(vs) => fmt_sequence(vs, true, f),
            Value::Record(fs) => fmt_fields(fs, f),
            Value::Wrapper(inner) => f.write_value(inner),
        }
    }
}

/// Renders the values in order; with `each_fresh`, each as a value of its own.
fn fmt_sequence(vs: &Vec<Value>, each_fresh: bool, f: &mut Formatter) -> (r: Result<(), FormatError>)
    requires
        old(f).wf(),
    ensures
        final(f).wf(),
        final(f).limit() == old(f).limit(),
        r is Ok <==> sequence_from(vs@, each_fresh, old(f)@).out.len() <= old(f).limit(),
        r is Ok ==> final(f)@ == sequence_from(vs@, each_fresh, old(f)@),
    decreases vs, 0nat,
{
    let ghost start = f@;
    let ghost limit = f.limit();
    let mut i: usize = 0;
    while i < vs.len()
        invariant
            i <= vs.len(),
            f.wf(),
            f.limit() == limit,
            start == old(f)@,
            limit == old(f).limit(),
            f@ == sequence_from(vs@.take(i as int), each_fresh, start),
        decreases vs.len() - i,
    {
        assert(vs@.take(i + 1).drop_last() =~= vs@.take(i as int));
        let r = if each_fresh {
            f.write_value(&vs[i])
        } else {
            vs[i].fmt(f)
        };
        if r.is_err() {
            proof {
                lemma_sequence_take(vs@, each_fresh, start, i + 1);
            }
            return r;
        }
        i = i + 1;
    }
    assert(vs@.take(i as int) =~= vs@);
    proof {
        f.lemma_within_limit();
    }
    Ok(())
}

/// Renders the fields in order, each under its name.
fn fmt_fields(fs: &Vec<Field>, f: &mut Formatter) -> (r: Result<(), FormatError>)
    requires
        old(f).wf(),
    ensures
        final(f).wf(),
        final(f).limit() == old(f).limit(),
        r is Ok <==> fields_from(fs@, old(f)@).out.len() <= old(f).limit(),
        r is Ok ==> final(f)@ == fields_from(fs@, old(f)@),
    decreases fs, 0nat,
{
    let ghost start = f@;
    let ghost limit = f.limit();
    let mut i: usize = 0;
    while i < fs.len()
        invariant
            i <= fs.len(),
            f.wf(),
            f.limit() == limit,
            start == old(f)@,
            limit == old(f).limit(),
            f@ == fields_from(fs@.take(i as int), start),
        decreases fs.len() - i,
    {
        assert(fs@.take(i + 1).drop_last() =~= fs@.take(i as int));
        let r = f.write_named_value(fs[i].name.as_str(), &fs[i].value);
        if r.is_err() {
            proof {
                lemma_fields_take(fs@, start, i + 1);
            }
            return r;
        }
        i = i + 1;
    }
    assert(fs@.take(i as int) =~= fs@);
    proof {
        f.lemma_within_limit();
    }
    Ok(())
}

impl Formatter {
    /// Writes `v` as a value of its own under the current key: it starts a
    /// pair, and whatever is written next starts another.
    pub fn write_value(&mut self, v: &Value) -> (r: Result<(), FormatError>)
        requires
            old(self).wf(),
        ensures
            final(self).wf(),
            final(self).limit() == old(self).limit(),
            r is Ok <==> value_from(*v, old(self)@).out.len() <= old(self).limit(),
            r is Ok ==> final(self)@ == value_from(*v, old(self)@),
        decreases v, 1nat,
    {
        self.refresh();
        let r = v.fmt(self);
        if r.is_ok() {
            self.refresh();
        }
        r
    }

    /// Writes `v` as the field `name`: under the current key with `name`
    /// appended, as a value of its own.
    pub fn write_named_value(&mut self, name: &str, v: &Value) -> (r: Result<(), FormatError>)
        requires
            old(self).wf(),
        ensures
            final(self).wf(),
            final(self).limit() == old(self).limit(),
            r is Ok <==> named_from(name@, *v, old(self)@).out.len() <= old(self).limit(),
            r is Ok ==> final(self)@ == named_from(name@, *v, old(self)@),
        decreases v, 2nat,
    {
        self.refresh();
        self.push_prefix(name);
        let r = self.write_value(v);
        if r.is_err() {
            return r;
        }
        proof {
            lemma_rendered_appends(*v, refreshed(pushed(refreshed(old(self)@), name@)));
        }
        self.pop_prefix();
        self.refresh();
        Ok(())
    }
}

/// Renders `v` as a query string into a sink of at most `limit` characters.
pub fn render_with_limit(v: &Value, limit: usize) -> (r: Result<String, FormatError>)
    ensures
        r is Ok <==> rendered(*v).len() <= limit,
        r matches Ok(s) ==> s@ == rendered(*v),
{
    let mut f = Formatter::new(limit);
    match v.fmt(&mut f) {
        Ok(()) => Ok(f.finish()),
        Err(e) => Err(e),
    }
}

/// Renders `v` as a query string. Fails only where the string would be
/// longer than the address space can count.
pub fn render(v: &Value) -> (r: Result<String, FormatError>)
    ensures
        r is Ok <==> rendered(*v).len() <= usize::MAX,
        r matches Ok(s) ==> s@ == rendered(*v),
{
    render_with_limit(v, usize::MAX)
}

} // verus!
