//! Properties of rendering and of the analysis, stated over the spec
//! functions that the library's contracts use.

use vstd::prelude::*;
use vstd::utf8::encode_utf8;
use crate::encoding::{decimal, percent_encoded};
use crate::formatter::{
    after_raw, initial_state, joined, key_header, popped, pushed, refreshed, WriterState,
};
use crate::shape::{arm_layout, decl_error, laid_out, Body, Decl, DiagnosticKind, Fields, generics_error};
use crate::value::{
    fields_from, lemma_fields_appends, lemma_rendered_appends, lemma_sequence_appends, named_from,
    rendered, rendered_from, sequence_from, Field, Value,
};

verus! {

broadcast use vstd::seq::group_seq_axioms, vstd::std_specs::vec::group_vec_axioms;

/// A value written in one chunk: text, an integer or a custom renderer's
/// raw output.
pub open spec fn is_flat(v: Value) -> bool {
    v is Text || v is Int || v is Raw
}

/// The chunk that a flat value writes.
pub open spec fn flat_text(v: Value) -> Seq<char> {
    match v {
        Value::Text(t) => percent_encoded(encode_utf8(t@)),
        Value::Int(n) => decimal(n as int),
        Value::Raw(r) => r@,
        _ => Seq::empty(),
    }
}

/// Every field of the record holds a flat value.
pub open spec fn all_flat(fs: Seq<Field>) -> bool {
    forall|i: int| 0 <= i < fs.len() ==> is_flat(#[trigger] fs[i].value)
}

/// The pairs `key=value` of flat fields joined by `&`, each key being the
/// segments `prefix` and the field's name joined by `.`.
pub open spec fn keyed_pairs(prefix: Seq<Seq<char>>, fs: Seq<Field>) -> Seq<char>
    decreases fs.len(),
{
    if fs.len() == 0 {
        Seq::empty()
    } else {
        let pair = joined(prefix.push(fs.last().name@)) + seq!['='] + flat_text(fs.last().value);
        if fs.len() == 1 {
            pair
        } else {
            keyed_pairs(prefix, fs.drop_last()) + seq!['&'] + pair
        }
    }
}

/// Flat fields rendered at the start of a pair add their pairs to the
/// output, after an `&` if a value came before.
proof fn lemma_flat_fields(fs: Seq<Field>, st: WriterState)
    requires
        st.fresh,
        all_flat(fs),
    ensures
        fields_from(fs, st).out == st.out + (if fs.len() == 0 {
            Seq::empty()
        } else {
            (if st.previous { seq!['&'] } else { Seq::<char>::empty() }) + keyed_pairs(st.prefixes, fs)
        }),
        fields_from(fs, st).prefixes == st.prefixes,
        fields_from(fs, st).previous == (st.previous || fs.len() > 0),
        fields_from(fs, st).fresh,
    decreases fs.len(),
{
    if fs.len() > 0 {
        let rest = fs.drop_last();
        assert(all_flat(rest)) by {
            assert forall|i: int| 0 <= i < rest.len() implies is_flat(#[trigger] rest[i].value) by {
                assert(rest[i] == fs[i]);
            }
        }
        assert(is_flat(fs[fs.len() - 1].value));
        lemma_flat_fields(rest, st);
        let before = fields_from(rest, st);
        let f = fs.last();
        let inner = refreshed(pushed(refreshed(before), f.name@));
        assert(inner.prefixes == st.prefixes.push(f.name@));
        assert(inner.prefixes.drop_last() =~= st.prefixes);
        assert(rendered_from(f.value, inner) == after_raw(inner, flat_text(f.value)));
        let amp = if before.previous { seq!['&'] } else { Seq::<char>::empty() };
        assert(key_header(inner) == amp + joined(st.prefixes.push(f.name@)) + seq!['=']);
        let pair = joined(st.prefixes.push(f.name@)) + seq!['='] + flat_text(f.value);
        assert(fields_from(fs, st).out == before.out + key_header(inner) + flat_text(f.value));
        if fs.len() == 1 {
            assert(rest.len() == 0);
            assert(fields_from(fs, st).out =~= st.out + (if st.previous { seq!['&'] } else { Seq::<char>::empty() }) + pair);
        } else {
            assert(fields_from(fs, st).out =~= st.out + (if st.previous { seq!['&'] } else { Seq::<char>::empty() }) + keyed_pairs(st.prefixes, rest) + seq!['&'] + pair);
        }
    }
}

/// A record of flat fields `f1..fn` renders exactly as
/// `f1=v1&f2=v2&...&fn=vn`, in declaration order, each value in its
/// encoding, with no `&` at either end.
pub proof fn lemma_flat_record(fs: Vec<Field>)
    requires
        all_flat(fs@),
    ensures
        rendered(Value::Record(fs)) == keyed_pairs(Seq::empty(), fs@),
{
    lemma_flat_fields(fs@, initial_state());
    assert(rendered(Value::Record(fs)) =~= keyed_pairs(Seq::empty(), fs@));
}

/// A record whose one field `outer` is a record of flat fields renders
/// those fields' pairs with keys `outer.name`.
pub proof fn lemma_nested_record(fs: Vec<Field>, inner: Vec<Field>)
    requires
        fs@.len() == 1,
        fs@[0].value == Value::Record(inner),
        all_flat(inner@),
    ensures
        rendered(Value::Record(fs)) == keyed_pairs(seq![fs@[0].name@], inner@),
{
    let f = fs@[0];
    let st = WriterState { prefixes: seq![f.name@], ..initial_state() };
    assert(fields_from(fs@.drop_last(), initial_state()) == initial_state());
    let inner_state = refreshed(pushed(refreshed(initial_state()), f.name@));
    assert(inner_state.prefixes =~= st.prefixes);
    assert(inner_state == st);
    assert(rendered_from(f.value, st) == fields_from(inner@, st));
    lemma_flat_fields(inner@, st);
    assert(fs@.last() == f);
    assert(fields_from(fs@, initial_state()).out == rendered_from(f.value, inner_state).out);
    assert(rendered(Value::Record(fs)) == fields_from(fs@, initial_state()).out);
    assert(rendered(Value::Record(fs)) =~= keyed_pairs(seq![f.name@], inner@));
}

/// A wrapper of one field renders exactly as the field would on its own.
pub proof fn lemma_wrapper_transparent(v: Value)
    ensures
        rendered(Value::Wrapper(Box::new(v))) == rendered(v),
{
    assert(WriterState { fresh: true, ..initial_state() } == initial_state());
}

/// The value of a declared type renders by its active arm alone: two shapes
/// that agree on that arm give values that render alike, whatever their
/// other arms are.
pub proof fn lemma_active_arm_only(
    s1: crate::shape::Shape,
    s2: crate::shape::Shape,
    arm: int,
    fields: Seq<Value>,
    v1: Value,
    v2: Value,
)
    requires
        arm_layout(s1, arm) is Some,
        arm_layout(s1, arm) == arm_layout(s2, arm),
        laid_out(arm_layout(s1, arm).unwrap(), fields, v1),
        laid_out(arm_layout(s2, arm).unwrap(), fields, v2),
    ensures
        rendered(v1) == rendered(v2),
{
    match (v1, v2) {
        (Value::Record(fs1), Value::Record(fs2)) => {
            assert(fs1@ =~= fs2@);
        },
        _ => {},
    }
}

/// A struct whose field list is empty is rejected when analysed, so no
/// record renders as an empty string for want of fields.
pub proof fn lemma_empty_record_rejected(d: Decl)
    requires
        generics_error(d.generics@) is None,
        d.body matches Body::Struct(fields) && (fields == Fields::Unnamed(0) || (fields matches Fields::Named(names) && names.len() == 0)),
    ensures
        decl_error(d) matches Some(e) && e.kind == DiagnosticKind::NoFields && e.loc == d.loc,
{
}

/// The state `st` with nothing written yet: its key context alone.
pub open spec fn cleared(st: WriterState) -> WriterState {
    WriterState { out: Seq::empty(), ..st }
}

/// The state `st` with `pre` written before its output.
pub open spec fn shifted(pre: Seq<char>, st: WriterState) -> WriterState {
    WriterState { out: pre + st.out, ..st }
}

/// What rendering writes, and the state it leaves, depend on the key
/// context alone (the key segments and the two flags), never on what was
/// written before.
pub proof fn lemma_rendered_shift(v: Value, st: WriterState)
    ensures
        rendered_from(v, st) == shifted(st.out, rendered_from(v, cleared(st))),
    decreases v,
{
    match v {
        Value::Pieces(vs) => lemma_sequence_shift(vs@, false, st),
        Value::Values(vs) => lemma_sequence_shift(vs@, true, st),
        Value::Record(fs) => lemma_fields_shift(fs@, st),
        Value::Wrapper(inner) => {
            lemma_rendered_shift(*inner, refreshed(st));
            assert(cleared(refreshed(st)) == refreshed(cleared(st)));
            assert(rendered_from(v, st) =~= shifted(st.out, rendered_from(v, cleared(st))));
        },
        _ => {
            assert(key_header(cleared(st)) == key_header(st));
            assert(rendered_from(v, st) =~= shifted(st.out, rendered_from(v, cleared(st))));
        },
    }
}

/// [`lemma_rendered_shift`] for a sequence of values.
pub proof fn lemma_sequence_shift(vs: Seq<Value>, each_fresh: bool, st: WriterState)
    ensures
        sequence_from(vs, each_fresh, st) == shifted(st.out, sequence_from(vs, each_fresh, cleared(st))),
    decreases vs,
{
    if vs.len() == 0 {
        assert(st =~= shifted(st.out, cleared(st)));
    } else {
        lemma_sequence_shift(vs.drop_last(), each_fresh, st);
        let before = sequence_from(vs.drop_last(), each_fresh, st);
        let base = sequence_from(vs.drop_last(), each_fresh, cleared(st));
        let start = if each_fresh { refreshed(before) } else { before };
        let base_start = if each_fresh { refreshed(base) } else { base };
        lemma_rendered_shift(vs.last(), start);
        lemma_rendered_shift(vs.last(), base_start);
        assert(cleared(start) == cleared(base_start));
        assert(sequence_from(vs, each_fresh, st) =~= shifted(st.out, sequence_from(vs, each_fresh, cleared(st))));
    }
}

/// [`lemma_rendered_shift`] for the fields of a record.
pub proof fn lemma_fields_shift(fs: Seq<Field>, st: WriterState)
    ensures
        fields_from(fs, st) == shifted(st.out, fields_from(fs, cleared(st))),
    decreases fs,
{
    if fs.len() == 0 {
        assert(st =~= shifted(st.out, cleared(st)));
    } else {
        lemma_fields_shift(fs.drop_last(), st);
        let f = fs.last();
        let before = fields_from(fs.drop_last(), st);
        let base = fields_from(fs.drop_last(), cleared(st));
        let start = refreshed(pushed(refreshed(before), f.name@));
        let base_start = refreshed(pushed(refreshed(base), f.name@));
        lemma_rendered_shift(f.value, start);
        lemma_rendered_shift(f.value, base_start);
        assert(cleared(start) == cleared(base_start));
        assert(fields_from(fs, st) =~= shifted(st.out, fields_from(fs, cleared(st))));
    }
}

/// Rendering a value twice, into two writers in the same key context,
/// appends the same text to each and leaves them in the same context,
/// whatever each held before; from the start it gives one and the same
/// query string.
pub proof fn lemma_render_repeatable(v: Value, x: WriterState, y: WriterState)
    requires
        cleared(x) == cleared(y),
    ensures
        rendered_from(v, x) == shifted(x.out, rendered_from(v, cleared(x))),
        rendered_from(v, y) == shifted(y.out, rendered_from(v, cleared(x))),
{
    lemma_rendered_shift(v, x);
    lemma_rendered_shift(v, y);
}

/// The state `st` after some value has been written.
pub open spec fn with_previous(st: WriterState) -> WriterState {
    WriterState { previous: true, ..st }
}

/// How rendering from a fresh key context with no value before (`a`) and
/// with one before (`b`) compare: `b` writes what `a` writes after one `&`,
/// or nothing when `a` writes nothing.
pub open spec fn after_previous(a: WriterState, b: WriterState) -> bool {
    &&& b.out == (if a.out.len() > 0 { seq!['&'] + a.out } else { Seq::<char>::empty() })
    &&& b.previous
    &&& a.previous == (a.out.len() > 0)
    &&& a.fresh == b.fresh
    &&& a.prefixes == b.prefixes
    &&& a.out.len() == 0 ==> a.fresh
}

/// Under a key, at the start of a pair, a value that came before only adds
/// one `&` in front of what rendering writes, and only if it writes
/// anything.
pub proof fn lemma_rendered_after_previous(v: Value, st: WriterState)
    requires
        st.fresh,
        !st.previous,
        st.prefixes.len() > 0,
        st.out.len() == 0,
    ensures
        after_previous(rendered_from(v, st), rendered_from(v, with_previous(st))),
    decreases v,
{
    match v {
        Value::Pieces(vs) => lemma_sequence_after_previous(vs@, false, st),
        Value::Values(vs) => lemma_sequence_after_previous(vs@, true, st),
        Value::Record(fs) => lemma_fields_after_previous(fs@, st),
        Value::Wrapper(inner) => {
            assert(refreshed(st) == st);
            assert(refreshed(with_previous(st)) == with_previous(st));
            lemma_rendered_after_previous(*inner, st);
        },
        _ => {
            let amp: Seq<char> = seq!['&'];
            assert(key_header(with_previous(st)) =~= amp + key_header(st));
            let a = rendered_from(v, st);
            let b = rendered_from(v, with_previous(st));
            assert(b.out =~= amp + a.out);
        },
    }
}

/// [`lemma_rendered_after_previous`] for a sequence of values.
pub proof fn lemma_sequence_after_previous(vs: Seq<Value>, each_fresh: bool, st: WriterState)
    requires
        st.fresh,
        !st.previous,
        st.prefixes.len() > 0,
        st.out.len() == 0,
    ensures
        after_previous(sequence_from(vs, each_fresh, st), sequence_from(vs, each_fresh, with_previous(st))),
    decreases vs,
{
    assert(st.out =~= Seq::<char>::empty());
    if vs.len() > 0 {
        let rest = vs.drop_last();
        lemma_sequence_after_previous(rest, each_fresh, st);
        lemma_sequence_appends(rest, each_fresh, st);
        let before_a = sequence_from(rest, each_fresh, st);
        let before_b = sequence_from(rest, each_fresh, with_previous(st));
        let start_a = if each_fresh { refreshed(before_a) } else { before_a };
        let start_b = if each_fresh { refreshed(before_b) } else { before_b };
        let end_a = rendered_from(vs.last(), start_a);
        let end_b = rendered_from(vs.last(), start_b);
        assert(sequence_from(vs, each_fresh, st) == if each_fresh { refreshed(end_a) } else { end_a });
        assert(sequence_from(vs, each_fresh, with_previous(st)) == if each_fresh { refreshed(end_b) } else { end_b });
        if before_a.out.len() == 0 {
            assert(start_a =~= st);
            assert(start_b =~= with_previous(st));
            lemma_rendered_after_previous(vs.last(), st);
            assert(after_previous(end_a, end_b));
        } else {
            assert(cleared(start_a) =~= cleared(start_b));
            lemma_render_repeatable(vs.last(), start_a, start_b);
            lemma_rendered_appends(vs.last(), cleared(start_a));
            let amp: Seq<char> = seq!['&'];
            let tail = rendered_from(vs.last(), cleared(start_a)).out;
            assert(before_b.out + tail =~= amp + (before_a.out + tail));
            assert(after_previous(end_a, end_b));
        }
    }
}

/// [`lemma_rendered_after_previous`] for the fields of a record.
pub proof fn lemma_fields_after_previous(fs: Seq<Field>, st: WriterState)
    requires
        st.fresh,
        !st.previous,
        st.prefixes.len() > 0,
        st.out.len() == 0,
    ensures
        after_previous(fields_from(fs, st), fields_from(fs, with_previous(st))),
    decreases fs,
{
    assert(st.out =~= Seq::<char>::empty());
    if fs.len() > 0 {
        let rest = fs.drop_last();
        let f = fs.last();
        lemma_fields_after_previous(rest, st);
        lemma_fields_appends(rest, st);
        let before_a = fields_from(rest, st);
        let before_b = fields_from(rest, with_previous(st));
        let start_a = refreshed(pushed(refreshed(before_a), f.name@));
        let start_b = refreshed(pushed(refreshed(before_b), f.name@));
        let end_a = rendered_from(f.value, start_a);
        let end_b = rendered_from(f.value, start_b);
        assert(fields_from(fs, st) == refreshed(popped(refreshed(end_a))));
        assert(fields_from(fs, with_previous(st)) == refreshed(popped(refreshed(end_b))));
        if before_a.out.len() == 0 {
            assert(start_b =~= with_previous(start_a));
            lemma_rendered_after_previous(f.value, start_a);
            lemma_rendered_appends(f.value, start_a);
            lemma_rendered_appends(f.value, start_b);
            assert(after_previous(end_a, end_b));
        } else {
            assert(cleared(start_a) =~= cleared(start_b));
            lemma_render_repeatable(f.value, start_a, start_b);
            lemma_rendered_appends(f.value, cleared(start_a));
            let amp: Seq<char> = seq!['&'];
            let tail = rendered_from(f.value, cleared(start_a)).out;
            assert(before_b.out + tail =~= amp + (before_a.out + tail));
            assert(after_previous(end_a, end_b));
        }
    }
}

/// What the field `f` renders on its own, as the one field of a record.
pub open spec fn field_text(f: Field) -> Seq<char> {
    named_from(f.name@, f.value, initial_state()).out
}

/// The fields' own texts in order, joined by `&`, leaving out the empty ones.
pub open spec fn joined_field_texts(fs: Seq<Field>) -> Seq<char>
    decreases fs.len(),
{
    if fs.len() == 0 {
        Seq::empty()
    } else {
        let rest = joined_field_texts(fs.drop_last());
        let t = field_text(fs.last());
        if t.len() == 0 {
            rest
        } else if rest.len() == 0 {
            t
        } else {
            rest + seq!['&'] + t
        }
    }
}

/// The state after rendering fields from the start is their joined texts,
/// outside any key, ready for a new pair.
proof fn lemma_fields_join(fs: Seq<Field>)
    ensures
        fields_from(fs, initial_state()) == (WriterState {
            out: joined_field_texts(fs),
            prefixes: Seq::empty(),
            previous: joined_field_texts(fs).len() > 0,
            fresh: true,
        }),
    decreases fs.len(),
{
    if fs.len() == 0 {
        assert(initial_state() =~= WriterState {
            out: joined_field_texts(fs),
            prefixes: Seq::empty(),
            previous: false,
            fresh: true,
        });
    } else {
        let rest = fs.drop_last();
        let f = fs.last();
        lemma_fields_join(rest);
        let before = fields_from(rest, initial_state());
        let start = refreshed(pushed(refreshed(before), f.name@));
        let alone = refreshed(pushed(refreshed(initial_state()), f.name@));
        lemma_rendered_shift(f.value, start);
        lemma_rendered_after_previous(f.value, alone);
        lemma_rendered_appends(f.value, alone);
        lemma_rendered_appends(f.value, with_previous(alone));
        if before.out.len() == 0 {
            assert(cleared(start) =~= alone);
        } else {
            assert(cleared(start) =~= with_previous(alone));
        }
        let end = rendered_from(f.value, start);
        assert(fields_from(fs, initial_state()) == refreshed(popped(refreshed(end))));
        assert(field_text(f) == rendered_from(f.value, alone).out);
        assert(alone.prefixes.drop_last() =~= Seq::<Seq<char>>::empty());
        let amp: Seq<char> = seq!['&'];
        if before.out.len() > 0 && field_text(f).len() > 0 {
            assert(before.out + (amp + field_text(f)) =~= before.out + amp + field_text(f));
        }
        if before.out.len() == 0 {
            assert(before.out + field_text(f) =~= field_text(f));
        }
        assert(before.out + Seq::<char>::empty() =~= before.out);
        assert(fields_from(fs, initial_state()) =~= WriterState {
            out: joined_field_texts(fs),
            prefixes: Seq::empty(),
            previous: joined_field_texts(fs).len() > 0,
            fresh: true,
        });
    }
}

/// A record renders as its fields' own texts, in declaration order, joined
/// by single `&`s: a field that writes several pairs adds them all once,
/// one that writes none adds nothing, and no `&` is doubled or left at
/// either end.
pub proof fn lemma_record_joins_fields(fs: Vec<Field>)
    ensures
        rendered(Value::Record(fs)) == joined_field_texts(fs@),
{
    lemma_fields_join(fs@);
}

} // verus!
