//! The writer that accumulates a query string: a stack of key segments, and
//! the two flags that place `&` separators and `key=` headers.

use vstd::prelude::*;
use vstd::string::*;

verus! {

/// The output sink refused a write: the rendering would have outgrown it.
#[derive(Debug, Clone, Copy, PartialEq, Eq)]
pub struct FormatError;

/// What a [`Formatter`] holds, as mathematical values.
#[verifier::ext_equal]
pub struct WriterState {
    /// The text written so far.
    pub out: Seq<char>,
    /// The key segments of the fields being rendered, outermost first.
    pub prefixes: Seq<Seq<char>>,
    /// Whether any value has been written yet.
    pub previous: bool,
    /// Whether the next write starts a new `key=value` pair.
    pub fresh: bool,
}

/// The state of a formatter that has written nothing.
pub open spec fn initial_state() -> WriterState {
    WriterState { out: Seq::empty(), prefixes: Seq::empty(), previous: false, fresh: true }
}

/// The segments joined by `.`.
pub open spec fn joined(segments: Seq<Seq<char>>) -> Seq<char>
    decreases segments.len(),
{
    if segments.len() == 0 {
        Seq::empty()
    } else if segments.len() == 1 {
        segments[0]
    } else {
        joined(segments.drop_last()) + seq!['.'] + segments.last()
    }
}

/// What is written before a chunk: nothing inside a pair; at the start of a
/// pair, `&` if a value came before, then the dotted key and `=` if there is
/// a key.
pub open spec fn key_header(st: WriterState) -> Seq<char> {
    if st.fresh {
        (if st.previous { seq!['&'] } else { Seq::empty() }) + (if st.prefixes.len() > 0 {
            joined(st.prefixes) + seq!['=']
        } else {
            Seq::empty()
        })
    } else {
        Seq::empty()
    }
}

/// The state after writing the chunk `s`.
pub open spec fn after_raw(st: WriterState, s: Seq<char>) -> WriterState {
    WriterState { out: st.out + key_header(st) + s, previous: true, fresh: false, ..st }
}

/// The state marked to start a new pair at the next write.
pub open spec fn refreshed(st: WriterState) -> WriterState {
    WriterState { fresh: true, ..st }
}

/// The state with one more key segment.
pub open spec fn pushed(st: WriterState, name: Seq<char>) -> WriterState {
    WriterState { prefixes: st.prefixes.push(name), ..st }
}

/// The state with its innermost key segment removed.
pub open spec fn popped(st: WriterState) -> WriterState {
    WriterState { prefixes: st.prefixes.drop_last(), ..st }
}

/// A query-string writer over a sink that holds at most `limit` characters.
pub struct Formatter {
    out: String,
    len: usize,
    limit: usize,
    prefixes: Vec<String>,
    previous: bool,
    fresh: bool,
}

impl View for Formatter {
    type V = WriterState;

    closed spec fn view(&self) -> WriterState {
        WriterState {
            out: self.out@,
            prefixes: self.prefixes@.map_values(|p: String| p@),
            previous: self.previous,
            fresh: self.fresh,
        }
    }
}

impl Formatter {
    /// The most characters the sink takes.
    pub closed spec fn limit(&self) -> nat {
        self.limit as nat
    }

    /// The count of written characters is kept, and stays within the limit.
    pub closed spec fn wf(&self) -> bool {
        &&& self.len == self.out@.len()
        &&& self.len <= self.limit
    }

    /// A well-formed formatter holds no more than its limit.
    pub proof fn lemma_within_limit(&self)
        requires
            self.wf(),
        ensures
            self@.out.len() <= self.limit(),
    {
    }

    /// A formatter that has written nothing, over a sink of `limit` characters.
    pub fn new(limit: usize) -> (r: Formatter)
        ensures
            r.wf(),
            r@ == initial_state(),
            r.limit() == limit,
    {
        let r = Formatter {
            out: String::new(),
            len: 0,
            limit,
            prefixes: Vec::new(),
            previous: false,
            fresh: true,
        };
        assert(r@.prefixes =~= Seq::<Seq<char>>::empty());
        r
    }

    /// The text written so far.
    pub fn as_str(&self) -> (r: &str)
        ensures
            r@ == self@.out,
    {
        self.out.as_str()
    }

    /// The written text, taken out of the formatter.
    pub fn finish(self) -> (r: String)
        ensures
            r@ == self@.out,
    {
        self.out
    }

    /// The header that the next write puts before its chunk.
    fn header(&self) -> (r: String)
        ensures
            r@ == key_header(self@),
    {
        let ghost views = self@.prefixes;
        let mut h = String::new();
        if self.fresh {
            if self.previous {
                proof {
                    reveal_strlit("&");
                }
                h.append("&");
            }
            let ghost lead = h@;
            if self.prefixes.len() > 0 {
                let mut i: usize = 0;
                while i < self.prefixes.len()
                    invariant
                        i <= self.prefixes.len(),
                        views == self@.prefixes,
                        views.len() == self.prefixes.len(),
                        h@ == lead + joined(views.take(i as int)),
                    decreases self.prefixes.len() - i,
                {
                    proof {
                        reveal_strlit(".");
                    }
                    if i > 0 {
                        h.append(".");
                    }
                    h.append(self.prefixes[i].as_str());
                    assert(views.take(i + 1).drop_last() =~= views.take(i as int));
                    assert(views[i as int] == self.prefixes[i as int]@);
                    i = i + 1;
                }
                assert(views.take(i as int) =~= views);
                proof {
                    reveal_strlit("=");
                }
                h.append("=");
            }
        }
        h
    }

    /// Writes `s` as it is, preceded by the header that starts a new pair
    /// when the formatter is fresh. Fails, writing nothing, when the sink
    /// cannot take it all.
    pub fn write_raw(&mut self, s: &str) -> (r: Result<(), FormatError>)
        requires
            old(self).wf(),
        ensures
            final(self).wf(),
            final(self).limit() == old(self).limit(),
            r is Ok <==> after_raw(old(self)@, s@).out.len() <= old(self).limit(),
            r is Ok ==> final(self)@ == after_raw(old(self)@, s@),
            r is Err ==> final(self)@ == old(self)@,
    {
        let h = self.header();
        let header_len = h.as_str().unicode_len();
        let chunk_len = s.unicode_len();
        if header_len > self.limit - self.len || chunk_len > self.limit - self.len - header_len {
            return Err(FormatError);
        }
        self.out.append(h.as_str());
        self.out.append(s);
        self.len = self.len + header_len + chunk_len;
        self.fresh = false;
        self.previous = true;
        Ok(())
    }

    /// Marks the formatter to start a new pair at the next write.
    pub fn refresh(&mut self)
        ensures
            final(self)@ == refreshed(old(self)@),
            final(self).wf() == old(self).wf(),
            final(self).limit() == old(self).limit(),
    {
        self.fresh = true;
    }

    /// Enters the field `name`: its segment joins the key.
    pub(crate) fn push_prefix(&mut self, name: &str)
        ensures
            final(self)@ == pushed(old(self)@, name@),
            final(self).wf() == old(self).wf(),
            final(self).limit() == old(self).limit(),
    {
        self.prefixes.push(name.to_owned());
        assert(final(self)@.prefixes =~= old(self)@.prefixes.push(name@));
    }

    /// Leaves the innermost field.
    pub(crate) fn pop_prefix(&mut self)
        requires
            old(self)@.prefixes.len() > 0,
        ensures
            final(self)@ == popped(old(self)@),
            final(self).wf() == old(self).wf(),
            final(self).limit() == old(self).limit(),
    {
        self.prefixes.pop();
        assert(final(self)@.prefixes =~= old(self)@.prefixes.drop_last());
    }
}

} // verus!
