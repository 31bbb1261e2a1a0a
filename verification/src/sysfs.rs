//! Line-oriented text files of the kernel (`/proc/modules`,
//! `/proc/self/mounts`, ...), read one entry per line.

use vstd::prelude::*;
use crate::text::{
    chars_of, lemma_line_len_append, lemma_line_len_bounds, line_end, line_len, slice_chars,
    string_of, trim, trim_chars,
};

verus! {

/// An entry that can be read from one (trimmed) line of a kernel text file.
pub trait SysfsEntryParsable<T: View> {
    /// The entry that `line` describes, if it describes one.
    spec fn spec_parse(line: Seq<char>) -> Option<T::V>;

    fn parse(line: &str) -> (r: Option<T>)
        ensures
            match r {
                Some(e) => Self::spec_parse(line@) == Some(e@),
                None => Self::spec_parse(line@) is None,
            },
    ;
}

/// The entries that the text `s` holds: every line, trimmed, that the entry
/// type can parse, in order. A line ends after its `'\n'`, or at the end of
/// the text.
pub open spec fn parse_entries<T: View, P: SysfsEntryParsable<T>>(s: Seq<char>) -> Seq<T::V>
    decreases s.len(),
{
    if s.len() == 0 {
        Seq::empty()
    } else {
        let n = line_len(s);
        proof {
            lemma_line_len_bounds(s);
        }
        let rest = parse_entries::<T, P>(s.skip(n as int));
        match P::spec_parse(trim(s.take(n as int))) {
            Some(e) => seq![e] + rest,
            None => rest,
        }
    }
}

/// Lines are read on their own: the entries of two texts, the first of
/// them ending its last line, are those of the first followed by those of
/// the second.
pub proof fn lemma_parse_entries_append<T: View, P: SysfsEntryParsable<T>>(a: Seq<char>, b: Seq<char>)
    requires
        a.len() == 0 || a.last() == '\n',
    ensures
        parse_entries::<T, P>(a + b) == parse_entries::<T, P>(a) + parse_entries::<T, P>(b),
    decreases a.len(),
{
    if a.len() == 0 {
        assert(a + b =~= b);
    } else {
        lemma_line_len_append(a, b);
        let n = line_len(a);
        lemma_line_len_bounds(a);
        assert((a + b).take(n as int) =~= a.take(n as int));
        assert((a + b).skip(n as int) =~= a.skip(n as int) + b);
        let rest = a.skip(n as int);
        assert(rest.len() == 0 || rest.last() == a.last());
        lemma_parse_entries_append::<T, P>(rest, b);
        match P::spec_parse(trim(a.take(n as int))) {
            Some(e) => {
                assert(seq![e] + (parse_entries::<T, P>(rest) + parse_entries::<T, P>(b)) =~= (
                seq![e] + parse_entries::<T, P>(rest)) + parse_entries::<T, P>(b));
            },
            None => {},
        }
    }
}

/// Reads the entries of a kernel text file one at a time.
pub struct SysfsEntryIter<T> {
    data: Vec<char>,
    pos: usize,
    evaluator: core::marker::PhantomData<T>,
}

impl<T: View + SysfsEntryParsable<T>> SysfsEntryIter<T> {
    /// The entries not yet returned.
    pub closed spec fn remaining(&self) -> Seq<T::V> {
        parse_entries::<T, T>(self.data@.skip(self.pos as int))
    }

    pub closed spec fn wf(&self) -> bool {
        self.pos <= self.data@.len()
    }

    /// Iterates over the entries of the text `s`.
    pub fn from_string(s: &str) -> (it: Self)
        ensures
            it.wf(),
            it.remaining() == parse_entries::<T, T>(s@),
    {
        let data = chars_of(s);
        assert(data@.skip(0) =~= data@);
        SysfsEntryIter { data, pos: 0, evaluator: core::marker::PhantomData }
    }

    /// The next entry, or `None` when no line is left that parses.
    pub fn next(&mut self) -> (r: Option<T>)
        requires
            old(self).wf(),
        ensures
            final(self).wf(),
            match r {
                Some(e) => {
                    &&& old(self).remaining().len() > 0
                    &&& e@ == old(self).remaining()[0]
                    &&& final(self).remaining() == old(self).remaining().drop_first()
                },
                None => {
                    &&& old(self).remaining() == Seq::<T::V>::empty()
                    &&& final(self).remaining() == Seq::<T::V>::empty()
                },
            },
    {
        let ghost start = self.remaining();
        loop
            invariant
                self.pos <= self.data@.len(),
                start == self.remaining(),
                start == old(self).remaining(),
            decreases self.data@.len() - self.pos,
        {
            if self.pos >= self.data.len() {
                assert(self.data@.skip(self.pos as int) =~= Seq::<char>::empty());
                assert(self.remaining() == Seq::<T::V>::empty());
                return None;
            }
            let end = line_end(&self.data, self.pos);
            let ghost s = self.data@.skip(self.pos as int);
            proof {
                lemma_line_len_bounds(s);
            }
            let line = slice_chars(&self.data, self.pos, end);
            assert(line@ =~= s.take((end - self.pos) as int));
            assert(s.skip((end - self.pos) as int) =~= self.data@.skip(end as int));
            let trimmed = trim_chars(&line);
            let ghost n = (end - self.pos) as int;
            self.pos = end;
            let text = string_of(trimmed.as_slice());
            let parsed = T::parse(text.as_str());
            assert(parse_entries::<T, T>(s) == match T::spec_parse(trim(s.take(n))) {
                Some(e) => seq![e] + parse_entries::<T, T>(s.skip(n)),
                None => parse_entries::<T, T>(s.skip(n)),
            });
            if let Some(e) = parsed {
                assert((seq![e@] + self.remaining()).drop_first() =~= self.remaining());
                return Some(e);
            }
        }
    }
}

/// The first line of `s` as `str::lines` gives it: without its `'\n'`, nor a
/// `'\r'` just before that `'\n'`; `None` for empty text.
pub open spec fn first_line_spec(s: Seq<char>) -> Option<Seq<char>> {
    if s.len() == 0 {
        None
    } else {
        let l = s.take(line_len(s) as int);
        if l.last() == '\n' {
            let l1 = l.drop_last();
            if l1.len() > 0 && l1.last() == '\r' {
                Some(l1.drop_last())
            } else {
                Some(l1)
            }
        } else {
            Some(l)
        }
    }
}

/// The first line of the text `content` (the part of reading a one-line
/// file that does not touch the file system).
pub fn first_line(content: &str) -> (r: Option<String>)
    ensures
        match r {
            Some(l) => first_line_spec(content@) == Some(l@),
            None => first_line_spec(content@) is None,
        },
{
    let data = chars_of(content);
    if data.len() == 0 {
        return None;
    }
    let end = line_end(&data, 0);
    assert(data@.skip(0) =~= data@);
    proof {
        lemma_line_len_bounds(data@);
    }
    let ghost l = data@.take(end as int);
    let mut stop = end;
    if data[stop - 1] == '\n' {
        stop = stop - 1;
        assert(l.drop_last() =~= data@.take(stop as int));
        if stop > 0 && data[stop - 1] == '\r' {
            stop = stop - 1;
            assert(l.drop_last().drop_last() =~= data@.take(stop as int));
        }
    }
    let line = slice_chars(&data, 0, stop);
    assert(line@ =~= data@.take(stop as int));
    Some(string_of(line.as_slice()))
}

} // verus!
