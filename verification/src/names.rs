//! The star-name pool and its file format.
//!
//! A name pool is a plain text file with one star name per line.  Lines are
//! separated by a newline character; a carriage return immediately before a
//! newline belongs to the separator, not the name.
use vstd::prelude::*;
use vstd::string::StrSliceExecFns;

verus! {

/// Index of the first newline in `s`, or `s.len()` when there is none.
pub open spec fn first_newline(s: Seq<char>) -> int
    decreases s.len(),
{
    if s.len() == 0 {
        0
    } else if s[0] == '\n' {
        0
    } else {
        1 + first_newline(s.drop_first())
    }
}

/// `first_newline` points at the first newline.
proof fn lemma_first_newline(s: Seq<char>)
    ensures
        0 <= first_newline(s) <= s.len(),
        first_newline(s) < s.len() ==> s[first_newline(s)] == '\n',
        forall|j: int| 0 <= j < first_newline(s) ==> s[j] != '\n',
    decreases s.len(),
{
    if s.len() > 0 && s[0] != '\n' {
        lemma_first_newline(s.drop_first());
        assert forall|j: int| 0 <= j < first_newline(s) implies s[j] != '\n' by {
            if j > 0 {
                assert(s.drop_first()[j - 1] != '\n');
            }
        }
    }
}

/// Any position with no newline before it and a newline (or the end) at it
/// is the first newline.
proof fn lemma_first_newline_unique(s: Seq<char>, i: int)
    requires
        0 <= i <= s.len(),
        forall|j: int| 0 <= j < i ==> s[j] != '\n',
        i < s.len() ==> s[i] == '\n',
    ensures
        first_newline(s) == i,
{
    lemma_first_newline(s);
    let f = first_newline(s);
    if f < i {
        assert(s[f] == '\n');
    }
    if i < f {
        assert(s[i] != '\n');
    }
}

/// A line with its trailing carriage return removed.
pub open spec fn strip_cr(line: Seq<char>) -> Seq<char> {
    if line.len() > 0 && line[line.len() - 1] == '\r' {
        line.drop_last()
    } else {
        line
    }
}

/// The lines of a text: split on newlines, stripping a carriage return
/// before each newline; text after the last newline is a final, unstripped
/// line, and a trailing newline produces no empty final line.
pub open spec fn split_lines_spec(s: Seq<char>) -> Seq<Seq<char>>
    decreases s.len(),
    via split_lines_spec_decreases
{
    if s.len() == 0 {
        Seq::empty()
    } else {
        let i = first_newline(s);
        if i == s.len() {
            seq![s]
        } else {
            seq![strip_cr(s.subrange(0, i))] + split_lines_spec(
                s.subrange(i + 1, s.len() as int),
            )
        }
    }
}

#[via_fn]
proof fn split_lines_spec_decreases(s: Seq<char>) {
    if s.len() > 0 {
        lemma_first_newline(s);
    }
}

/// Split a text into its lines.
pub fn split_lines(s: &str) -> (out: Vec<String>)
    ensures
        out@.len() == split_lines_spec(s@).len(),
        forall|k: int| 0 <= k < out@.len() ==> (#[trigger] out@[k])@ == split_lines_spec(s@)[k],
{
    let ghost full = split_lines_spec(s@);
    let len = s.unicode_len();
    let mut out: Vec<String> = Vec::new();
    let mut start: usize = 0;
    let mut i: usize = 0;
    proof {
        assert(s@.subrange(0, len as int) =~= s@);
        assert(full.skip(0) =~= full);
    }
    while i < len
        invariant
            len == s@.len(),
            start <= i <= len,
            full == split_lines_spec(s@),
            forall|j: int| start <= j < i ==> s@[j] != '\n',
            out@.len() <= full.len(),
            forall|k: int| 0 <= k < out@.len() ==> (#[trigger] out@[k])@ == full[k],
            split_lines_spec(s@.subrange(start as int, len as int)) == full.skip(
                out@.len() as int,
            ),
        decreases len - i,
    {
        let c = s.get_char(i);
        if c == '\n' {
            let end = if i > start && s.get_char(i - 1) == '\r' {
                i - 1
            } else {
                i
            };
            let line = s.substring_char(start, end).to_owned();
            let ghost t = s@.subrange(start as int, len as int);
            proof {
                lemma_first_newline_unique(t, i - start);
                assert(t.subrange(0, i - start) =~= s@.subrange(start as int, i as int));
                assert(strip_cr(t.subrange(0, i - start)) =~= s@.subrange(
                    start as int,
                    end as int,
                ));
                assert(t.subrange(i - start + 1, t.len() as int) =~= s@.subrange(
                    i + 1,
                    len as int,
                ));
                assert(full.skip(out@.len() as int) == seq![strip_cr(t.subrange(0, i - start))]
                    + split_lines_spec(s@.subrange(i + 1, len as int)));
                assert(full.skip(out@.len() as int)[0] == strip_cr(t.subrange(0, i - start)));
                assert(full[out@.len() as int] == strip_cr(t.subrange(0, i - start)));
                assert(full.skip(out@.len() as int).skip(1) =~= full.skip(out@.len() as int + 1));
                assert(split_lines_spec(s@.subrange(i + 1, len as int)) =~= full.skip(
                    out@.len() as int + 1,
                ));
            }
            out.push(line);
            start = i + 1;
        }
        i = i + 1;
    }
    if start < len {
        let line = s.substring_char(start, len).to_owned();
        let ghost t = s@.subrange(start as int, len as int);
        proof {
            lemma_first_newline_unique(t, t.len() as int);
            assert(t =~= s@.subrange(start as int, len as int));
            assert(split_lines_spec(t) == seq![t]);
            assert(full.skip(out@.len() as int) =~= seq![t]);
            assert(full.skip(out@.len() as int)[0] == t);
            assert(full[out@.len() as int] == t);
            assert(full.len() == out@.len() + 1);
            assert(line@ == t);
        }
        out.push(line);
    } else {
        proof {
            let t = s@.subrange(start as int, len as int);
            assert(t.len() == 0);
            assert(split_lines_spec(t).len() == 0);
            assert(full.skip(out@.len() as int).len() == 0);
            assert(full.len() == out@.len());
        }
    }
    out
}

/// The star-name pool: a list of unique star names.
pub struct Names {
    pub names: Vec<String>,
}

/// Parses name-pool files.
pub struct NamesLoader;

impl NamesLoader {
    /// Parse the contents of a name-pool file: one name per line.
    pub fn load(&self, contents: &str) -> (r: Names)
        ensures
            r.names@.len() == split_lines_spec(contents@).len(),
            forall|k: int|
                0 <= k < r.names@.len() ==> (#[trigger] r.names@[k])@ == split_lines_spec(
                    contents@,
                )[k],
    {
        Names { names: split_lines(contents) }
    }

    /// The file extensions this loader accepts.
    pub fn extensions(&self) -> (r: Vec<String>)
        ensures
            r@.len() == 1,
            r@[0]@ == "names"@,
    {
        let mut v: Vec<String> = Vec::new();
        v.push("names".to_owned());
        v
    }
}

} // verus!
