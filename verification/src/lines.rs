//! Splitting captured toolchain output into newline-delimited lines.
//!
//! The diagnostic protocol is line-oriented: each line of captured stdout is
//! one candidate structured message. A line ends at a `'\n'`; a `'\r'`
//! immediately before the `'\n'` (or at the very end of the text) belongs to
//! the terminator, not to the line. Text after the last terminator forms a
//! final line; a trailing terminator does not produce an empty final line.

use vstd::prelude::*;
use vstd::string::*;

verus! {

/// Index of the first `'\n'` in `s`, or `s.len()` when there is none.
pub open spec fn first_nl(s: Seq<char>) -> nat
    decreases s.len(),
{
    if s.len() == 0 {
        0
    } else if s[0] == '\n' {
        0
    } else {
        1 + first_nl(s.drop_first())
    }
}

/// One line with its terminator's `'\r'` stripped.
pub open spec fn strip_cr(l: Seq<char>) -> Seq<char> {
    if l.len() > 0 && l[l.len() - 1] == '\r' {
        l.drop_last()
    } else {
        l
    }
}

/// The lines of `s`, in emission order.
pub open spec fn lines_of(s: Seq<char>) -> Seq<Seq<char>>
    decreases s.len(),
{
    if s.len() == 0 {
        Seq::empty()
    } else {
        let i = first_nl(s) as int;
        if i + 1 > s.len() {
            seq![strip_cr(s)]
        } else {
            seq![strip_cr(s.take(i))] + lines_of(s.skip(i + 1))
        }
    }
}

/// A position with no `'\n'` before it that sits on a `'\n'` or at the end
/// is the first-newline position.
pub proof fn lemma_first_nl_unique(s: Seq<char>, i: int)
    requires
        0 <= i <= s.len(),
        forall|j: int| 0 <= j < i ==> s[j] != '\n',
        i < s.len() ==> s[i] == '\n',
    ensures
        first_nl(s) == i,
    decreases s.len(),
{
    if s.len() == 0 {
    } else if s[0] == '\n' {
        assert(i == 0);
    } else {
        assert(i >= 1) by {
            if i == 0 {
                assert(s[0] == '\n');
            }
        }
        assert forall|j: int| 0 <= j < i - 1 implies s.drop_first()[j] != '\n' by {
            assert(s.drop_first()[j] == s[j + 1]);
        }
        if i - 1 < s.drop_first().len() {
            assert(s.drop_first()[i - 1] == s[i]);
        }
        lemma_first_nl_unique(s.drop_first(), i - 1);
    }
}

/// Splits the whole text into its lines.
pub fn split_lines(s: &str) -> (r: Vec<String>)
    ensures
        r.deep_view() == lines_of(s@),
{
    let r = split_lines_from(s, 0);
    proof {
        assert(s@.skip(0) =~= s@);
    }
    r
}

fn split_lines_from(s: &str, start: usize) -> (r: Vec<String>)
    requires
        start <= s@.len(),
    ensures
        r.deep_view() == lines_of(s@.skip(start as int)),
    decreases s@.len() - start,
{
    let n = s.unicode_len();
    let ghost t = s@.skip(start as int);
    if start == n {
        let r: Vec<String> = Vec::new();
        proof {
            assert(t =~= Seq::<char>::empty());
            assert(r.deep_view() =~= Seq::<Seq<char>>::empty());
        }
        return r;
    }
    let mut i: usize = start;
    while i < n && s.get_char(i) != '\n'
        invariant
            start <= i <= n,
            n == s@.len(),
            forall|j: int| start <= j < i ==> s@[j] != '\n',
        decreases n - i,
    {
        i = i + 1;
    }
    proof {
        assert forall|k: int| 0 <= k < (i - start) implies t[k] != '\n' by {
            assert(t[k] == s@[start + k]);
        }
        if i < n {
            assert(t[i - start] == s@[i as int]);
        }
        lemma_first_nl_unique(t, i - start);
    }
    let end: usize = if i > start && s.get_char(i - 1) == '\r' {
        i - 1
    } else {
        i
    };
    let piece = s.substring_char(start, end);
    let piece_s = String::from_str(piece);
    proof {
        let nl = first_nl(t) as int;
        let content = if i == n { t } else { t.take(nl) };
        assert(content =~= s@.subrange(start as int, i as int));
        if i > start && s@[i - 1] == '\r' {
            assert(content.len() > 0 && content[content.len() - 1] == '\r');
            assert(piece_s@ =~= content.drop_last());
        } else {
            assert(piece_s@ =~= content);
        }
        assert(piece_s@ == strip_cr(content));
    }
    if i == n {
        let mut r: Vec<String> = Vec::new();
        r.push(piece_s);
        proof {
            assert(r.deep_view() =~= seq![strip_cr(t)]);
            assert(lines_of(t) == seq![strip_cr(t)]);
        }
        r
    } else {
        let mut rest = split_lines_from(s, i + 1);
        let ghost rest_dv = rest.deep_view();
        rest.insert(0, piece_s);
        proof {
            let nl = first_nl(t) as int;
            assert(s@.skip(i + 1) =~= t.skip(nl + 1));
            assert(rest.deep_view() =~= seq![strip_cr(t.take(nl))] + rest_dv);
            assert(lines_of(t) == seq![strip_cr(t.take(nl))] + lines_of(t.skip(nl + 1)));
        }
        rest
    }
}

} // verus!
