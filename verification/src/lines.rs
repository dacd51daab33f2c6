//! Line-level vocabulary shared by the trace writer and the trace parser:
//! the view of a vector of lines, and freedom from line breaks, which is
//! what lets a trace survive the trip through a line-oriented file.

use vstd::prelude::*;

verus! {

/// The mathematical view of a vector of lines.
pub open spec fn views_of(lines: Seq<String>) -> Seq<Seq<char>> {
    lines.map_values(|s: String| s@)
}

/// `s` contains no line-break character, so writing it as one line of a
/// text file reads back as the same one line.
pub open spec fn no_line_breaks(s: Seq<char>) -> bool {
    forall|i: int| 0 <= i < s.len() ==> #[trigger] s[i] != '\n' && s[i] != '\r'
}

/// `s` with every line-break character removed, the rest kept in order.
pub open spec fn strip_line_breaks(s: Seq<char>) -> Seq<char>
    decreases s.len(),
{
    if s.len() == 0 {
        Seq::empty()
    } else {
        let rest = strip_line_breaks(s.drop_last());
        if s.last() != '\n' && s.last() != '\r' {
            rest.push(s.last())
        } else {
            rest
        }
    }
}

/// What `strip_line_breaks` keeps is free of line breaks.
pub proof fn lemma_strip_line_breaks_clean(s: Seq<char>)
    ensures
        no_line_breaks(strip_line_breaks(s)),
    decreases s.len(),
{
    if s.len() > 0 {
        lemma_strip_line_breaks_clean(s.drop_last());
    }
}

/// Removes every line-break character from `s`, keeping the rest in order.
pub fn sanitize_meta(s: &str) -> (t: String)
    ensures
        t@ == strip_line_breaks(s@),
        no_line_breaks(t@),
{
    let len = s.unicode_len();
    let mut t = String::new();
    let mut i: usize = 0;
    while i < len
        invariant
            0 <= i <= len,
            len == s@.len(),
            t@ == strip_line_breaks(s@.subrange(0, i as int)),
        decreases len - i,
    {
        let c = s.get_char(i);
        proof {
            let next = s@.subrange(0, i as int + 1);
            assert(next.drop_last() =~= s@.subrange(0, i as int));
            assert(next.last() == s@[i as int]);
        }
        if c != '\n' && c != '\r' {
            crate::numfmt::push_char(&mut t, c);
        }
        i += 1;
    }
    proof {
        assert(s@.subrange(0, len as int) =~= s@);
        lemma_strip_line_breaks_clean(s@);
    }
    t
}

} // verus!
