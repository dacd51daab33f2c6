//! The boundary JSON: a batch of per-path outcomes rendered as one JSON
//! object whose keys are the paths and whose values are two-element
//! arrays `[event_count, duration_ms]`.

use vstd::prelude::*;

use crate::batch::PathOutcome;
use crate::numfmt::{dec_digits, digit_char};

verus! {

/// The lower-case hexadecimal digit for `d` (meaningful for `0 <= d <= 15`).
pub open spec fn hex_digit(d: int) -> char {
    if d < 10 {
        digit_char(d)
    } else {
        ((87 + d) as u8) as char
    }
}

/// How one character stands inside a JSON string: quote and backslash
/// escaped with a backslash, control characters as `\u00XX`, everything
/// else as itself.
pub open spec fn escaped_char(c: char) -> Seq<char> {
    if c == '"' {
        seq!['\\', '"']
    } else if c == '\\' {
        seq!['\\', '\\']
    } else if (c as int) < 32 {
        seq!['\\', 'u', '0', '0', hex_digit(c as int / 16), hex_digit(c as int % 16)]
    } else {
        seq![c]
    }
}

/// `s` with every character escaped as JSON requires.
pub open spec fn escaped(s: Seq<char>) -> Seq<char>
    decreases s.len(),
{
    if s.len() == 0 {
        Seq::empty()
    } else {
        escaped(s.drop_last()) + escaped_char(s.last())
    }
}

/// A JSON string literal holding `s`.
pub open spec fn json_string(s: Seq<char>) -> Seq<char> {
    seq!['"'] + escaped(s) + seq!['"']
}

/// The JSON member for one parsed path: the path as the key, the value
/// the two-element array of event count and duration.
pub open spec fn json_member(p: PathOutcome) -> Seq<char> {
    json_string(p.path@) + seq![':', '['] + dec_digits(p.outcome.events as nat) + seq![',']
        + dec_digits(p.outcome.duration_ms as nat) + seq![']']
}

/// All members, comma-separated, in order.
pub open spec fn json_members(ps: Seq<PathOutcome>) -> Seq<char>
    decreases ps.len(),
{
    if ps.len() == 0 {
        Seq::empty()
    } else if ps.len() == 1 {
        json_member(ps.last())
    } else {
        json_members(ps.drop_last()) + seq![','] + json_member(ps.last())
    }
}

/// The boundary JSON object for a batch of outcomes; `{}` when the batch
/// is empty.
pub open spec fn json_object(ps: Seq<PathOutcome>) -> Seq<char> {
    seq!['{'] + json_members(ps) + seq!['}']
}

/// The lower-case hexadecimal digit of `d`.
fn hex_digit_char(d: u32) -> (c: char)
    requires
        d < 16,
    ensures
        c == hex_digit(d as int),
{
    if d < 10 {
        (48 + d as u8) as char
    } else {
        (87 + d as u8) as char
    }
}

/// Appends `s` to `out`, escaped as JSON requires.
fn append_escaped(out: &mut String, s: &str)
    ensures
        final(out)@ == old(out)@ + escaped(s@),
{
    let len = s.unicode_len();
    let mut i: usize = 0;
    while i < len
        invariant
            0 <= i <= len,
            len == s@.len(),
            out@ == old(out)@ + escaped(s@.subrange(0, i as int)),
        decreases len - i,
    {
        let c = s.get_char(i);
        proof {
            let next = s@.subrange(0, i as int + 1);
            assert(next.drop_last() =~= s@.subrange(0, i as int));
            assert(next.last() == s@[i as int]);
        }
        if c == '"' {
            out.append("\\\"");
            proof {
                reveal_strlit("\\\"");
                assert("\\\""@ =~= escaped_char(c));
            }
        } else if c == '\\' {
            out.append("\\\\");
            proof {
                reveal_strlit("\\\\");
                assert("\\\\"@ =~= escaped_char(c));
            }
        } else if (c as u32) < 32 {
            out.append("\\u00");
            let v = c as u32;
            crate::numfmt::push_char(out, hex_digit_char(v / 16));
            crate::numfmt::push_char(out, hex_digit_char(v % 16));
            proof {
                reveal_strlit("\\u00");
                assert("\\u00"@.push(hex_digit(c as int / 16)).push(hex_digit(c as int % 16))
                    =~= escaped_char(c));
            }
        } else {
            crate::numfmt::push_char(out, c);
            proof {
                assert(seq![c] =~= escaped_char(c));
            }
        }
        proof {
            assert(out@ =~= old(out)@ + escaped(s@.subrange(0, i as int + 1)));
        }
        i += 1;
    }
    proof {
        assert(s@.subrange(0, len as int) =~= s@);
    }
}

/// Appends the member for one outcome to `out`.
fn append_member(out: &mut String, p: &PathOutcome)
    ensures
        final(out)@ == old(out)@ + json_member(*p),
{
    out.append("\"");
    append_escaped(out, p.path.as_str());
    out.append("\":[");
    let e = crate::numfmt::u64_to_string(p.outcome.events);
    out.append(e.as_str());
    out.append(",");
    let d = crate::numfmt::u64_to_string(p.outcome.duration_ms);
    out.append(d.as_str());
    out.append("]");
    proof {
        reveal_strlit("\"");
        reveal_strlit("\":[");
        reveal_strlit(",");
        reveal_strlit("]");
        assert(out@ =~= old(out)@ + json_member(*p));
    }
}

/// Renders a batch of outcomes as the boundary JSON object.  Every path
/// is a key, its value the exact two-element array of event count and
/// duration; an empty batch renders as the empty object.
pub fn results_to_json(outcomes: &Vec<PathOutcome>) -> (s: String)
    ensures
        s@ == json_object(outcomes@),
{
    let mut s = String::from_str("{");
    proof {
        reveal_strlit("{");
    }
    for i in 0..outcomes.len()
        invariant
            s@ == seq!['{'] + json_members(outcomes@.subrange(0, i as int)),
    {
        if i > 0 {
            s.append(",");
        }
        append_member(&mut s, &outcomes[i]);
        proof {
            reveal_strlit(",");
            let next = outcomes@.subrange(0, i as int + 1);
            assert(next.drop_last() =~= outcomes@.subrange(0, i as int));
            assert(next.last() == outcomes@[i as int]);
            assert(s@ =~= seq!['{'] + json_members(next));
        }
    }
    s.append("}");
    proof {
        reveal_strlit("}");
        assert(outcomes@.subrange(0, outcomes@.len() as int) =~= outcomes@);
        assert(s@ =~= json_object(outcomes@));
    }
    s
}

} // verus!
