//! The trace writer: the full text of a synthetic single-signal trace.
//!
//! A trace is a fixed header block (date, generator tag, timescale, one
//! declared signal, end-of-definitions), an initial-value dump, and then
//! one time marker plus one toggle line per timestep.  The signal starts
//! at `0` and inverts every step.

use vstd::prelude::*;

use crate::lines::{no_line_breaks, strip_line_breaks, views_of};
use crate::numfmt::{all_digits, dec_digits, is_digit};
use crate::parser::{event_count, is_event_line};

verus! {

/// The fixed header and initial-dump lines of a trace whose date line
/// carries `date`.
pub open spec fn header_lines(date: Seq<char>) -> Seq<Seq<char>> {
    seq![
        "$date"@,
        "   "@ + date,
        "$end"@,
        "$version"@,
        "   Rust VCD file generator"@,
        "$end"@,
        "$timescale 1ns $end"@,
        "$scope module top $end"@,
        "$var wire 1 ! signal1 $end"@,
        "$upscope $end"@,
        "$enddefinitions $end"@,
        "$dumpvars"@,
        "b0 !"@,
        "$end"@,
    ]
}

/// The time-marker line of timestep `t`.
pub open spec fn time_line(t: nat) -> Seq<char> {
    seq!['#'] + dec_digits(t)
}

/// The toggle line of timestep `t`: the signal starts at `0` and inverts
/// every step, so it reads `1` on even steps and `0` on odd ones.
pub open spec fn value_line(t: nat) -> Seq<char> {
    if t % 2 == 0 {
        seq!['1', '!']
    } else {
        seq!['0', '!']
    }
}

/// The trace body: for each timestep, a time marker then a toggle line.
pub open spec fn step_lines(n: nat) -> Seq<Seq<char>>
    decreases n,
{
    if n == 0 {
        Seq::empty()
    } else {
        step_lines((n - 1) as nat) + seq![
            time_line((n - 1) as nat),
            value_line((n - 1) as nat),
        ]
    }
}

/// The whole text of a generated trace, as a sequence of lines.
pub open spec fn trace_lines(date: Seq<char>, num_steps: nat) -> Seq<Seq<char>> {
    header_lines(date) + step_lines(num_steps)
}

/// Event counting distributes over concatenation of line blocks.
proof fn lemma_event_count_concat(a: Seq<Seq<char>>, b: Seq<Seq<char>>)
    ensures
        event_count(a + b) == event_count(a) + event_count(b),
    decreases b.len(),
{
    if b.len() == 0 {
        assert(a + b =~= a);
    } else {
        assert((a + b).drop_last() =~= a + b.drop_last());
        assert((a + b).last() == b.last());
        lemma_event_count_concat(a, b.drop_last());
    }
}

/// A block without a single event line counts zero events.
proof fn lemma_event_count_none(lines: Seq<Seq<char>>)
    requires
        forall|i: int| 0 <= i < lines.len() ==> !is_event_line(#[trigger] lines[i]),
    ensures
        event_count(lines) == 0,
    decreases lines.len(),
{
    if lines.len() > 0 {
        assert(forall|i: int|
            0 <= i < lines.drop_last().len() ==> #[trigger] lines.drop_last()[i] == lines[i]);
        lemma_event_count_none(lines.drop_last());
    }
}

/// No header or initial-dump line is a recognized toggle event.
proof fn lemma_header_count(date: Seq<char>)
    ensures
        event_count(header_lines(date)) == 0,
{
    reveal_strlit("$date");
    reveal_strlit("   ");
    reveal_strlit("$end");
    reveal_strlit("$version");
    reveal_strlit("   Rust VCD file generator");
    reveal_strlit("$timescale 1ns $end");
    reveal_strlit("$scope module top $end");
    reveal_strlit("$var wire 1 ! signal1 $end");
    reveal_strlit("$upscope $end");
    reveal_strlit("$enddefinitions $end");
    reveal_strlit("$dumpvars");
    reveal_strlit("b0 !");
    let h = header_lines(date);
    assert(("   "@ + date)[0] == ' ');
    assert(forall|i: int| 0 <= i < h.len() ==> !is_event_line(#[trigger] h[i]));
    lemma_event_count_none(h);
}

/// The body of an `n`-step trace holds exactly `n` recognized events:
/// every toggle line is one, no time marker is.
proof fn lemma_step_lines_count(n: nat)
    ensures
        event_count(step_lines(n)) == n,
    decreases n,
{
    if n > 0 {
        let t = (n - 1) as nat;
        lemma_step_lines_count(t);
        let tl = time_line(t);
        let vl = value_line(t);
        assert(tl[0] == '#');
        assert(!is_event_line(tl));
        assert(is_event_line(vl));
        assert(seq![tl, vl].drop_last() =~= seq![tl]);
        assert(seq![tl].drop_last() =~= Seq::<Seq<char>>::empty());
        assert(event_count(Seq::<Seq<char>>::empty()) == 0);
        assert(event_count(seq![tl]) == 0);
        assert(event_count(seq![tl, vl]) == 1);
        lemma_event_count_concat(step_lines(t), seq![tl, vl]);
    }
}

/// A generated trace parses back to exactly `num_steps` recognized toggle
/// events, whatever text stands on the date line: writing then parsing
/// round-trips on the event count.
pub proof fn lemma_trace_round_trip(date: Seq<char>, num_steps: nat)
    ensures
        event_count(trace_lines(date, num_steps)) == num_steps,
{
    lemma_header_count(date);
    lemma_step_lines_count(num_steps);
    lemma_event_count_concat(header_lines(date), step_lines(num_steps));
}

/// The body of an `n`-step trace is `2 n` lines, none holding a line
/// break: time markers are `#` plus digits, toggle lines are fixed.
proof fn lemma_step_lines_clean(n: nat)
    ensures
        step_lines(n).len() == 2 * n,
        forall|i: int| 0 <= i < 2 * n ==> no_line_breaks(#[trigger] step_lines(n)[i]),
    decreases n,
{
    if n > 0 {
        let t = (n - 1) as nat;
        lemma_step_lines_clean(t);
        crate::numfmt::lemma_dec_digits_shape(t);
        let tl = time_line(t);
        let vl = value_line(t);
        assert forall|j: int| 0 <= j < tl.len() implies #[trigger] tl[j] != '\n' && tl[j]
            != '\r' by {
            if j > 0 {
                assert(is_digit(dec_digits(t)[j - 1]));
            }
        }
        assert(no_line_breaks(vl));
        assert forall|i: int| 0 <= i < 2 * n implies no_line_breaks(
            #[trigger] step_lines(n)[i],
        ) by {
            if i < 2 * t {
                assert(step_lines(n)[i] == step_lines(t)[i]);
            } else if i == 2 * t {
                assert(step_lines(n)[i] == tl);
            } else {
                assert(step_lines(n)[i] == vl);
            }
        }
    }
}

/// When the date text holds no line break, neither does any line of the
/// trace, so the trace survives a line-oriented file intact.
pub proof fn lemma_trace_lines_clean(date: Seq<char>, num_steps: nat)
    requires
        no_line_breaks(date),
    ensures
        forall|i: int|
            0 <= i < trace_lines(date, num_steps).len() ==> no_line_breaks(
                #[trigger] trace_lines(date, num_steps)[i],
            ),
{
    reveal_strlit("$date");
    reveal_strlit("   ");
    reveal_strlit("$end");
    reveal_strlit("$version");
    reveal_strlit("   Rust VCD file generator");
    reveal_strlit("$timescale 1ns $end");
    reveal_strlit("$scope module top $end");
    reveal_strlit("$var wire 1 ! signal1 $end");
    reveal_strlit("$upscope $end");
    reveal_strlit("$dumpvars");
    reveal_strlit("b0 !");
    reveal_strlit("$enddefinitions $end");
    lemma_step_lines_clean(num_steps);
    let h = header_lines(date);
    assert forall|i: int| 0 <= i < h.len() implies no_line_breaks(#[trigger] h[i]) by {
        if i == 1 {
            assert forall|j: int| 0 <= j < h[1].len() implies #[trigger] h[1][j] != '\n'
                && h[1][j] != '\r' by {
                if j >= 3 {
                    assert(h[1][j] == date[j - 3]);
                }
            }
        }
    }
    assert forall|i: int| 0 <= i < trace_lines(date, num_steps).len() implies no_line_breaks(
        #[trigger] trace_lines(date, num_steps)[i],
    ) by {
        if i < h.len() {
            assert(trace_lines(date, num_steps)[i] == h[i]);
        } else {
            assert(trace_lines(date, num_steps)[i] == step_lines(num_steps)[i - h.len()]);
        }
    }
}

/// Relies on chrono's `Utc::now` and its text rendering: the current UTC
/// time.  The result depends on the clock, so nothing is promised of it.
#[verifier::external_body]
fn utc_now_string() -> String {
    chrono::Utc::now().to_string()
}

/// Builds the full line sequence of a trace whose date line carries
/// `date` (stripped of any line break) and whose body toggles the signal
/// for exactly `num_steps` timesteps.
pub fn trace_content(date: &str, num_steps: u64) -> (lines: Vec<String>)
    ensures
        views_of(lines@) == trace_lines(strip_line_breaks(date@), num_steps as nat),
{
    let clean = crate::lines::sanitize_meta(date);
    let mut lines: Vec<String> = Vec::new();
    lines.push(String::from_str("$date"));
    let mut date_line = String::from_str("   ");
    date_line.append(clean.as_str());
    lines.push(date_line);
    lines.push(String::from_str("$end"));
    lines.push(String::from_str("$version"));
    lines.push(String::from_str("   Rust VCD file generator"));
    lines.push(String::from_str("$end"));
    lines.push(String::from_str("$timescale 1ns $end"));
    lines.push(String::from_str("$scope module top $end"));
    lines.push(String::from_str("$var wire 1 ! signal1 $end"));
    lines.push(String::from_str("$upscope $end"));
    lines.push(String::from_str("$enddefinitions $end"));
    lines.push(String::from_str("$dumpvars"));
    lines.push(String::from_str("b0 !"));
    lines.push(String::from_str("$end"));
    proof {
        assert(views_of(lines@) =~= header_lines(strip_line_breaks(date@)));
    }
    let mut t: u64 = 0;
    let mut toggle = false;
    while t < num_steps
        invariant
            0 <= t <= num_steps,
            toggle == (t % 2 == 1),
            views_of(lines@) == trace_lines(strip_line_breaks(date@), t as nat),
        decreases num_steps - t,
    {
        let ghost before = lines@;
        let mut marker = String::from_str("#");
        let digits = crate::numfmt::u64_to_string(t);
        marker.append(digits.as_str());
        let ghost marker_view = marker@;
        lines.push(marker);
        toggle = !toggle;
        if toggle {
            lines.push(String::from_str("1!"));
        } else {
            lines.push(String::from_str("0!"));
        }
        proof {
            reveal_strlit("#");
            reveal_strlit("1!");
            reveal_strlit("0!");
            let ghost d = strip_line_breaks(date@);
            let ghost vline = value_line(t as nat);
            assert(marker_view =~= time_line(t as nat));
            assert("1!"@ =~= seq!['1', '!']);
            assert("0!"@ =~= seq!['0', '!']);
            assert(views_of(lines@) =~= views_of(before) + seq![marker_view, vline]);
            assert(step_lines((t + 1) as nat) == step_lines(t as nat) + seq![
                time_line(t as nat),
                vline,
            ]);
            assert(views_of(before) + seq![marker_view, vline] =~= trace_lines(
                d,
                (t + 1) as nat,
            ));
        }
        t += 1;
    }
    lines
}

/// Builds a whole trace stamped with the current UTC time.  Whatever the
/// clock said, the trace holds exactly `num_steps` toggle events and no
/// line of it holds a line break.
pub fn build_trace(num_steps: u64) -> (lines: Vec<String>)
    ensures
        exists|date: Seq<char>|
            views_of(lines@) == trace_lines(date, num_steps as nat) && no_line_breaks(date),
        event_count(views_of(lines@)) == num_steps,
        forall|i: int| 0 <= i < lines@.len() ==> no_line_breaks(#[trigger] lines@[i]@),
{
    let date = utc_now_string();
    let lines = trace_content(date.as_str(), num_steps);
    proof {
        let d = strip_line_breaks(date@);
        crate::lines::lemma_strip_line_breaks_clean(date@);
        lemma_trace_round_trip(d, num_steps as nat);
        lemma_trace_lines_clean(d, num_steps as nat);
        assert(views_of(lines@) == trace_lines(d, num_steps as nat) && no_line_breaks(d));
        assert(forall|i: int|
            0 <= i < lines@.len() ==> #[trigger] lines@[i]@ == views_of(lines@)[i]);
    }
    lines
}

} // verus!
