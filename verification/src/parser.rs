//! The trace parser: recognizes toggle-event lines and counts them.
//!
//! An event is a line that starts with `0` or `1` and ends with the
//! signal-toggle marker `!`.  Every other line — header lines, time
//! markers, blank lines — is ignored.  This deliberately recognizes only
//! the narrow single-signal format the trace writer emits.

use vstd::prelude::*;

use crate::lines::views_of;

verus! {

/// `l` is a recognized toggle event: it starts with `0` or `1` and ends
/// with the signal-toggle marker `!`.
pub open spec fn is_event_line(l: Seq<char>) -> bool {
    l.len() > 0 && (l[0] == '0' || l[0] == '1') && l[l.len() - 1] == '!'
}

/// How many of `lines` are recognized toggle events.
pub open spec fn event_count(lines: Seq<Seq<char>>) -> int
    decreases lines.len(),
{
    if lines.len() == 0 {
        0
    } else {
        event_count(lines.drop_last()) + if is_event_line(lines.last()) {
            1int
        } else {
            0int
        }
    }
}

/// One file's outcome: its path paired with its event count.
pub open spec fn outcome_pair(f: (Seq<char>, Seq<Seq<char>>)) -> (Seq<char>, int) {
    (f.0, event_count(f.1))
}

/// The outcomes of a batch of files, each a path with its lines.
pub open spec fn outcome_pairs(files: Seq<(Seq<char>, Seq<Seq<char>>)>) -> Seq<(Seq<char>, int)> {
    files.map_values(|f: (Seq<char>, Seq<Seq<char>>)| outcome_pair(f))
}

/// Each file's outcome depends on that file's own lines alone, so two
/// schedules that hand the same files to any number of workers, in any
/// order, produce the same set of outcomes.
pub proof fn lemma_outcomes_schedule_independent(
    a: Seq<(Seq<char>, Seq<Seq<char>>)>,
    b: Seq<(Seq<char>, Seq<Seq<char>>)>,
)
    requires
        a.to_set() == b.to_set(),
    ensures
        outcome_pairs(a).to_set() == outcome_pairs(b).to_set(),
{
    vstd::prelude::Seq::lemma_to_set_map_commutes(
        a,
        |f: (Seq<char>, Seq<Seq<char>>)| outcome_pair(f),
    );
    vstd::prelude::Seq::lemma_to_set_map_commutes(
        b,
        |f: (Seq<char>, Seq<Seq<char>>)| outcome_pair(f),
    );
}

/// Decides whether one line is a recognized toggle event.
pub fn line_is_event(line: &str) -> (b: bool)
    ensures
        b == is_event_line(line@),
{
    let n = line.unicode_len();
    if n == 0 {
        return false;
    }
    let first = line.get_char(0);
    if !(first == '0' || first == '1') {
        return false;
    }
    let last = line.get_char(n - 1);
    last == '!'
}

/// Counts the recognized toggle events among `lines`.
pub fn count_events(lines: &Vec<String>) -> (n: usize)
    ensures
        n as int == event_count(views_of(lines@)),
{
    let mut n: usize = 0;
    for i in 0..lines.len()
        invariant
            n <= i,
            n as int == event_count(views_of(lines@.subrange(0, i as int))),
    {
        let hit = line_is_event(lines[i].as_str());
        proof {
            let prefix = views_of(lines@.subrange(0, i as int));
            let next = views_of(lines@.subrange(0, i as int + 1));
            assert(next.drop_last() =~= prefix);
            assert(next.last() == lines@[i as int]@);
        }
        if hit {
            n += 1;
        }
    }
    proof {
        assert(lines@.subrange(0, lines@.len() as int) =~= lines@);
    }
    n
}

} // verus!
