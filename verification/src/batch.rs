//! Batch policy: grouping trace files by category directory, the fixed
//! generation matrix, per-category statistics, and the two error
//! policies — collect-all-errors for generation, drop-and-continue for
//! path-list parsing.

use vstd::prelude::*;

use crate::lines::views_of;
use crate::numfmt::{dec_digits, parsed_u64};

verus! {

/// What parsing one trace file produced: the recognized-event count and
/// the elapsed wall-clock milliseconds of the scan.
#[derive(Clone, Copy, PartialEq, Eq, Structural, Debug)]
pub struct ParseOutcome {
    pub events: u64,
    pub duration_ms: u64,
}

/// One path together with the outcome its parse produced.
pub struct PathOutcome {
    pub path: String,
    pub outcome: ParseOutcome,
}

/// One path and the result of trying to parse it: `None` when the parse
/// failed.
pub struct PathResult {
    pub path: String,
    pub outcome: Option<ParseOutcome>,
}

/// The mathematical view of a list of per-path outcomes.
pub open spec fn outcomes_view(out: Seq<PathOutcome>) -> Seq<(Seq<char>, ParseOutcome)> {
    out.map_values(|p: PathOutcome| (p.path@, p.outcome))
}

/// The successful parses among `rs`, in order, each as a path paired
/// with its outcome.
pub open spec fn kept_outcomes(rs: Seq<PathResult>) -> Seq<(Seq<char>, ParseOutcome)>
    decreases rs.len(),
{
    if rs.len() == 0 {
        Seq::empty()
    } else {
        let rest = kept_outcomes(rs.drop_last());
        match rs.last().outcome {
            Some(o) => rest.push((rs.last().path@, o)),
            None => rest,
        }
    }
}

/// Keeps the successful parses, in order, and drops the failed ones: one
/// bad path never poisons the rest of a batch.
pub fn collect_outcomes(results: &Vec<PathResult>) -> (out: Vec<PathOutcome>)
    ensures
        outcomes_view(out@) == kept_outcomes(results@),
{
    let mut out: Vec<PathOutcome> = Vec::new();
    for i in 0..results.len()
        invariant
            outcomes_view(out@) == kept_outcomes(results@.subrange(0, i as int)),
    {
        let ghost prev = out@;
        match results[i].outcome {
            Some(o) => {
                out.push(PathOutcome { path: results[i].path.clone(), outcome: o });
            },
            None => {},
        }
        proof {
            assert(results@.subrange(0, i as int + 1).drop_last() =~= results@.subrange(
                0,
                i as int,
            ));
            assert(results@.subrange(0, i as int + 1).last() == results@[i as int]);
            assert(outcomes_view(out@) =~= kept_outcomes(results@.subrange(0, i as int + 1)));
        }
    }
    proof {
        assert(results@.subrange(0, results@.len() as int) =~= results@);
    }
    out
}

/// The per-file average of a category's wall-clock time; a zero-file
/// category reports zero without dividing.
pub fn average_duration(total_ms: u64, file_count: usize) -> (avg: u64)
    ensures
        file_count == 0 ==> avg == 0,
        file_count > 0 ==> avg == total_ms as int / file_count as int,
{
    if file_count == 0 {
        0
    } else {
        total_ms / (file_count as u64)
    }
}

/// One immediate subdirectory of the aggregation root: its name and the
/// names of the plain files directly inside it.
pub struct SubdirListing {
    pub name: String,
    pub files: Vec<String>,
}

/// A category: a simulation length and the trace files grouped under it.
pub struct CategoryGroup {
    pub steps: u64,
    pub files: Vec<String>,
}

/// The category a directory name denotes: a name that reads back as a
/// positive integer.  Any other name denotes none and is skipped.
pub open spec fn category_of(name: Seq<char>) -> Option<u64> {
    match parsed_u64(name) {
        Some(v) => if v >= 1 {
            Some(v)
        } else {
            None
        },
        None => None,
    }
}

/// `name` carries the trace-file extension and a non-empty stem.
pub open spec fn is_trace_file_name(name: Seq<char>) -> bool {
    name.len() > 4 && name.subrange(name.len() - 4, name.len() as int) == ".vcd"@
}

/// The members of `files` that are trace files, in order.
pub open spec fn kept_trace_files(files: Seq<Seq<char>>) -> Seq<Seq<char>>
    decreases files.len(),
{
    if files.len() == 0 {
        Seq::empty()
    } else {
        let rest = kept_trace_files(files.drop_last());
        if is_trace_file_name(files.last()) {
            rest.push(files.last())
        } else {
            rest
        }
    }
}

/// The mathematical view of one category group.
pub open spec fn group_view(g: CategoryGroup) -> (u64, Seq<Seq<char>>) {
    (g.steps, views_of(g.files@))
}

/// The mathematical view of a list of category groups.
pub open spec fn groups_view(gs: Seq<CategoryGroup>) -> Seq<(u64, Seq<Seq<char>>)> {
    gs.map_values(|g: CategoryGroup| group_view(g))
}

/// The groups a directory listing yields: one per subdirectory whose
/// name denotes a category, keyed by that integer and holding the
/// subdirectory's trace files; every other subdirectory is skipped.
pub open spec fn groups_of(entries: Seq<SubdirListing>) -> Seq<(u64, Seq<Seq<char>>)>
    decreases entries.len(),
{
    if entries.len() == 0 {
        Seq::empty()
    } else {
        let rest = groups_of(entries.drop_last());
        match category_of(entries.last().name@) {
            Some(k) => rest.push((k, kept_trace_files(views_of(entries.last().files@)))),
            None => rest,
        }
    }
}

/// Reads a directory name as the category it denotes, if any.
pub fn parse_category_name(name: &str) -> (r: Option<u64>)
    ensures
        r == category_of(name@),
{
    match crate::numfmt::parse_u64(name) {
        Some(v) => if v >= 1 {
            Some(v)
        } else {
            None
        },
        None => None,
    }
}

/// Decides whether a file name carries the trace-file extension.
pub fn is_trace_file(name: &str) -> (b: bool)
    ensures
        b == is_trace_file_name(name@),
{
    proof {
        reveal_strlit(".vcd");
    }
    let n = name.unicode_len();
    if n <= 4 {
        return false;
    }
    let ok = name.get_char(n - 4) == '.' && name.get_char(n - 3) == 'v' && name.get_char(n - 2)
        == 'c' && name.get_char(n - 1) == 'd';
    proof {
        let suffix = name@.subrange(n as int - 4, n as int);
        if ok {
            assert(suffix =~= ".vcd"@);
        } else {
            assert(suffix[0] == name@[n as int - 4]);
            assert(suffix[1] == name@[n as int - 3]);
            assert(suffix[2] == name@[n as int - 2]);
            assert(suffix[3] == name@[n as int - 1]);
            assert(suffix != ".vcd"@);
        }
    }
    ok
}

/// Keeps the trace files of one subdirectory, in order.
pub fn filter_trace_files(files: &Vec<String>) -> (kept: Vec<String>)
    ensures
        views_of(kept@) == kept_trace_files(views_of(files@)),
{
    let mut kept: Vec<String> = Vec::new();
    for i in 0..files.len()
        invariant
            views_of(kept@) == kept_trace_files(views_of(files@.subrange(0, i as int))),
    {
        if is_trace_file(files[i].as_str()) {
            kept.push(files[i].clone());
        }
        proof {
            let next = views_of(files@.subrange(0, i as int + 1));
            assert(next.drop_last() =~= views_of(files@.subrange(0, i as int)));
            assert(next.last() == files@[i as int]@);
            assert(views_of(kept@) =~= kept_trace_files(next));
        }
    }
    proof {
        assert(files@.subrange(0, files@.len() as int) =~= files@);
    }
    kept
}

/// Groups a directory listing: every integer-named subdirectory becomes
/// a category holding its trace files; every other subdirectory is
/// silently skipped, as is every file without the trace extension.
pub fn group_entries(entries: &Vec<SubdirListing>) -> (gs: Vec<CategoryGroup>)
    ensures
        groups_view(gs@) == groups_of(entries@),
{
    let mut gs: Vec<CategoryGroup> = Vec::new();
    for i in 0..entries.len()
        invariant
            groups_view(gs@) == groups_of(entries@.subrange(0, i as int)),
    {
        match parse_category_name(entries[i].name.as_str()) {
            Some(k) => {
                let files = filter_trace_files(&entries[i].files);
                gs.push(CategoryGroup { steps: k, files });
            },
            None => {},
        }
        proof {
            assert(entries@.subrange(0, i as int + 1).drop_last() =~= entries@.subrange(
                0,
                i as int,
            ));
            assert(entries@.subrange(0, i as int + 1).last() == entries@[i as int]);
            assert(groups_view(gs@) =~= groups_of(entries@.subrange(0, i as int + 1)));
        }
    }
    proof {
        assert(entries@.subrange(0, entries@.len() as int) =~= entries@);
    }
    gs
}

/// The fixed simulation lengths of the generation matrix.
pub open spec fn spec_simulation_lengths() -> Seq<u64> {
    seq![100u64, 1000u64, 10000u64, 100000u64, 1000000u64, 10000000u64]
}

/// The six simulation lengths a batch generation covers.
pub fn simulation_lengths() -> (v: Vec<u64>)
    ensures
        v@ == spec_simulation_lengths(),
{
    let mut v: Vec<u64> = Vec::new();
    v.push(100);
    v.push(1000);
    v.push(10000);
    v.push(100000);
    v.push(1000000);
    v.push(10000000);
    proof {
        assert(v@ =~= spec_simulation_lengths());
    }
    v
}

/// The file name that encodes a simulation length and a file index,
/// which is what later lets the aggregator group files by category.
pub open spec fn trace_file_name_spec(steps: u64, index: u64) -> Seq<char> {
    "vcd_output_"@ + dec_digits(steps as nat) + "_"@ + dec_digits(index as nat) + ".vcd"@
}

/// Renders the file name of one planned trace file.
pub fn trace_file_name(steps: u64, index: u64) -> (s: String)
    ensures
        s@ == trace_file_name_spec(steps, index),
{
    let mut s = String::from_str("vcd_output_");
    let a = crate::numfmt::u64_to_string(steps);
    s.append(a.as_str());
    s.append("_");
    let b = crate::numfmt::u64_to_string(index);
    s.append(b.as_str());
    s.append(".vcd");
    s
}

/// A category directory name reads back as the very simulation length it
/// was written with: the on-disk encoding of a category round-trips.
pub proof fn lemma_category_name_roundtrip(steps: u64)
    requires
        steps >= 1,
    ensures
        category_of(dec_digits(steps as nat)) == Some(steps),
{
    crate::numfmt::lemma_dec_digits_roundtrip(steps);
}

/// Every planned file name carries the trace-file extension, so the
/// aggregator will pick every generated file up.
pub proof fn lemma_trace_file_name_is_trace_file(steps: u64, index: u64)
    ensures
        is_trace_file_name(trace_file_name_spec(steps, index)),
{
    reveal_strlit("vcd_output_");
    reveal_strlit("_");
    reveal_strlit(".vcd");
    crate::numfmt::lemma_dec_digits_shape(steps as nat);
    crate::numfmt::lemma_dec_digits_shape(index as nat);
    let name = trace_file_name_spec(steps, index);
    assert(name.subrange(name.len() - 4, name.len() as int) =~= ".vcd"@);
}

/// One planned file of the generation matrix: the category directory it
/// goes to, its file name, and the simulation length it is written with.
pub struct PlannedFile {
    pub dir: String,
    pub file: String,
    pub steps: u64,
}

/// `p` is the planned file of index `index` in the category of `steps`.
pub open spec fn planned_ok(p: PlannedFile, steps: u64, index: u64) -> bool {
    &&& p.steps == steps
    &&& p.dir@ == dec_digits(steps as nat)
    &&& p.file@ == trace_file_name_spec(steps, index)
}

/// The whole fixed generation matrix: for each of the six simulation
/// lengths, in order, exactly twenty planned files, indexed 1 to 20.
pub fn generation_plan() -> (plan: Vec<PlannedFile>)
    ensures
        plan@.len() == 120,
        forall|i: int|
            0 <= i < 120 ==> planned_ok(
                #[trigger] plan@[i],
                spec_simulation_lengths()[i / 20],
                ((i % 20) + 1) as u64,
            ),
{
    let lengths = simulation_lengths();
    let mut plan: Vec<PlannedFile> = Vec::new();
    for li in 0..lengths.len()
        invariant
            lengths@ == spec_simulation_lengths(),
            plan@.len() == li * 20,
            forall|i: int|
                0 <= i < plan@.len() ==> planned_ok(
                    #[trigger] plan@[i],
                    spec_simulation_lengths()[i / 20],
                    ((i % 20) + 1) as u64,
                ),
    {
        let steps = lengths[li];
        let dir = crate::numfmt::u64_to_string(steps);
        let mut idx: u64 = 1;
        while idx <= 20
            invariant
                1 <= idx <= 21,
                0 <= li < 6,
                lengths@ == spec_simulation_lengths(),
                steps == spec_simulation_lengths()[li as int],
                dir@ == dec_digits(steps as nat),
                plan@.len() == li * 20 + (idx - 1),
                forall|i: int|
                    0 <= i < plan@.len() ==> planned_ok(
                        #[trigger] plan@[i],
                        spec_simulation_lengths()[i / 20],
                        ((i % 20) + 1) as u64,
                    ),
            decreases 21 - idx,
        {
            let file = trace_file_name(steps, idx);
            plan.push(PlannedFile { dir: dir.clone(), file, steps });
            proof {
                let n = plan@.len() - 1;
                vstd::arithmetic::div_mod::lemma_fundamental_div_mod_converse(
                    n,
                    20,
                    li as int,
                    idx - 1,
                );
            }
            idx += 1;
        }
    }
    plan
}

/// `errors`, newline-joined.
pub open spec fn joined_errors(errors: Seq<Seq<char>>) -> Seq<char>
    decreases errors.len(),
{
    if errors.len() == 0 {
        Seq::empty()
    } else if errors.len() == 1 {
        errors.last()
    } else {
        joined_errors(errors.drop_last()) + seq!['\n'] + errors.last()
    }
}

/// The generation error policy: success exactly when no error was
/// recorded, else one aggregate message holding every recorded failure,
/// newline-joined.
pub fn aggregate_errors(errors: &Vec<String>) -> (r: Option<String>)
    ensures
        r is None <==> errors@.len() == 0,
        errors@.len() > 0 ==> (r matches Some(m) && m@ == "Errors occurred:\n"@ + joined_errors(
            views_of(errors@),
        )),
{
    if errors.len() == 0 {
        return None;
    }
    let mut m = String::from_str("Errors occurred:\n");
    let mut joined = errors[0].clone();
    for i in 1..errors.len()
        invariant
            errors@.len() >= 1,
            joined@ == joined_errors(views_of(errors@.subrange(0, i as int))),
    {
        crate::numfmt::push_char(&mut joined, '\n');
        joined.append(errors[i].as_str());
        proof {
            let next = views_of(errors@.subrange(0, i as int + 1));
            assert(next.drop_last() =~= views_of(errors@.subrange(0, i as int)));
            assert(next.last() == errors@[i as int]@);
            assert(next.len() >= 2);
            assert(joined@ =~= joined_errors(next));
        }
    }
    proof {
        assert(views_of(errors@.subrange(0, 1)) =~= seq![errors@[0]@]);
        assert(errors@.subrange(0, errors@.len() as int) =~= errors@);
    }
    m.append(joined.as_str());
    Some(m)
}

} // verus!
