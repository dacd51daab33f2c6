use rayon::iter::{IntoParallelRefIterator, ParallelIterator};
use vcd::parser::count_events;
use vcd::trace::trace_content;

fn parse_on_pool(files: &Vec<Vec<String>>, threads: usize) -> Vec<usize> {
    let pool = rayon::ThreadPoolBuilder::new().num_threads(threads).build().unwrap();
    let mut counts: Vec<usize> =
        pool.install(|| files.par_iter().map(|lines| count_events(lines)).collect());
    counts.sort();
    counts
}

#[test]
fn outcomes_do_not_depend_on_worker_pool_size() {
    let mut files: Vec<Vec<String>> = Vec::new();
    for steps in [0u64, 1, 2, 5, 8, 13, 21, 34, 55, 89] {
        files.push(trace_content("same clock", steps));
    }
    let serial = parse_on_pool(&files, 1);
    let parallel = parse_on_pool(&files, 8);
    assert_eq!(serial, parallel);
    assert_eq!(serial, vec![0, 1, 2, 5, 8, 13, 21, 34, 55, 89]);
}
