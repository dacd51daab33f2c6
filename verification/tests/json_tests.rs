use vcd::batch::{ParseOutcome, PathOutcome};
use vcd::json::results_to_json;

fn outcome(path: &str, events: u64, duration_ms: u64) -> PathOutcome {
    PathOutcome { path: String::from(path), outcome: ParseOutcome { events, duration_ms } }
}

#[test]
fn empty_batch_renders_as_empty_object() {
    let outcomes: Vec<PathOutcome> = Vec::new();
    assert_eq!(results_to_json(&outcomes), "{}");
}

#[test]
fn single_outcome_renders_exactly() {
    let outcomes = vec![outcome("a.vcd", 3, 1)];
    assert_eq!(results_to_json(&outcomes), "{\"a.vcd\":[3,1]}");
}

#[test]
fn boundary_json_deserializes_to_exact_arrays() {
    let outcomes = vec![outcome("pathA", 5, 10), outcome("pathB", 0, 2)];
    let json = results_to_json(&outcomes);
    let value: serde_json::Value = serde_json::from_str(&json).unwrap();
    let object = value.as_object().unwrap();
    assert_eq!(object.len(), 2);
    let a = object.get("pathA").unwrap().as_array().unwrap();
    assert_eq!(a.len(), 2);
    assert_eq!(a[0].as_u64(), Some(5));
    assert_eq!(a[1].as_u64(), Some(10));
    let b = object.get("pathB").unwrap().as_array().unwrap();
    assert_eq!(b.len(), 2);
    assert_eq!(b[0].as_u64(), Some(0));
    assert_eq!(b[1].as_u64(), Some(2));
}

#[test]
fn awkward_path_characters_survive_the_round_trip() {
    let path = "dir\\sub/we\"ird\npath\t.vcd";
    let outcomes = vec![outcome(path, 1, 2)];
    let json = results_to_json(&outcomes);
    let value: serde_json::Value = serde_json::from_str(&json).unwrap();
    let object = value.as_object().unwrap();
    assert_eq!(object.len(), 1);
    let entry = object.get(path).unwrap().as_array().unwrap();
    assert_eq!(entry[0].as_u64(), Some(1));
    assert_eq!(entry[1].as_u64(), Some(2));
}

#[test]
fn large_counts_render_as_exact_numbers() {
    let outcomes = vec![outcome("big", u64::MAX, 0)];
    assert_eq!(results_to_json(&outcomes), "{\"big\":[18446744073709551615,0]}");
}
