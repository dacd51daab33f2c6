use vcd::batch::{
    aggregate_errors, average_duration, collect_outcomes, generation_plan, group_entries,
    is_trace_file, parse_category_name, simulation_lengths, CategoryGroup, ParseOutcome,
    PathResult, SubdirListing,
};

#[test]
fn aggregation_skips_non_numeric_directories() {
    let entries = vec![
        SubdirListing {
            name: String::from("abc"),
            files: vec![String::from("x.vcd"), String::from("y.vcd")],
        },
        SubdirListing {
            name: String::from("100"),
            files: vec![String::from("a.vcd"), String::from("b.vcd")],
        },
    ];
    let groups: Vec<CategoryGroup> = group_entries(&entries);
    assert_eq!(groups.len(), 1);
    assert_eq!(groups[0].steps, 100);
    assert_eq!(groups[0].files.len(), 2);
    assert_eq!(groups[0].files[0], "a.vcd");
    assert_eq!(groups[0].files[1], "b.vcd");
}

#[test]
fn grouping_keeps_only_trace_files() {
    let entries = vec![SubdirListing {
        name: String::from("1000"),
        files: vec![
            String::from("a.vcd"),
            String::from("notes.txt"),
            String::from(".vcd"),
            String::from("b.vcd"),
        ],
    }];
    let groups = group_entries(&entries);
    assert_eq!(groups.len(), 1);
    assert_eq!(groups[0].files, vec![String::from("a.vcd"), String::from("b.vcd")]);
}

#[test]
fn category_names_must_be_positive_integers() {
    assert_eq!(parse_category_name("100"), Some(100));
    assert_eq!(parse_category_name("10000000"), Some(10000000));
    assert_eq!(parse_category_name("abc"), None);
    assert_eq!(parse_category_name("0"), None);
    assert_eq!(parse_category_name(""), None);
    assert_eq!(parse_category_name("100x"), None);
}

#[test]
fn trace_file_extension_is_checked() {
    assert!(is_trace_file("a.vcd"));
    assert!(is_trace_file("vcd_output_100_1.vcd"));
    assert!(!is_trace_file(".vcd"));
    assert!(!is_trace_file("a.txt"));
    assert!(!is_trace_file("A.VCD"));
    assert!(!is_trace_file("vcd"));
}

#[test]
fn failed_paths_are_dropped_not_raised() {
    let results = vec![
        PathResult {
            path: String::from("good.vcd"),
            outcome: Some(ParseOutcome { events: 5, duration_ms: 10 }),
        },
        PathResult { path: String::from("missing.vcd"), outcome: None },
    ];
    let kept = collect_outcomes(&results);
    assert_eq!(kept.len(), 1);
    assert_eq!(kept[0].path, "good.vcd");
    assert_eq!(kept[0].outcome, ParseOutcome { events: 5, duration_ms: 10 });
}

#[test]
fn zero_file_category_averages_to_zero() {
    assert_eq!(average_duration(100, 0), 0);
    assert_eq!(average_duration(0, 0), 0);
}

#[test]
fn averages_divide_rounding_down() {
    assert_eq!(average_duration(100, 3), 33);
    assert_eq!(average_duration(100, 20), 5);
    assert_eq!(average_duration(7, 10), 0);
}

#[test]
fn no_errors_means_success() {
    let errors: Vec<String> = Vec::new();
    assert!(aggregate_errors(&errors).is_none());
}

#[test]
fn errors_are_joined_into_one_message() {
    let errors = vec![String::from("first failure"), String::from("second failure")];
    let msg = aggregate_errors(&errors).unwrap();
    assert_eq!(msg, "Errors occurred:\nfirst failure\nsecond failure");
    let one = vec![String::from("only")];
    assert_eq!(aggregate_errors(&one).unwrap(), "Errors occurred:\nonly");
}

#[test]
fn generation_matrix_is_six_lengths_by_twenty_files() {
    let lengths = simulation_lengths();
    assert_eq!(lengths, vec![100u64, 1000, 10000, 100000, 1000000, 10000000]);
    let plan = generation_plan();
    assert_eq!(plan.len(), 120);
    assert_eq!(plan[0].steps, 100);
    assert_eq!(plan[0].dir, "100");
    assert_eq!(plan[0].file, "vcd_output_100_1.vcd");
    assert_eq!(plan[19].file, "vcd_output_100_20.vcd");
    assert_eq!(plan[20].steps, 1000);
    assert_eq!(plan[20].dir, "1000");
    assert_eq!(plan[20].file, "vcd_output_1000_1.vcd");
    assert_eq!(plan[119].steps, 10000000);
    assert_eq!(plan[119].file, "vcd_output_10000000_20.vcd");
}

#[test]
fn planned_names_group_back_to_their_category() {
    let plan = generation_plan();
    for p in &plan {
        assert_eq!(parse_category_name(&p.dir), Some(p.steps));
        assert!(is_trace_file(&p.file));
    }
}
