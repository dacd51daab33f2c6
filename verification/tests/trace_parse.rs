use vcd::parser::{count_events, line_is_event};
use vcd::trace::{build_trace, trace_content};

fn expected_header(date: &str) -> Vec<String> {
    vec![
        String::from("$date"),
        format!("   {}", date),
        String::from("$end"),
        String::from("$version"),
        String::from("   Rust VCD file generator"),
        String::from("$end"),
        String::from("$timescale 1ns $end"),
        String::from("$scope module top $end"),
        String::from("$var wire 1 ! signal1 $end"),
        String::from("$upscope $end"),
        String::from("$enddefinitions $end"),
        String::from("$dumpvars"),
        String::from("b0 !"),
        String::from("$end"),
    ]
}

#[test]
fn two_step_trace_text_is_exact() {
    let lines = trace_content("some date", 2);
    let mut expected = expected_header("some date");
    expected.push(String::from("#0"));
    expected.push(String::from("1!"));
    expected.push(String::from("#1"));
    expected.push(String::from("0!"));
    assert_eq!(lines, expected);
}

#[test]
fn write_then_parse_round_trips_on_count() {
    for steps in [0u64, 1, 2, 3, 7, 100] {
        let lines = trace_content("today", steps);
        assert_eq!(count_events(&lines) as u64, steps);
    }
}

#[test]
fn zero_step_trace_parses_to_zero_events() {
    let lines = trace_content("today", 0);
    assert_eq!(lines.len(), 14);
    assert_eq!(count_events(&lines), 0);
}

#[test]
fn date_line_is_sanitized() {
    let lines = trace_content("bad\ndate\r", 0);
    assert_eq!(lines[1], "   baddate");
}

#[test]
fn clock_stamped_trace_still_round_trips() {
    let lines = build_trace(5);
    assert_eq!(count_events(&lines), 5);
    for line in &lines {
        assert!(!line.contains('\n'));
        assert!(!line.contains('\r'));
    }
}

#[test]
fn event_line_recognition_is_narrow() {
    assert!(line_is_event("0!"));
    assert!(line_is_event("1!"));
    assert!(line_is_event("1 anything here !"));
    assert!(!line_is_event(""));
    assert!(!line_is_event("0"));
    assert!(!line_is_event("!"));
    assert!(!line_is_event("#12"));
    assert!(!line_is_event("b0 !"));
    assert!(!line_is_event("$var wire 1 ! signal1 $end"));
    assert!(!line_is_event("2!"));
    assert!(!line_is_event("0?"));
}

#[test]
fn count_counts_only_event_lines() {
    let lines = vec![
        String::from("$dumpvars"),
        String::from("0!"),
        String::from("#0"),
        String::from("1!"),
        String::from(""),
        String::from("1!"),
    ];
    assert_eq!(count_events(&lines), 3);
}
