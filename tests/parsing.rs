use iai_callgrind_runner::events::{Costs, EventType};
use iai_callgrind_runner::parser::{parse_callgrind, parse_summary, ParseError};
use iai_callgrind_runner::positions::PositionsMode;
use iai_callgrind_runner::sentinel::Sentinel;
use iai_callgrind_runner::stats::CallgrindStats;

fn lines(text: &str) -> Vec<String> {
    text.lines().map(|l| l.to_string()).collect()
}

fn costs_of(c: &Costs) -> Vec<(EventType, u64)> {
    c.0.iter().map(|e| (e.kind, e.cost)).collect()
}

const ONE_CALLEE: &str = "# callgrind format
events: Ir Dr Dw
positions: line
fn=my_mod::bench_a
12 4 1 0
cfn=my_mod::inner
calls=1 12
14 100 20 5
";

#[test]
fn header_less_file() {
    let input = lines("events: Ir Dr Dw\npositions: line\nfn=my_mod::bench_a\ncfn=my_mod::inner\ncalls=1 12\n14 100 20 5\n");
    let parsed = parse_callgrind(&input, &Sentinel::new("my_mod::bench_a")).unwrap();
    assert!(!parsed.has_format_header);
    assert_eq!(
        costs_of(&parsed.costs),
        vec![(EventType::Ir, 100), (EventType::Dr, 20), (EventType::Dw, 5)]
    );
}

#[test]
fn sentinel_with_one_callee() {
    let parsed = parse_callgrind(&lines(ONE_CALLEE), &Sentinel::new("my_mod::bench_a")).unwrap();
    assert!(parsed.has_format_header);
    assert_eq!(
        costs_of(&parsed.costs),
        vec![(EventType::Ir, 100), (EventType::Dr, 20), (EventType::Dw, 5)]
    );
}

#[test]
fn two_callees_summed() {
    let text = format!("{ONE_CALLEE}cfn=my_mod::inner2\ncalls=1 15\n17 50 10 2\n");
    let parsed = parse_callgrind(&lines(&text), &Sentinel::new("my_mod::bench_a")).unwrap();
    assert_eq!(
        costs_of(&parsed.costs),
        vec![(EventType::Ir, 150), (EventType::Dr, 30), (EventType::Dw, 7)]
    );
}

#[test]
fn positions_instr_line() {
    let text = "# callgrind format\nevents: Ir Dr Dw\npositions: instr line\nfn=m::b\ncfn=m::c\ncalls=1 0 0\n0x10 7 1000 200 40\n";
    let parsed = parse_callgrind(&lines(text), &Sentinel::new("m::b")).unwrap();
    assert_eq!(
        costs_of(&parsed.costs),
        vec![(EventType::Ir, 1000), (EventType::Dr, 200), (EventType::Dw, 40)]
    );
}

#[test]
fn positions_instr_line_without_events_line_uses_cache_counters() {
    let text = "positions: instr line\nfn=m::b\ncfn=m::c\ncalls=1 0 0\n0x10 7 1000 200 40\n";
    let parsed = parse_callgrind(&lines(text), &Sentinel::new("m::b")).unwrap();
    let stats = CallgrindStats::from_costs(&parsed.costs);
    assert_eq!(stats.instructions_executed, 1000);
    assert_eq!(stats.total_data_cache_reads, 200);
    assert_eq!(stats.total_data_cache_writes, 40);
    assert_eq!(stats.l1_instructions_cache_read_misses, 0);
}

#[test]
fn no_callee_gives_zero_costs() {
    let text = "# callgrind format\nevents: Ir Dr Dw\npositions: line\nfn=my_mod::bench_a\n12 4 1 0\n13 8 2 1\n";
    let parsed = parse_callgrind(&lines(text), &Sentinel::new("my_mod::bench_a")).unwrap();
    assert_eq!(
        costs_of(&parsed.costs),
        vec![(EventType::Ir, 0), (EventType::Dr, 0), (EventType::Dw, 0)]
    );
}

#[test]
fn missing_sentinel_gives_zero_costs() {
    let parsed = parse_callgrind(&lines(ONE_CALLEE), &Sentinel::new("other::bench")).unwrap();
    assert_eq!(
        costs_of(&parsed.costs),
        vec![(EventType::Ir, 0), (EventType::Dr, 0), (EventType::Dw, 0)]
    );
}

#[test]
fn blank_line_ends_the_record() {
    let text = "# callgrind format\nevents: Ir\nfn=a::b\ncfn=a::c\ncalls=1 1\n1 10\n\n2 99\nfn=a::b\ncfn=a::d\ncalls=1 1\n1 5\n";
    let parsed = parse_callgrind(&lines(text), &Sentinel::new("a::b")).unwrap();
    assert_eq!(costs_of(&parsed.costs), vec![(EventType::Ir, 15)]);
}

#[test]
fn cost_line_with_fewer_columns_counts_the_rest_as_zero() {
    let text = "events: Ir Dr Dw\nfn=a::b\ncfn=a::c\ncalls=1 1\n1 10\n2 1 2 3\n";
    let parsed = parse_callgrind(&lines(text), &Sentinel::new("a::b")).unwrap();
    assert_eq!(
        costs_of(&parsed.costs),
        vec![(EventType::Ir, 11), (EventType::Dr, 2), (EventType::Dw, 3)]
    );
}

#[test]
fn empty_file_is_an_error() {
    let r = parse_callgrind(&lines("\n  \n"), &Sentinel::new("a::b"));
    assert_eq!(r.unwrap_err(), ParseError::EmptyFile);
    assert_eq!(parse_summary(&vec![]).unwrap_err(), ParseError::EmptyFile);
}

#[test]
fn unknown_event_is_an_error() {
    let r = parse_callgrind(&lines("events: Ir Foo\n"), &Sentinel::new("a::b"));
    assert_eq!(r.unwrap_err(), ParseError::UnknownEvent);
}

#[test]
fn invalid_counter_is_an_error() {
    let text = "events: Ir\nfn=a::b\ncfn=a::c\ncalls=1 1\n1 1x\n";
    let r = parse_callgrind(&lines(text), &Sentinel::new("a::b"));
    assert_eq!(r.unwrap_err(), ParseError::InvalidNumber);
}

#[test]
fn overflowing_sum_is_an_error() {
    let text = "events: Ir\nfn=a::b\ncfn=a::c\ncalls=1 1\n1 18446744073709551615\n2 1\n";
    let r = parse_callgrind(&lines(text), &Sentinel::new("a::b"));
    assert_eq!(r.unwrap_err(), ParseError::Overflow);
}

#[test]
fn summary_line_is_read() {
    let text = "# callgrind format\nevents: Ir Dr Dw I1mr D1mr D1mw ILmr DLmr DLmw\nsummary: 1 2 3 4 5 6 7 8 9 10\n";
    let parsed = parse_summary(&lines(text)).unwrap();
    let stats = CallgrindStats::from_costs(&parsed.costs);
    assert_eq!(stats.instructions_executed, 1);
    assert_eq!(stats.total_data_cache_reads, 2);
    assert_eq!(stats.total_data_cache_writes, 3);
    assert_eq!(stats.l1_instructions_cache_read_misses, 4);
    assert_eq!(stats.l1_data_cache_read_misses, 5);
    assert_eq!(stats.l1_data_cache_write_misses, 6);
    assert_eq!(stats.l3_instructions_cache_read_misses, 7);
    assert_eq!(stats.l3_data_cache_read_misses, 8);
    assert_eq!(stats.l3_data_cache_write_misses, 9);
}

#[test]
fn totals_line_is_read_and_missing_counters_are_zero() {
    let parsed = parse_summary(&lines("x\ntotals: 5 6\n")).unwrap();
    assert!(!parsed.has_format_header);
    let stats = CallgrindStats::from_costs(&parsed.costs);
    assert_eq!(stats.instructions_executed, 5);
    assert_eq!(stats.total_data_cache_reads, 6);
    assert_eq!(stats.total_data_cache_writes, 0);
}

#[test]
fn positions_lines() {
    assert_eq!(PositionsMode::from_positions_line("positions: instr line"), Some(PositionsMode::InstrLine));
    assert_eq!(PositionsMode::from_positions_line("  positions: line instr "), Some(PositionsMode::InstrLine));
    assert_eq!(PositionsMode::from_positions_line("positions: instr"), Some(PositionsMode::Instr));
    assert_eq!(PositionsMode::from_positions_line("positions: line"), Some(PositionsMode::Line));
    assert_eq!(PositionsMode::from_positions_line("positions: column"), None);
    assert_eq!(PositionsMode::from_positions_line("events: Ir"), None);
    assert_eq!(PositionsMode::parse(" instr "), Some(PositionsMode::Instr));
    assert_eq!(PositionsMode::default(), PositionsMode::Line);
    assert_eq!(PositionsMode::InstrLine.columns(), 2);
}

#[test]
fn sentinel_forms() {
    let s = Sentinel::from_path("my_mod", "bench_a");
    assert_eq!(s.0, "my_mod::bench_a");
    assert_eq!(s.to_fn(), "fn=my_mod::bench_a");
    assert!(s.matches("my_mod::bench_a::{{closure}}"));
    assert!(!s.matches("my_mod::bench"));
    let segs = Sentinel::from_segments(&vec!["a".to_string(), "b".to_string(), "c".to_string()]);
    assert_eq!(segs.0, "a::b::c");
    assert_eq!(Sentinel::from_segments(&vec![]).0, "");
}
