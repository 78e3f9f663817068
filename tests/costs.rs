use iai_callgrind_runner::diff::{percentage_display, CostsDiff, DiffDisplay, Ratio};
use iai_callgrind_runner::events::{Costs, CostsError, Event, EventType};
use iai_callgrind_runner::stats::CallgrindStats;
use iai_callgrind_runner::summary::CostsSummary;

fn stats(v: [u64; 9]) -> CallgrindStats {
    CallgrindStats {
        instructions_executed: v[0],
        total_data_cache_reads: v[1],
        total_data_cache_writes: v[2],
        l1_instructions_cache_read_misses: v[3],
        l1_data_cache_read_misses: v[4],
        l1_data_cache_write_misses: v[5],
        l3_instructions_cache_read_misses: v[6],
        l3_data_cache_read_misses: v[7],
        l3_data_cache_write_misses: v[8],
    }
}

#[test]
fn summarize_formula() {
    let s = stats([100, 20, 10, 5, 4, 1, 2, 1, 1]).summarize().unwrap();
    assert_eq!(s.ram_hits, 4);
    assert_eq!(s.l3_hits, 6);
    assert_eq!(s.total_memory_rw, 130);
    assert_eq!(s.l1_hits, 120);
    assert_eq!(s.cycles, 120 + 30 + 140);
    assert_eq!(s.l1_hits + s.l3_hits + s.ram_hits, 100 + 20 + 10);
}

#[test]
fn summarize_rejects_inconsistent_counters() {
    assert!(stats([1, 0, 0, 0, 0, 0, 5, 0, 0]).summarize().is_none());
    assert!(stats([1, 0, 0, 9, 0, 0, 0, 0, 0]).summarize().is_none());
}

#[test]
fn costs_add_and_lookup() {
    let mut c = Costs::zeroed(&vec![EventType::Ir, EventType::Dr]);
    c.add_iter_str(&vec!["3".to_string(), "4".to_string(), "9".to_string()]).unwrap();
    let other = Costs(vec![Event { kind: EventType::Ir, cost: 1 }]);
    c.add(&other);
    assert_eq!(c.get_by_type(EventType::Ir).unwrap().cost, 4);
    assert_eq!(c.get_by_index(1).unwrap().cost, 4);
    assert!(c.get_by_index(2).is_none());
    assert!(c.get_by_type(EventType::Dw).is_none());
    assert_eq!(c.add_iter_str(&vec!["a".to_string()]), Err(CostsError::InvalidNumber));
    assert_eq!(c.add_iter_str(&vec!["18446744073709551615".to_string()]), Err(CostsError::Overflow));
    assert_eq!(c.get_by_type(EventType::Ir).unwrap().cost, 4);
}

#[test]
fn event_names() {
    assert_eq!(EventType::from_name("DLmw"), Some(EventType::DLmw));
    assert_eq!(EventType::from_name("sysCpuTime"), Some(EventType::sysCpuTime));
    assert_eq!(EventType::from_name("nope"), None);
    assert_eq!(EventType::SpLoss2.name(), "SpLoss2");
}

#[test]
fn diff_of_present_costs() {
    let d = CostsDiff::from_costs(Some(110), Some(100)).unwrap();
    assert_eq!(d.diff_pct, Some(Ratio { num: 1000, den: 100 }));
    assert_eq!(d.factor, Some(Ratio { num: 110, den: 100 }));
    let d = CostsDiff::from_costs(Some(90), Some(100)).unwrap();
    assert!(d.diff_pct.unwrap().num < 0);
    let d = CostsDiff::from_costs(Some(5), Some(0)).unwrap();
    assert!(d.factor.is_none());
    assert!(d.diff_pct.unwrap().num > 0);
    let d = CostsDiff::from_costs(None, Some(3)).unwrap();
    assert!(d.diff_pct.is_none() && d.factor.is_none());
    assert!(CostsDiff::from_costs(None, None).is_none());
}

#[test]
fn diff_formatting() {
    assert_eq!(percentage_display(110, 100), DiffDisplay::Increase { precision: 5 });
    assert_eq!(percentage_display(100, 100), DiffDisplay::NoChange);
    assert_eq!(percentage_display(95, 100), DiffDisplay::Decrease { precision: 6 });
    assert_eq!(percentage_display(300, 100), DiffDisplay::Increase { precision: 4 });
    assert_eq!(percentage_display(5_000, 1), DiffDisplay::Increase { precision: 1 });
    assert_eq!(percentage_display(1, 0), DiffDisplay::Increase { precision: 0 });
}

#[test]
fn costs_summary_union() {
    let new = Costs(vec![Event { kind: EventType::Ir, cost: 10 }, Event { kind: EventType::Dr, cost: 2 }]);
    let old = Costs(vec![Event { kind: EventType::Dw, cost: 1 }, Event { kind: EventType::Ir, cost: 5 }]);
    let s = CostsSummary::new(&new, Some(&old));
    let kinds: Vec<EventType> = s.entries().iter().map(|e| e.0).collect();
    assert_eq!(kinds, vec![EventType::Ir, EventType::Dr, EventType::Dw]);
    let ir = s.diff_by_kind(EventType::Ir).unwrap();
    assert_eq!((ir.new, ir.old), (Some(10), Some(5)));
    assert_eq!(ir.diff_pct, Some(Ratio { num: 500, den: 5 }));
    let dw = s.diff_by_kind(EventType::Dw).unwrap();
    assert_eq!((dw.new, dw.old), (None, Some(1)));
    let only_new = CostsSummary::new(&new, None);
    assert_eq!(only_new.entries().len(), 2);
    assert_eq!(only_new.diff_by_kind(EventType::Dr).unwrap().old, None);
    assert!(only_new.diff_by_kind(EventType::Dw).is_none());
}
