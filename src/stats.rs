//! The cache model: derived hit counts and an estimate of cycles.
use vstd::prelude::*;
use crate::events::{cost_of, Costs, EventType};

verus! {

/// The nine counters of a cache simulation.
#[derive(Debug, Clone, Copy, PartialEq, Eq, Structural)]
pub struct CallgrindStats {
    /// Ir: the number of instructions executed.
    pub instructions_executed: u64,
    /// Dr: memory reads.
    pub total_data_cache_reads: u64,
    /// Dw: memory writes.
    pub total_data_cache_writes: u64,
    /// I1mr: I1 cache read misses.
    pub l1_instructions_cache_read_misses: u64,
    /// D1mr: D1 cache read misses.
    pub l1_data_cache_read_misses: u64,
    /// D1mw: D1 cache write misses.
    pub l1_data_cache_write_misses: u64,
    /// ILmr: last-level cache instruction read misses.
    pub l3_instructions_cache_read_misses: u64,
    /// DLmr: last-level cache data read misses.
    pub l3_data_cache_read_misses: u64,
    /// DLmw: last-level cache data write misses.
    pub l3_data_cache_write_misses: u64,
}

/// Quantities derived from `CallgrindStats`.
#[derive(Debug, Clone, Copy, PartialEq, Eq, Structural)]
pub struct CallgrindSummary {
    pub instructions: u64,
    pub l1_hits: u64,
    pub l3_hits: u64,
    pub ram_hits: u64,
    pub total_memory_rw: u64,
    pub cycles: u64,
}

/// Accesses served from memory: ILmr + DLmr + DLmw.
pub open spec fn ram_hits_of(s: CallgrindStats) -> int {
    s.l3_instructions_cache_read_misses + s.l3_data_cache_read_misses + s.l3_data_cache_write_misses
}

/// L1 misses, which are the accesses of the last-level cache: I1mr + D1mr + D1mw.
pub open spec fn l1_misses_of(s: CallgrindStats) -> int {
    s.l1_instructions_cache_read_misses + s.l1_data_cache_read_misses + s.l1_data_cache_write_misses
}

/// Accesses served from the last-level cache.
pub open spec fn l3_hits_of(s: CallgrindStats) -> int {
    l1_misses_of(s) - ram_hits_of(s)
}

/// All accesses: Ir + Dr + Dw.
pub open spec fn total_rw_of(s: CallgrindStats) -> int {
    s.instructions_executed + s.total_data_cache_reads + s.total_data_cache_writes
}

/// Accesses served from L1.
pub open spec fn l1_hits_of(s: CallgrindStats) -> int {
    total_rw_of(s) - l3_hits_of(s) - ram_hits_of(s)
}

/// The estimate of cycles: an L1 hit costs one, a last-level hit five, a memory access 35.
pub open spec fn cycles_of(s: CallgrindStats) -> int {
    l1_hits_of(s) + 5 * l3_hits_of(s) + 35 * ram_hits_of(s)
}

/// The counters are consistent (no more memory accesses than L1 misses, no more L1
/// misses than accesses) and every derived quantity fits in `u64`.
pub open spec fn summary_defined(s: CallgrindStats) -> bool {
    ram_hits_of(s) <= l1_misses_of(s) && l1_misses_of(s) <= total_rw_of(s) && total_rw_of(s)
        <= u64::MAX && cycles_of(s) <= u64::MAX
}

/// The stats whose counters are those of `c` for each of the nine kinds.
pub open spec fn stats_of(c: Seq<crate::events::Event>) -> CallgrindStats {
    CallgrindStats {
        instructions_executed: cost_of(c, EventType::Ir),
        total_data_cache_reads: cost_of(c, EventType::Dr),
        total_data_cache_writes: cost_of(c, EventType::Dw),
        l1_instructions_cache_read_misses: cost_of(c, EventType::I1mr),
        l1_data_cache_read_misses: cost_of(c, EventType::D1mr),
        l1_data_cache_write_misses: cost_of(c, EventType::D1mw),
        l3_instructions_cache_read_misses: cost_of(c, EventType::ILmr),
        l3_data_cache_read_misses: cost_of(c, EventType::DLmr),
        l3_data_cache_write_misses: cost_of(c, EventType::DLmw),
    }
}

fn cost_or_zero(costs: &Costs, kind: EventType) -> (r: u64)
    ensures
        r == cost_of(costs@, kind),
{
    match costs.get_by_type(kind) {
        Some(e) => e.cost,
        None => 0,
    }
}

impl CallgrindStats {
    /// The nine counters taken from `costs` by kind; a kind that `costs` lacks counts zero.
    pub fn from_costs(costs: &Costs) -> (r: CallgrindStats)
        ensures
            r == stats_of(costs@),
    {
        CallgrindStats {
            instructions_executed: cost_or_zero(costs, EventType::Ir),
            total_data_cache_reads: cost_or_zero(costs, EventType::Dr),
            total_data_cache_writes: cost_or_zero(costs, EventType::Dw),
            l1_instructions_cache_read_misses: cost_or_zero(costs, EventType::I1mr),
            l1_data_cache_read_misses: cost_or_zero(costs, EventType::D1mr),
            l1_data_cache_write_misses: cost_or_zero(costs, EventType::D1mw),
            l3_instructions_cache_read_misses: cost_or_zero(costs, EventType::ILmr),
            l3_data_cache_read_misses: cost_or_zero(costs, EventType::DLmr),
            l3_data_cache_write_misses: cost_or_zero(costs, EventType::DLmw),
        }
    }

    /// The derived quantities; `None` where the counters are inconsistent or a
    /// quantity does not fit in `u64`.
    pub fn summarize(&self) -> (r: Option<CallgrindSummary>)
        ensures
            r is Some <==> summary_defined(*self),
            r matches Some(m) ==> m.instructions == self.instructions_executed && m.l1_hits
                == l1_hits_of(*self) && m.l3_hits == l3_hits_of(*self) && m.ram_hits == ram_hits_of(
                *self,
            ) && m.total_memory_rw == total_rw_of(*self) && m.cycles == cycles_of(*self),
    {
        let ram_hits = self.l3_instructions_cache_read_misses as u128
            + self.l3_data_cache_read_misses as u128 + self.l3_data_cache_write_misses as u128;
        let l1_miss = self.l1_instructions_cache_read_misses as u128
            + self.l1_data_cache_read_misses as u128 + self.l1_data_cache_write_misses as u128;
        let total_rw = self.instructions_executed as u128 + self.total_data_cache_reads as u128
            + self.total_data_cache_writes as u128;
        if ram_hits > l1_miss || l1_miss > total_rw || total_rw > u64::MAX as u128 {
            return None;
        }
        let l3_hits = l1_miss - ram_hits;
        let l1_hits = total_rw - l3_hits - ram_hits;
        let cycles = l1_hits + 5 * l3_hits + 35 * ram_hits;
        if cycles > u64::MAX as u128 {
            return None;
        }
        Some(
            CallgrindSummary {
                instructions: self.instructions_executed,
                l1_hits: l1_hits as u64,
                l3_hits: l3_hits as u64,
                ram_hits: ram_hits as u64,
                total_memory_rw: total_rw as u64,
                cycles: cycles as u64,
            },
        )
    }
}

/// L1, last-level and memory hits together account for every access: for counters
/// whose summary is defined, `l1_hits + l3_hits + ram_hits == Ir + Dr + Dw`.
pub proof fn lemma_hits_partition_accesses(s: CallgrindStats)
    requires
        summary_defined(s),
    ensures
        l1_hits_of(s) + l3_hits_of(s) + ram_hits_of(s) == s.instructions_executed
            + s.total_data_cache_reads + s.total_data_cache_writes,
        0 <= ram_hits_of(s) && 0 <= l3_hits_of(s) && 0 <= l1_hits_of(s),
{
}

} // verus!
