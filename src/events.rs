//! Event kinds recorded by callgrind and vectors of per-event costs.
use vstd::prelude::*;
use crate::text::{parses_u64, str_eq, u64_value, parse_u64, views};

verus! {

/// The event counters that callgrind can record.
#[allow(non_camel_case_types)]
#[derive(Debug, Clone, Copy, PartialEq, Eq, Hash, Structural)]
pub enum EventType {
    Ir,
    sysCount,
    sysTime,
    sysCpuTime,
    Ge,
    Dr,
    Dw,
    I1mr,
    ILmr,
    D1mr,
    DLmr,
    D1mw,
    DLmw,
    Bc,
    Bcm,
    Bi,
    Bim,
    ILdmr,
    DLdmr,
    DLdmw,
    AcCost1,
    AcCost2,
    SpLoss1,
    SpLoss2,
}

/// The name under which callgrind writes an event kind in its `events:` line.
pub open spec fn event_name(kind: EventType) -> Seq<char> {
    match kind {
        EventType::Ir => "Ir"@,
        EventType::sysCount => "sysCount"@,
        EventType::sysTime => "sysTime"@,
        EventType::sysCpuTime => "sysCpuTime"@,
        EventType::Ge => "Ge"@,
        EventType::Dr => "Dr"@,
        EventType::Dw => "Dw"@,
        EventType::I1mr => "I1mr"@,
        EventType::ILmr => "ILmr"@,
        EventType::D1mr => "D1mr"@,
        EventType::DLmr => "DLmr"@,
        EventType::D1mw => "D1mw"@,
        EventType::DLmw => "DLmw"@,
        EventType::Bc => "Bc"@,
        EventType::Bcm => "Bcm"@,
        EventType::Bi => "Bi"@,
        EventType::Bim => "Bim"@,
        EventType::ILdmr => "ILdmr"@,
        EventType::DLdmr => "DLdmr"@,
        EventType::DLdmw => "DLdmw"@,
        EventType::AcCost1 => "AcCost1"@,
        EventType::AcCost2 => "AcCost2"@,
        EventType::SpLoss1 => "SpLoss1"@,
        EventType::SpLoss2 => "SpLoss2"@,
    }
}

/// The event kind whose name is `name`, if any.
pub open spec fn event_of_name(name: Seq<char>) -> Option<EventType> {
    if name == "Ir"@ {
        Some(EventType::Ir)
    } else if name == "sysCount"@ {
        Some(EventType::sysCount)
    } else if name == "sysTime"@ {
        Some(EventType::sysTime)
    } else if name == "sysCpuTime"@ {
        Some(EventType::sysCpuTime)
    } else if name == "Ge"@ {
        Some(EventType::Ge)
    } else if name == "Dr"@ {
        Some(EventType::Dr)
    } else if name == "Dw"@ {
        Some(EventType::Dw)
    } else if name == "I1mr"@ {
        Some(EventType::I1mr)
    } else if name == "ILmr"@ {
        Some(EventType::ILmr)
    } else if name == "D1mr"@ {
        Some(EventType::D1mr)
    } else if name == "DLmr"@ {
        Some(EventType::DLmr)
    } else if name == "D1mw"@ {
        Some(EventType::D1mw)
    } else if name == "DLmw"@ {
        Some(EventType::DLmw)
    } else if name == "Bc"@ {
        Some(EventType::Bc)
    } else if name == "Bcm"@ {
        Some(EventType::Bcm)
    } else if name == "Bi"@ {
        Some(EventType::Bi)
    } else if name == "Bim"@ {
        Some(EventType::Bim)
    } else if name == "ILdmr"@ {
        Some(EventType::ILdmr)
    } else if name == "DLdmr"@ {
        Some(EventType::DLdmr)
    } else if name == "DLdmw"@ {
        Some(EventType::DLdmw)
    } else if name == "AcCost1"@ {
        Some(EventType::AcCost1)
    } else if name == "AcCost2"@ {
        Some(EventType::AcCost2)
    } else if name == "SpLoss1"@ {
        Some(EventType::SpLoss1)
    } else if name == "SpLoss2"@ {
        Some(EventType::SpLoss2)
    } else {
        None
    }
}

/// The nine counters of a cache simulation, in the order callgrind writes them.
pub open spec fn canonical_kinds() -> Seq<EventType> {
    seq![
        EventType::Ir,
        EventType::Dr,
        EventType::Dw,
        EventType::I1mr,
        EventType::D1mr,
        EventType::D1mw,
        EventType::ILmr,
        EventType::DLmr,
        EventType::DLmw,
    ]
}

impl EventType {
    /// The event kind named `name` in an `events:` line; `None` for an unknown name.
    pub fn from_name(name: &str) -> (r: Option<EventType>)
        ensures
            r == event_of_name(name@),
    {
        if str_eq(name, "Ir") {
            return Some(EventType::Ir);
        }
        if str_eq(name, "sysCount") {
            return Some(EventType::sysCount);
        }
        if str_eq(name, "sysTime") {
            return Some(EventType::sysTime);
        }
        if str_eq(name, "sysCpuTime") {
            return Some(EventType::sysCpuTime);
        }
        if str_eq(name, "Ge") {
            return Some(EventType::Ge);
        }
        if str_eq(name, "Dr") {
            return Some(EventType::Dr);
        }
        if str_eq(name, "Dw") {
            return Some(EventType::Dw);
        }
        if str_eq(name, "I1mr") {
            return Some(EventType::I1mr);
        }
        if str_eq(name, "ILmr") {
            return Some(EventType::ILmr);
        }
        if str_eq(name, "D1mr") {
            return Some(EventType::D1mr);
        }
        if str_eq(name, "DLmr") {
            return Some(EventType::DLmr);
        }
        if str_eq(name, "D1mw") {
            return Some(EventType::D1mw);
        }
        if str_eq(name, "DLmw") {
            return Some(EventType::DLmw);
        }
        if str_eq(name, "Bc") {
            return Some(EventType::Bc);
        }
        if str_eq(name, "Bcm") {
            return Some(EventType::Bcm);
        }
        if str_eq(name, "Bi") {
            return Some(EventType::Bi);
        }
        if str_eq(name, "Bim") {
            return Some(EventType::Bim);
        }
        if str_eq(name, "ILdmr") {
            return Some(EventType::ILdmr);
        }
        if str_eq(name, "DLdmr") {
            return Some(EventType::DLdmr);
        }
        if str_eq(name, "DLdmw") {
            return Some(EventType::DLdmw);
        }
        if str_eq(name, "AcCost1") {
            return Some(EventType::AcCost1);
        }
        if str_eq(name, "AcCost2") {
            return Some(EventType::AcCost2);
        }
        if str_eq(name, "SpLoss1") {
            return Some(EventType::SpLoss1);
        }
        if str_eq(name, "SpLoss2") {
            return Some(EventType::SpLoss2);
        }
        None
    }

    /// The name of this event kind as callgrind writes it.
    pub fn name(&self) -> (r: String)
        ensures
            r@ == event_name(*self),
    {
        let s = match self {
            EventType::Ir => "Ir",
            EventType::sysCount => "sysCount",
            EventType::sysTime => "sysTime",
            EventType::sysCpuTime => "sysCpuTime",
            EventType::Ge => "Ge",
            EventType::Dr => "Dr",
            EventType::Dw => "Dw",
            EventType::I1mr => "I1mr",
            EventType::ILmr => "ILmr",
            EventType::D1mr => "D1mr",
            EventType::DLmr => "DLmr",
            EventType::D1mw => "D1mw",
            EventType::DLmw => "DLmw",
            EventType::Bc => "Bc",
            EventType::Bcm => "Bcm",
            EventType::Bi => "Bi",
            EventType::Bim => "Bim",
            EventType::ILdmr => "ILdmr",
            EventType::DLdmr => "DLdmr",
            EventType::DLdmw => "DLdmw",
            EventType::AcCost1 => "AcCost1",
            EventType::AcCost2 => "AcCost2",
            EventType::SpLoss1 => "SpLoss1",
            EventType::SpLoss2 => "SpLoss2",
        };
        s.to_owned()
    }
}

/// One counter: an event kind and its cost.
#[derive(Debug, Clone, Copy, PartialEq, Eq, Structural)]
pub struct Event {
    pub kind: EventType,
    pub cost: u64,
}

/// Counters in the order of an `events:` line.
#[derive(Debug, Clone)]
pub struct Costs(pub Vec<Event>);

/// Why adding a row of counters failed.
#[derive(Debug, Clone, Copy, PartialEq, Eq, Structural)]
pub enum CostsError {
    /// A counter is not a decimal number that fits in `u64`.
    InvalidNumber,
    /// A sum does not fit in `u64`.
    Overflow,
}

impl View for Costs {
    type V = Seq<Event>;

    open spec fn view(&self) -> Seq<Event> {
        self.0@
    }
}

/// The smaller of two lengths: how many pairs a zip of the two yields.
pub open spec fn zip_len(a: int, b: int) -> int {
    if a < b {
        a
    } else {
        b
    }
}

/// The first counter of kind `kind`.
pub open spec fn find_kind(s: Seq<Event>, kind: EventType) -> Option<Event>
    decreases s.len(),
{
    if s.len() == 0 {
        None
    } else if s[0].kind == kind {
        Some(s[0])
    } else {
        find_kind(s.drop_first(), kind)
    }
}

/// The cost of the first counter of kind `kind`, zero where there is none.
pub open spec fn cost_of(s: Seq<Event>, kind: EventType) -> u64 {
    match find_kind(s, kind) {
        Some(e) => e.cost,
        None => 0,
    }
}

/// Zeroed counters of the given kinds.
pub open spec fn zero_costs(kinds: Seq<EventType>) -> Seq<Event> {
    kinds.map_values(|k: EventType| Event { kind: k, cost: 0 })
}

/// `c` with `v[j]` added to the cost of column `j`, for each column both have.
pub open spec fn add_columns(c: Seq<Event>, v: Seq<nat>) -> Seq<(EventType, int)> {
    Seq::new(
        c.len(),
        |j: int|
            (c[j].kind, if j < v.len() {
                c[j].cost + v[j]
            } else {
                c[j].cost as int
            }),
    )
}

/// Every sum of `add_columns(c, v)` fits in `u64`.
pub open spec fn sums_fit(c: Seq<Event>, v: Seq<nat>) -> bool {
    forall|j: int| 0 <= j < c.len() ==> (#[trigger] add_columns(c, v)[j]).1 <= u64::MAX
}

/// The counters that `add_columns` describes, where they fit.
pub open spec fn as_events(s: Seq<(EventType, int)>) -> Seq<Event> {
    s.map_values(|p: (EventType, int)| Event { kind: p.0, cost: p.1 as u64 })
}

/// The values of the first `n` strings of `v`, read as numbers.
pub open spec fn values_of(v: Seq<Seq<char>>, n: int) -> Seq<nat> {
    Seq::new(n as nat, |j: int| u64_value(v[j]))
}

/// Each of the first `n` strings of `v` is a `u64`.
pub open spec fn all_parse(v: Seq<Seq<char>>, n: int) -> bool {
    forall|j: int| 0 <= j < n ==> parses_u64(#[trigger] v[j])
}

/// The counters `c` after adding the row of numbers `vs`, as `Costs::add_iter_str` does it.
pub open spec fn add_row(c: Seq<Event>, vs: Seq<Seq<char>>) -> Result<Seq<Event>, CostsError> {
    let n = zip_len(c.len() as int, vs.len() as int);
    if !all_parse(vs, n) {
        Err(CostsError::InvalidNumber)
    } else if !sums_fit(c, values_of(vs, n)) {
        Err(CostsError::Overflow)
    } else {
        Ok(as_events(add_columns(c, values_of(vs, n))))
    }
}

/// The event kinds named by `names`, where every name is known.
pub open spec fn kinds_of_names(names: Seq<Seq<char>>) -> Option<Seq<EventType>> {
    if forall|i: int| 0 <= i < names.len() ==> (#[trigger] event_of_name(names[i])) is Some {
        Some(names.map_values(|n: Seq<char>| event_of_name(n)->Some_0))
    } else {
        None
    }
}

/// The event kinds named by `names`; `None` where a name is unknown.
pub fn kinds_from_names(names: &Vec<String>) -> (r: Option<Vec<EventType>>)
    ensures
        match r {
            Some(k) => kinds_of_names(views(names@)) == Some(k@),
            None => kinds_of_names(views(names@)) is None,
        },
{
    let ghost ns = views(names@);
    let mut kinds: Vec<EventType> = Vec::new();
    let mut i: usize = 0;
    while i < names.len()
        invariant
            ns == views(names@),
            i <= names@.len(),
            kinds@.len() == i,
            forall|j: int| 0 <= j < i ==> (#[trigger] event_of_name(ns[j])) == Some(kinds@[j]),
        decreases names@.len() - i,
    {
        match EventType::from_name(names[i].as_str()) {
            Some(k) => kinds.push(k),
            None => {
                assert(event_of_name(ns[i as int]) is None);
                return None;
            },
        }
        i = i + 1;
    }
    assert(ns.map_values(|n: Seq<char>| event_of_name(n)->Some_0) =~= kinds@);
    Some(kinds)
}

impl Default for Costs {
    /// A single zeroed `Ir` counter.
    fn default() -> (r: Costs)
        ensures
            r@ == seq![Event { kind: EventType::Ir, cost: 0 }],
    {
        let v = vec![Event { kind: EventType::Ir, cost: 0 }];
        Costs(v)
    }
}

impl Costs {
    /// Zeroed counters for the event kinds named by `names`, in that order; `None`
    /// where a name is unknown.
    pub fn from_names(names: &Vec<String>) -> (r: Option<Costs>)
        ensures
            match kinds_of_names(views(names@)) {
                Some(k) => r matches Some(c) && c@ == zero_costs(k),
                None => r is None,
            },
    {
        match kinds_from_names(names) {
            Some(k) => Some(Costs::zeroed(&k)),
            None => None,
        }
    }

    /// Zeroed counters of the nine cache-simulation kinds, in callgrind's order.
    pub fn canonical() -> (r: Costs)
        ensures
            r@ == zero_costs(canonical_kinds()),
    {
        let kinds = vec![
            EventType::Ir,
            EventType::Dr,
            EventType::Dw,
            EventType::I1mr,
            EventType::D1mr,
            EventType::D1mw,
            EventType::ILmr,
            EventType::DLmr,
            EventType::DLmw,
        ];
        assert(kinds@ =~= canonical_kinds());
        Costs::zeroed(&kinds)
    }

    /// Zeroed counters of the given kinds, in that order.
    pub fn zeroed(kinds: &Vec<EventType>) -> (r: Costs)
        ensures
            r@ == zero_costs(kinds@),
    {
        let mut v: Vec<Event> = Vec::new();
        let mut i: usize = 0;
        while i < kinds.len()
            invariant
                i <= kinds@.len(),
                v@ == zero_costs(kinds@.subrange(0, i as int)),
            decreases kinds.len() - i,
        {
            v.push(Event { kind: kinds[i], cost: 0 });
            i = i + 1;
            assert(v@ =~= zero_costs(kinds@.subrange(0, i as int)));
        }
        assert(kinds@.subrange(0, i as int) =~= kinds@);
        Costs(v)
    }

    /// Adds the numbers in `values` to the counters column by column. Where `values`
    /// is shorter the remaining counters stay as they are; where it is longer the rest
    /// is ignored. On an error nothing is changed.
    pub fn add_iter_str(&mut self, values: &Vec<String>) -> (r: Result<(), CostsError>)
        ensures
            match add_row(old(self)@, views(values@)) {
                Ok(c) => r is Ok && final(self)@ == c,
                Err(e) => r == Err::<(), CostsError>(e) && final(self)@ == old(self)@,
            },
    {
        let ghost vs = views(values@);
        let n: usize = if self.0.len() < values.len() {
            self.0.len()
        } else {
            values.len()
        };
        let mut parsed: Vec<u64> = Vec::new();
        let mut i: usize = 0;
        while i < n
            invariant
                n == zip_len(self@.len() as int, values@.len() as int),
                vs == views(values@),
                i <= n,
                parsed@.len() == i,
                forall|j: int| 0 <= j < i ==> parses_u64(#[trigger] vs[j]) && parsed@[j] == u64_value(vs[j]),
            decreases n - i,
        {
            match parse_u64(values[i].as_str()) {
                Some(x) => parsed.push(x),
                None => {
                    assert(!parses_u64(vs[i as int]));
                    return Err(CostsError::InvalidNumber);
                },
            }
            i = i + 1;
        }
        let ghost vals = values_of(vs, n as int);
        assert(all_parse(vs, n as int));
        let mut sums: Vec<u64> = Vec::new();
        let mut j: usize = 0;
        while j < self.0.len()
            invariant
                n <= self@.len(),
                parsed@.len() == n,
                vals.len() == n,
                vals == values_of(vs, n as int),
                all_parse(vs, n as int),
                n == zip_len(self@.len() as int, values@.len() as int),
                vs == views(values@),
                forall|k: int| 0 <= k < n ==> parsed@[k] == #[trigger] vals[k],
                j <= self@.len(),
                sums@.len() == j,
                forall|k: int| 0 <= k < j ==> sums@[k] == (#[trigger] add_columns(self@, vals)[k]).1,
            decreases self@.len() - j,
        {
            let c = self.0[j].cost;
            if j < n {
                let x = parsed[j];
                if c > u64::MAX - x {
                    assert(add_columns(self@, vals)[j as int].1 > u64::MAX);
                    return Err(CostsError::Overflow);
                }
                sums.push(c + x);
            } else {
                sums.push(c);
            }
            j = j + 1;
        }
        let ghost before = self@;
        let mut k: usize = 0;
        while k < self.0.len()
            invariant
                self@.len() == before.len(),
                sums@.len() == before.len(),
                k <= before.len(),
                forall|q: int| 0 <= q < before.len() ==> sums@[q] == (#[trigger] add_columns(before, vals)[q]).1,
                forall|q: int| 0 <= q < k ==> self@[q] == #[trigger] as_events(add_columns(before, vals))[q],
                forall|q: int| k <= q < before.len() ==> self@[q] == before[q],
            decreases before.len() - k,
        {
            let kind = self.0[k].kind;
            self.0.set(k, Event { kind, cost: sums[k] });
            k = k + 1;
        }
        assert(self@ =~= as_events(add_columns(before, vals)));
        Ok(())
    }

    /// Adds the counters of `other` to these, column by column.
    pub fn add(&mut self, other: &Costs)
        requires
            forall|j: int|
                0 <= j < zip_len(old(self)@.len() as int, other@.len() as int) ==> old(self)@[j].cost
                    + other@[j].cost <= u64::MAX,
        ensures
            final(self)@.len() == old(self)@.len(),
            forall|j: int|
                0 <= j < old(self)@.len() ==> (#[trigger] final(self)@[j]).kind == old(self)@[j].kind
                    && final(self)@[j].cost == old(self)@[j].cost + if j < other@.len() {
                    other@[j].cost as int
                } else {
                    0
                },
    {
        let ghost before = self@;
        let mut k: usize = 0;
        while k < self.0.len()
            invariant
                self@.len() == before.len(),
                k <= before.len(),
                forall|j: int|
                    0 <= j < zip_len(before.len() as int, other@.len() as int) ==> before[j].cost
                        + other@[j].cost <= u64::MAX,
                forall|q: int|
                    0 <= q < k ==> (#[trigger] self@[q]).kind == before[q].kind && self@[q].cost
                        == before[q].cost + if q < other@.len() {
                        other@[q].cost as int
                    } else {
                        0
                    },
                forall|q: int| k <= q < before.len() ==> self@[q] == before[q],
            decreases before.len() - k,
        {
            if k < other.0.len() {
                let e = self.0[k];
                self.0.set(k, Event { kind: e.kind, cost: e.cost + other.0[k].cost });
            }
            k = k + 1;
        }
    }

    /// The counter in column `index`.
    pub fn get_by_index(&self, index: usize) -> (r: Option<&Event>)
        ensures
            match r {
                Some(e) => index < self@.len() && *e == self@[index as int],
                None => index >= self@.len(),
            },
    {
        if index < self.0.len() {
            Some(&self.0[index])
        } else {
            None
        }
    }

    /// The first counter of the given kind.
    pub fn get_by_type(&self, kind: EventType) -> (r: Option<&Event>)
        ensures
            match r {
                Some(e) => find_kind(self@, kind) == Some(*e),
                None => find_kind(self@, kind) is None,
            },
    {
        let mut i: usize = 0;
        assert(self@.subrange(0, self@.len() as int) =~= self@);
        while i < self.0.len()
            invariant
                i <= self@.len(),
                find_kind(self@, kind) == find_kind(self@.subrange(i as int, self@.len() as int), kind),
            decreases self@.len() - i,
        {
            let ghost rest = self@.subrange(i as int, self@.len() as int);
            assert(rest.drop_first() =~= self@.subrange(i + 1, self@.len() as int));
            if self.0[i].kind == kind {
                return Some(&self.0[i]);
            }
            i = i + 1;
        }
        None
    }
}

} // verus!
