//! Differences between a new and an old cost.
//!
//! Percentages and factors are kept as exact ratios of integers; turning them
//! into decimal text is left to the caller, guided by `DiffDisplay`.
use vstd::prelude::*;

verus! {

/// The exact value `num / den`. A zero `den` stands for an infinite value of the
/// sign of `num` (or no value at all, where `num` is zero too).
#[derive(Debug, Clone, Copy, PartialEq, Eq, Structural)]
pub struct Ratio {
    pub num: i128,
    pub den: u64,
}

/// The difference between an optional new and an optional old cost. At least one
/// of the two is present; where both are, so is `diff_pct`.
#[derive(Debug, Clone, Copy, PartialEq, Eq, Structural)]
pub struct CostsDiff {
    pub new: Option<u64>,
    pub old: Option<u64>,
    /// `(new - old) / old * 100`.
    pub diff_pct: Option<Ratio>,
    /// `new / old`, where `old` is not zero.
    pub factor: Option<Ratio>,
}

/// How a difference is shown: unchanged, or a signed percentage with the given
/// number of fractional digits (an increase is a regression, a decrease an
/// improvement).
#[derive(Debug, Clone, Copy, PartialEq, Eq, Structural)]
pub enum DiffDisplay {
    NoChange,
    Increase { precision: u8 },
    Decrease { precision: u8 },
}

/// The sign of an integer: -1, 0 or 1.
pub open spec fn sign(x: int) -> int {
    if x > 0 {
        1
    } else if x < 0 {
        -1
    } else {
        0
    }
}

/// The percentage by which `new` differs from `old`.
pub open spec fn pct_ratio(new: u64, old: u64) -> Ratio {
    Ratio { num: (100 * (new - old)) as i128, den: old }
}

/// The factor `new / old`, which is undefined for a zero `old`.
pub open spec fn factor_ratio(new: u64, old: u64) -> Option<Ratio> {
    if old == 0 {
        None
    } else {
        Some(Ratio { num: new as i128, den: old })
    }
}

/// The difference of two optional costs, of which at least one is present.
pub open spec fn costs_diff(new: Option<u64>, old: Option<u64>) -> Option<CostsDiff> {
    match (new, old) {
        (None, None) => None,
        (Some(n), Some(o)) => Some(
            CostsDiff {
                new,
                old,
                diff_pct: Some(pct_ratio(n, o)),
                factor: factor_ratio(n, o),
            },
        ),
        _ => Some(CostsDiff { new, old, diff_pct: None, factor: None }),
    }
}

/// Fractional digits for a percentage of magnitude `d / old * 100`: six below ten,
/// one fewer for each further power of ten, none from a million on.
pub open spec fn precision_for(d: int, old: int) -> u8 {
    if 100 * d < 10 * old {
        6
    } else if 100 * d < 100 * old {
        5
    } else if 100 * d < 1000 * old {
        4
    } else if 100 * d < 10000 * old {
        3
    } else if 100 * d < 100000 * old {
        2
    } else if 100 * d < 1000000 * old {
        1
    } else {
        0
    }
}

/// How the change from `old` to `new` is shown.
pub open spec fn display_of(new: u64, old: u64) -> DiffDisplay {
    if new == old {
        DiffDisplay::NoChange
    } else if new > old {
        DiffDisplay::Increase { precision: precision_for(new - old, old as int) }
    } else {
        DiffDisplay::Decrease { precision: precision_for(old - new, old as int) }
    }
}

impl CostsDiff {
    /// The difference of `new` and `old`; `None` where both are absent.
    pub fn from_costs(new: Option<u64>, old: Option<u64>) -> (r: Option<CostsDiff>)
        ensures
            r == costs_diff(new, old),
    {
        match (new, old) {
            (None, None) => None,
            (Some(n), Some(o)) => {
                let num: i128 = 100 * (n as i128 - o as i128);
                let factor = if o == 0 {
                    None
                } else {
                    Some(Ratio { num: n as i128, den: o })
                };
                Some(
                    CostsDiff {
                        new,
                        old,
                        diff_pct: Some(Ratio { num, den: o }),
                        factor,
                    },
                )
            },
            _ => Some(CostsDiff { new, old, diff_pct: None, factor: None }),
        }
    }
}

/// How the change from `old` to `new` is shown: `No Change` where they are equal,
/// else the sign of the change and the number of fractional digits that the
/// percentage's magnitude calls for.
pub fn percentage_display(new: u64, old: u64) -> (r: DiffDisplay)
    ensures
        r == display_of(new, old),
{
    if new == old {
        return DiffDisplay::NoChange;
    }
    let d: u128 = if new > old {
        (new - old) as u128
    } else {
        (old - new) as u128
    };
    let o = old as u128;
    let precision: u8 = if 100 * d < 10 * o {
        6
    } else if 100 * d < 100 * o {
        5
    } else if 100 * d < 1000 * o {
        4
    } else if 100 * d < 10000 * o {
        3
    } else if 100 * d < 100000 * o {
        2
    } else if 100 * d < 1000000 * o {
        1
    } else {
        0
    };
    if new > old {
        DiffDisplay::Increase { precision }
    } else {
        DiffDisplay::Decrease { precision }
    }
}

/// For two present costs the percentage has the sign of `new - old` (its
/// denominator is never negative), and the factor is `new / old` where `old` is
/// not zero.
pub proof fn lemma_diff_sign_and_factor(new: u64, old: u64)
    ensures
        ({
            let d = costs_diff(Some(new), Some(old))->Some_0;
            let p = d.diff_pct->Some_0;
            &&& costs_diff(Some(new), Some(old)) is Some
            &&& d.diff_pct is Some
            &&& sign(p.num as int) == sign(new - old)
            &&& old != 0 ==> d.factor == Some(Ratio { num: new as i128, den: old })
            &&& old == 0 ==> d.factor is None
        }),
{
}

} // verus!
