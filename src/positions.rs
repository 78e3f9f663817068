//! The `positions:` declaration of a callgrind output file.
use vstd::prelude::*;
use vstd::string::StrSliceExecFns;
use crate::text::{has_prefix, starts_with, str_eq, trim, trim_str};

verus! {

/// Which position columns lead each cost line.
#[derive(Debug, Clone, Copy, PartialEq, Eq, Structural)]
pub enum PositionsMode {
    Instr,
    Line,
    InstrLine,
}

/// The mode that a `positions:` value names.
pub open spec fn mode_of(v: Seq<char>) -> Option<PositionsMode> {
    if v == "instr line"@ || v == "line instr"@ {
        Some(PositionsMode::InstrLine)
    } else if v == "instr"@ {
        Some(PositionsMode::Instr)
    } else if v == "line"@ {
        Some(PositionsMode::Line)
    } else {
        None
    }
}

/// The mode that a `positions: <value>` line declares.
pub open spec fn positions_of_line(line: Seq<char>) -> Option<PositionsMode> {
    let t = trim(line);
    if has_prefix(t, "positions: "@) {
        mode_of(t.subrange("positions: "@.len() as int, t.len() as int))
    } else {
        None
    }
}

/// How many position columns a cost line starts with.
pub open spec fn position_columns(m: PositionsMode) -> nat {
    match m {
        PositionsMode::InstrLine => 2,
        _ => 1,
    }
}

impl Default for PositionsMode {
    fn default() -> (r: Self)
        ensures
            r == PositionsMode::Line,
    {
        PositionsMode::Line
    }
}

impl PositionsMode {
    /// The mode that a `positions:` value names, surrounding whitespace aside.
    pub fn parse(s: &str) -> (r: Option<PositionsMode>)
        ensures
            r == mode_of(trim(s@)),
    {
        Self::from_value(trim_str(s))
    }

    fn from_value(v: &str) -> (r: Option<PositionsMode>)
        ensures
            r == mode_of(v@),
    {
        if str_eq(v, "instr line") || str_eq(v, "line instr") {
            Some(PositionsMode::InstrLine)
        } else if str_eq(v, "instr") {
            Some(PositionsMode::Instr)
        } else if str_eq(v, "line") {
            Some(PositionsMode::Line)
        } else {
            None
        }
    }

    /// The mode declared by a `positions:` line; `None` for any other line.
    pub fn from_positions_line(line: &str) -> (r: Option<PositionsMode>)
        ensures
            r == positions_of_line(line@),
    {
        let t = trim_str(line);
        let p = "positions: ";
        if starts_with(t, p) {
            let rest = t.substring_char(p.unicode_len(), t.unicode_len());
            Self::from_value(rest)
        } else {
            None
        }
    }

    /// How many position columns a cost line starts with in this mode.
    pub fn columns(&self) -> (r: usize)
        ensures
            r == position_columns(*self),
    {
        match self {
            PositionsMode::InstrLine => 2,
            _ => 1,
        }
    }
}

} // verus!
