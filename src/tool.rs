//! Valgrind tools, the naming of their output files, rotation of earlier outputs
//! to `.old` companions, and the policy on exit codes.
use vstd::prelude::*;
use crate::text::str_eq;

verus! {

/// The valgrind tools a benchmark can run under.
#[derive(Debug, Clone, Copy, PartialEq, Eq, Structural)]
pub enum ValgrindTool {
    Callgrind,
    Memcheck,
    Helgrind,
    DRD,
    Massif,
    DHAT,
    BBV,
}

/// The name of a tool for valgrind's `--tool` option.
pub open spec fn tool_id(t: ValgrindTool) -> Seq<char> {
    match t {
        ValgrindTool::Callgrind => "callgrind"@,
        ValgrindTool::Memcheck => "memcheck"@,
        ValgrindTool::Helgrind => "helgrind"@,
        ValgrindTool::DRD => "drd"@,
        ValgrindTool::Massif => "massif"@,
        ValgrindTool::DHAT => "dhat"@,
        ValgrindTool::BBV => "exp-bbv"@,
    }
}

/// The tool whose id is `s`.
pub open spec fn tool_of_id(s: Seq<char>) -> Option<ValgrindTool> {
    if s == "dhat"@ {
        Some(ValgrindTool::DHAT)
    } else if s == "callgrind"@ {
        Some(ValgrindTool::Callgrind)
    } else if s == "memcheck"@ {
        Some(ValgrindTool::Memcheck)
    } else if s == "helgrind"@ {
        Some(ValgrindTool::Helgrind)
    } else if s == "drd"@ {
        Some(ValgrindTool::DRD)
    } else if s == "massif"@ {
        Some(ValgrindTool::Massif)
    } else if s == "exp-bbv"@ {
        Some(ValgrindTool::BBV)
    } else {
        None
    }
}

impl ValgrindTool {
    /// The id used by valgrind's `--tool` option.
    pub fn id(&self) -> (r: String)
        ensures
            r@ == tool_id(*self),
    {
        let s = match self {
            ValgrindTool::DHAT => "dhat",
            ValgrindTool::Callgrind => "callgrind",
            ValgrindTool::Memcheck => "memcheck",
            ValgrindTool::Helgrind => "helgrind",
            ValgrindTool::DRD => "drd",
            ValgrindTool::Massif => "massif",
            ValgrindTool::BBV => "exp-bbv",
        };
        s.to_owned()
    }

    /// The tool with the given id; `None` for an unknown id.
    pub fn from_id(s: &str) -> (r: Option<ValgrindTool>)
        ensures
            r == tool_of_id(s@),
    {
        if str_eq(s, "dhat") {
            Some(ValgrindTool::DHAT)
        } else if str_eq(s, "callgrind") {
            Some(ValgrindTool::Callgrind)
        } else if str_eq(s, "memcheck") {
            Some(ValgrindTool::Memcheck)
        } else if str_eq(s, "helgrind") {
            Some(ValgrindTool::Helgrind)
        } else if str_eq(s, "drd") {
            Some(ValgrindTool::DRD)
        } else if str_eq(s, "massif") {
            Some(ValgrindTool::Massif)
        } else if str_eq(s, "exp-bbv") {
            Some(ValgrindTool::BBV)
        } else {
            None
        }
    }

    /// Whether the tool writes an output file besides its log.
    pub fn has_output_file(&self) -> (r: bool)
        ensures
            r == (*self == ValgrindTool::Callgrind || *self == ValgrindTool::DHAT || *self
                == ValgrindTool::BBV || *self == ValgrindTool::Massif),
    {
        match self {
            ValgrindTool::Callgrind | ValgrindTool::DHAT | ValgrindTool::BBV
            | ValgrindTool::Massif => true,
            _ => false,
        }
    }
}

/// The configuration of one tool run.
#[derive(Debug, Clone)]
pub struct ToolConfig {
    pub tool: ValgrindTool,
    pub is_enabled: bool,
    pub args: Vec<String>,
    pub outfile_modifier: Option<String>,
}

/// The configurations of all tools besides callgrind.
#[derive(Debug, Clone)]
pub struct ToolConfigs(pub Vec<ToolConfig>);

impl ToolConfigs {
    /// Whether any tool is enabled.
    pub fn has_tools_enabled(&self) -> (r: bool)
        ensures
            r == exists|i: int| 0 <= i < self.0@.len() && (#[trigger] self.0@[i]).is_enabled,
    {
        let mut i: usize = 0;
        while i < self.0.len()
            invariant
                i <= self.0@.len(),
                forall|j: int| 0 <= j < i ==> !(#[trigger] self.0@[j]).is_enabled,
            decreases self.0@.len() - i,
        {
            if self.0[i].is_enabled {
                return true;
            }
            i = i + 1;
        }
        false
    }
}

/// Whether clearing the environment for `tool` keeps the variable `key`: the
/// dynamic linker's variables always, and `PATH`, `HOME` and `DEBUGINFOD_URLS` for
/// memcheck.
pub open spec fn keeps_env(tool: ValgrindTool, key: Seq<char>) -> bool {
    key == "LD_PRELOAD"@ || key == "LD_LIBRARY_PATH"@ || (tool == ValgrindTool::Memcheck && (key
        == "DEBUGINFOD_URLS"@ || key == "PATH"@ || key == "HOME"@))
}

/// Whether clearing the environment for `tool` keeps the variable `key`.
pub fn keeps_env_var(tool: ValgrindTool, key: &str) -> (r: bool)
    ensures
        r == keeps_env(tool, key@),
{
    if str_eq(key, "LD_PRELOAD") || str_eq(key, "LD_LIBRARY_PATH") {
        return true;
    }
    match tool {
        ValgrindTool::Memcheck => str_eq(key, "DEBUGINFOD_URLS") || str_eq(key, "PATH") || str_eq(
            key,
            "HOME",
        ),
        _ => false,
    }
}

/// The exit a benchmark is expected to end with.
#[derive(Debug, Clone, Copy, PartialEq, Eq, Structural)]
pub enum ExitWith {
    Success,
    Failure,
    Code(i32),
}

/// Why an exit status was not the expected one.
#[derive(Debug, Clone, Copy, PartialEq, Eq, Structural)]
pub enum ExitMismatch {
    /// The process was ended by a signal and has no exit code.
    NoCode,
    /// The process exited with this code, which the policy does not accept.
    Unexpected(i32),
}

/// Whether `code` meets the policy: zero without one or for `Success`, anything
/// but zero for `Failure`, exactly `c` for `Code(c)`.
pub open spec fn exit_accepted(code: i32, exit_with: Option<ExitWith>) -> bool {
    match exit_with {
        None => code == 0,
        Some(ExitWith::Success) => code == 0,
        Some(ExitWith::Failure) => code != 0,
        Some(ExitWith::Code(c)) => code == c,
    }
}

/// Checks an exit status against the expected exit.
pub fn check_exit(code: Option<i32>, exit_with: Option<ExitWith>) -> (r: Result<(), ExitMismatch>)
    ensures
        match code {
            None => r == Err::<(), ExitMismatch>(ExitMismatch::NoCode),
            Some(c) => if exit_accepted(c, exit_with) {
                r is Ok
            } else {
                r == Err::<(), ExitMismatch>(ExitMismatch::Unexpected(c))
            },
        },
{
    let c = match code {
        Some(c) => c,
        None => {
            return Err(ExitMismatch::NoCode);
        },
    };
    let ok = match exit_with {
        None => c == 0,
        Some(ExitWith::Success) => c == 0,
        Some(ExitWith::Failure) => c != 0,
        Some(ExitWith::Code(e)) => c == e,
    };
    if ok {
        Ok(())
    } else {
        Err(ExitMismatch::Unexpected(c))
    }
}

} // verus!
