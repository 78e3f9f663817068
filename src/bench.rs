//! Decisions of the benchmark runner: which hooks are measured, the ids of
//! binary benchmarks, and whether the harness and runner versions agree.
use vstd::prelude::*;
use vstd::string::StringExecFns;
use crate::output::{sanitize_name, sanitized_with};
use crate::sentinel::join;
use crate::text::{str_eq, views};

verus! {

/// The hooks a benchmark file can declare.
#[derive(Debug, Clone, Copy, PartialEq, Eq, Structural)]
pub enum AssistantKind {
    Setup,
    Teardown,
    Before,
    After,
}

/// The id under which the harness runs a hook.
pub open spec fn assistant_id(k: AssistantKind) -> Seq<char> {
    match k {
        AssistantKind::Setup => "setup"@,
        AssistantKind::Teardown => "teardown"@,
        AssistantKind::Before => "before"@,
        AssistantKind::After => "after"@,
    }
}

/// The hook kind of an id.
pub open spec fn assistant_kind_of(id: Seq<char>) -> Option<AssistantKind> {
    if id == "before"@ {
        Some(AssistantKind::Before)
    } else if id == "after"@ {
        Some(AssistantKind::After)
    } else if id == "setup"@ {
        Some(AssistantKind::Setup)
    } else if id == "teardown"@ {
        Some(AssistantKind::Teardown)
    } else {
        None
    }
}

impl AssistantKind {
    /// The id under which the harness runs this hook.
    pub fn id(&self) -> (r: String)
        ensures
            r@ == assistant_id(*self),
    {
        let s = match self {
            AssistantKind::Setup => "setup",
            AssistantKind::Teardown => "teardown",
            AssistantKind::Before => "before",
            AssistantKind::After => "after",
        };
        s.to_owned()
    }

    /// The hook kind of an id; `None` for an unknown id.
    pub fn from_id(id: &str) -> (r: Option<AssistantKind>)
        ensures
            r == assistant_kind_of(id@),
    {
        if str_eq(id, "before") {
            Some(AssistantKind::Before)
        } else if str_eq(id, "after") {
            Some(AssistantKind::After)
        } else if str_eq(id, "setup") {
            Some(AssistantKind::Setup)
        } else if str_eq(id, "teardown") {
            Some(AssistantKind::Teardown)
        } else {
            None
        }
    }
}

/// A hook function of the benchmark file.
#[derive(Debug, Clone)]
pub struct Assistant {
    pub name: String,
    pub kind: AssistantKind,
    pub bench: bool,
}

/// How a hook is run.
#[derive(Debug, Clone, Copy, PartialEq, Eq, Structural)]
pub enum AssistantRun {
    /// Measured under callgrind, with its own output.
    Bench,
    /// Run once, its output only logged.
    Plain,
}

/// A hook is measured where it asks to be and is neither `setup` nor `teardown`,
/// which run between measured benchmarks and must not disturb them.
pub open spec fn run_of(bench: bool, kind: AssistantKind) -> AssistantRun {
    if bench && (kind == AssistantKind::Before || kind == AssistantKind::After) {
        AssistantRun::Bench
    } else {
        AssistantRun::Plain
    }
}

impl Assistant {
    /// A hook named `name` of kind `kind` that asks to be measured where `bench` holds.
    pub fn new(name: String, kind: AssistantKind, bench: bool) -> (r: Assistant)
        ensures
            r.name == name,
            r.kind == kind,
            r.bench == bench,
    {
        Assistant { name, kind, bench }
    }

    /// How this hook is run now. A `setup` or `teardown` hook is never measured and
    /// drops its request to be.
    pub fn run(&mut self) -> (r: AssistantRun)
        ensures
            r == run_of(old(self).bench, old(self).kind),
            final(self).kind == old(self).kind,
            final(self).name == old(self).name,
            final(self).bench == (old(self).bench && (old(self).kind == AssistantKind::Before
                || old(self).kind == AssistantKind::After)),
    {
        match self.kind {
            AssistantKind::Setup | AssistantKind::Teardown => {
                self.bench = false;
                AssistantRun::Plain
            },
            _ => if self.bench {
                AssistantRun::Bench
            } else {
                AssistantRun::Plain
            },
        }
    }
}

/// The hooks of a benchmark file, each at most once.
#[derive(Debug, Clone)]
pub struct BenchmarkAssistants {
    pub before: Option<Assistant>,
    pub after: Option<Assistant>,
    pub setup: Option<Assistant>,
    pub teardown: Option<Assistant>,
}

/// A hook as the harness declares it.
#[derive(Debug, Clone)]
pub struct AssistantDecl {
    pub id: String,
    pub name: String,
    pub bench: bool,
}

/// The last declaration in `decls` of kind `k`.
pub open spec fn last_decl(decls: Seq<AssistantDecl>, k: AssistantKind) -> Option<AssistantDecl>
    decreases decls.len(),
{
    if decls.len() == 0 {
        None
    } else if assistant_kind_of(decls.last().id@) == Some(k) {
        Some(decls.last())
    } else {
        last_decl(decls.drop_last(), k)
    }
}

/// The hook that a slot holds: the last declaration of its kind.
pub open spec fn slot_matches(slot: Option<Assistant>, decls: Seq<AssistantDecl>, k: AssistantKind) -> bool {
    match last_decl(decls, k) {
        None => slot is None,
        Some(d) => slot matches Some(a) && a.name@ == d.name@ && a.kind == k && a.bench == d.bench,
    }
}

/// Every declaration has a known id.
pub open spec fn all_known(decls: Seq<AssistantDecl>) -> bool {
    forall|i: int| 0 <= i < decls.len() ==> (#[trigger] assistant_kind_of(decls[i].id@)) is Some
}

impl BenchmarkAssistants {
    /// No hooks.
    pub fn new() -> (r: BenchmarkAssistants)
        ensures
            r.before is None && r.after is None && r.setup is None && r.teardown is None,
    {
        BenchmarkAssistants { before: None, after: None, setup: None, teardown: None }
    }

    /// The hooks of `decls`, a later declaration of a kind replacing an earlier one.
    /// `None` where a declaration has an unknown id.
    pub fn from_decls(decls: &Vec<AssistantDecl>) -> (r: Option<BenchmarkAssistants>)
        ensures
            match r {
                None => !all_known(decls@),
                Some(b) => all_known(decls@) && slot_matches(b.before, decls@, AssistantKind::Before)
                    && slot_matches(b.after, decls@, AssistantKind::After) && slot_matches(
                    b.setup,
                    decls@,
                    AssistantKind::Setup,
                ) && slot_matches(b.teardown, decls@, AssistantKind::Teardown),
            },
    {
        let mut b = BenchmarkAssistants::new();
        let mut i: usize = 0;
        while i < decls.len()
            invariant
                i <= decls@.len(),
                all_known(decls@.subrange(0, i as int)),
                slot_matches(b.before, decls@.subrange(0, i as int), AssistantKind::Before),
                slot_matches(b.after, decls@.subrange(0, i as int), AssistantKind::After),
                slot_matches(b.setup, decls@.subrange(0, i as int), AssistantKind::Setup),
                slot_matches(b.teardown, decls@.subrange(0, i as int), AssistantKind::Teardown),
            decreases decls@.len() - i,
        {
            let ghost pre = decls@.subrange(0, i as int);
            let ghost next = decls@.subrange(0, i + 1);
            assert(next.drop_last() =~= pre);
            assert(next.last() == decls@[i as int]);
            let d = &decls[i];
            let a = Assistant::new(d.name.clone(), AssistantKind::Setup, d.bench);
            match AssistantKind::from_id(d.id.as_str()) {
                Some(AssistantKind::Before) => {
                    b.before = Some(Assistant { kind: AssistantKind::Before, ..a });
                },
                Some(AssistantKind::After) => {
                    b.after = Some(Assistant { kind: AssistantKind::After, ..a });
                },
                Some(AssistantKind::Setup) => {
                    b.setup = Some(a);
                },
                Some(AssistantKind::Teardown) => {
                    b.teardown = Some(Assistant { kind: AssistantKind::Teardown, ..a });
                },
                None => {
                    assert(!all_known(decls@)) by {
                        assert(assistant_kind_of(decls@[i as int].id@) is None);
                    }
                    return None;
                },
            }
            assert forall|j: int| 0 <= j < next.len() implies (#[trigger] assistant_kind_of(
                next[j].id@,
            )) is Some by {
                if j < i {
                    assert(next[j] == pre[j]);
                }
            }
            i = i + 1;
        }
        assert(decls@.subrange(0, i as int) =~= decls@);
        Some(b)
    }
}

/// The decimal digits of `n`.
pub open spec fn decimal_of(n: nat) -> Seq<char>
    decreases n,
{
    if n < 10 {
        seq![digit_char(n)]
    } else {
        decimal_of(n / 10) + seq![digit_char(n % 10)]
    }
}

/// The character of a decimal digit.
pub open spec fn digit_char(d: nat) -> char {
    if d == 0 {
        '0'
    } else if d == 1 {
        '1'
    } else if d == 2 {
        '2'
    } else if d == 3 {
        '3'
    } else if d == 4 {
        '4'
    } else if d == 5 {
        '5'
    } else if d == 6 {
        '6'
    } else if d == 7 {
        '7'
    } else if d == 8 {
        '8'
    } else {
        '9'
    }
}

fn digit_str(d: usize) -> (r: &'static str)
    requires
        d < 10,
    ensures
        r@ == seq![digit_char(d as nat)],
{
    proof {
        reveal_strlit("0");
        reveal_strlit("1");
        reveal_strlit("2");
        reveal_strlit("3");
        reveal_strlit("4");
        reveal_strlit("5");
        reveal_strlit("6");
        reveal_strlit("7");
        reveal_strlit("8");
        reveal_strlit("9");
    }
    let r = if d == 0 {
        "0"
    } else if d == 1 {
        "1"
    } else if d == 2 {
        "2"
    } else if d == 3 {
        "3"
    } else if d == 4 {
        "4"
    } else if d == 5 {
        "5"
    } else if d == 6 {
        "6"
    } else if d == 7 {
        "7"
    } else if d == 8 {
        "8"
    } else {
        "9"
    };
    assert(r@ =~= seq![digit_char(d as nat)]);
    r
}

/// `n` in decimal.
pub fn usize_to_string(n: usize) -> (r: String)
    ensures
        r@ == decimal_of(n as nat),
    decreases n,
{
    if n < 10 {
        digit_str(n).to_owned()
    } else {
        let mut s = usize_to_string(n / 10);
        s.append(digit_str(n % 10));
        s
    }
}

/// The number of absent ids among the first `i` of `ids`.
pub open spec fn unnamed_before(ids: Seq<Option<String>>, i: int) -> nat
    decreases i,
{
    if i <= 0 {
        0
    } else if ids[i - 1] is None {
        unnamed_before(ids, i - 1) + 1
    } else {
        unnamed_before(ids, i - 1)
    }
}

/// The id of each benchmark run: its own where it has one, else the count of
/// earlier runs without one.
pub fn assign_ids(ids: &Vec<Option<String>>) -> (r: Vec<String>)
    ensures
        r@.len() == ids@.len(),
        forall|i: int|
            0 <= i < ids@.len() ==> (#[trigger] r@[i])@ == match ids@[i] {
                Some(id) => id@,
                None => decimal_of(unnamed_before(ids@, i)),
            },
{
    let mut r: Vec<String> = Vec::new();
    let mut counter: usize = 0;
    let mut i: usize = 0;
    while i < ids.len()
        invariant
            i <= ids@.len(),
            r@.len() == i,
            counter == unnamed_before(ids@, i as int),
            counter <= i,
            forall|j: int|
                0 <= j < i ==> (#[trigger] r@[j])@ == match ids@[j] {
                    Some(id) => id@,
                    None => decimal_of(unnamed_before(ids@, j)),
                },
        decreases ids@.len() - i,
    {
        match &ids[i] {
            Some(id) => {
                r.push(id.clone());
            },
            None => {
                r.push(usize_to_string(counter));
                counter = counter + 1;
            },
        }
        i = i + 1;
    }
    r
}

/// A binary benchmark's command line as shown: the command, a space, and its
/// arguments separated by spaces.
pub fn display_command(orig: &str, args: &Vec<String>) -> (r: String)
    ensures
        r@ == orig@ + " "@ + join(views(args@), " "@),
{
    let mut r = orig.to_owned();
    r.append(" ");
    let mut i: usize = 0;
    while i < args.len()
        invariant
            i <= args@.len(),
            r@ == orig@ + " "@ + join(views(args@.subrange(0, i as int)), " "@),
        decreases args@.len() - i,
    {
        let ghost before = r@;
        let ghost pre = views(args@.subrange(0, i as int));
        let ghost next = views(args@.subrange(0, i + 1));
        assert(next.drop_last() =~= pre);
        assert(next.last() == args@[i as int]@);
        if i > 0 {
            r.append(" ");
        }
        r.append(args[i].as_str());
        proof {
            if i == 0 {
                assert(next =~= seq![args@[0]@]);
                assert(before =~= orig@ + " "@);
            }
        }
        i = i + 1;
        assert(r@ =~= orig@ + " "@ + join(views(args@.subrange(0, i as int)), " "@));
    }
    assert(args@.subrange(0, i as int) =~= args@);
    r
}

/// The name under which a binary benchmark's command is shown: the command,
/// then `.` and its arguments separated by spaces where it has any.
pub open spec fn bin_display_name(orig: Seq<char>, args: Seq<Seq<char>>) -> Seq<char> {
    if args.len() == 0 {
        orig
    } else {
        orig + "."@ + join(args, " "@)
    }
}

/// The file name part of a binary benchmark's output: its display name sanitized
/// under the Windows rules and cut to 255 bytes.
pub fn bin_bench_file_name(orig: &str, args: &Vec<String>) -> (r: String)
    ensures
        r@ == sanitized_with(bin_display_name(orig@, views(args@)), true, true),
{
    let mut name = orig.to_owned();
    if args.len() > 0 {
        name.append(".");
        let joined = crate::sentinel::join_with(args, " ");
        name.append(joined.as_str());
    }
    sanitize_name(name.as_str(), true, true)
}

/// The outcome of comparing two version strings.
#[derive(Debug, Clone, Copy, PartialEq, Eq, Structural)]
pub enum VersionCmp {
    Eq,
    Ne,
    Lt,
    Le,
    Ge,
    Gt,
}

/// What `version_compare::compare` returns for two version strings; `None` where
/// either cannot be read as a version.
pub uninterp spec fn version_cmp(a: Seq<char>, b: Seq<char>) -> Option<VersionCmp>;

/// Relies on `version_compare::compare`, whose result depends on the two strings
/// alone; each `Cmp` is carried over to the variant of the same name.
#[verifier::external_body]
fn compare_versions(a: &str, b: &str) -> (r: Option<VersionCmp>)
    ensures
        r == version_cmp(a@, b@),
{
    match version_compare::compare(a, b) {
        Ok(version_compare::Cmp::Eq) => Some(VersionCmp::Eq),
        Ok(version_compare::Cmp::Ne) => Some(VersionCmp::Ne),
        Ok(version_compare::Cmp::Lt) => Some(VersionCmp::Lt),
        Ok(version_compare::Cmp::Le) => Some(VersionCmp::Le),
        Ok(version_compare::Cmp::Ge) => Some(VersionCmp::Ge),
        Ok(version_compare::Cmp::Gt) => Some(VersionCmp::Gt),
        Err(()) => None,
    }
}

/// The runner and the harness library disagree on the version; the comparison
/// is `Ne` where a version could not be read.
#[derive(Debug, Clone, Copy, PartialEq, Eq, Structural)]
pub struct VersionMismatch {
    pub cmp: VersionCmp,
}

/// The verdict on a comparison of the runner's version with the library's: a
/// version that is older or newer is a mismatch, as is one that cannot be read.
pub open spec fn version_verdict(c: Option<VersionCmp>) -> Result<(), VersionMismatch> {
    match c {
        None => Err(VersionMismatch { cmp: VersionCmp::Ne }),
        Some(VersionCmp::Lt) => Err(VersionMismatch { cmp: VersionCmp::Lt }),
        Some(VersionCmp::Gt) => Err(VersionMismatch { cmp: VersionCmp::Gt }),
        Some(_) => Ok(()),
    }
}

/// The verdict on the result of comparing the runner's version with the library's.
pub fn check_version_cmp(c: Option<VersionCmp>) -> (r: Result<(), VersionMismatch>)
    ensures
        r == version_verdict(c),
{
    match c {
        None => Err(VersionMismatch { cmp: VersionCmp::Ne }),
        Some(VersionCmp::Lt) => Err(VersionMismatch { cmp: VersionCmp::Lt }),
        Some(VersionCmp::Gt) => Err(VersionMismatch { cmp: VersionCmp::Gt }),
        Some(_) => Ok(()),
    }
}

/// Checks that the runner's version and the harness library's agree.
pub fn check_versions(runner_version: &str, library_version: &str) -> (r: Result<
    (),
    VersionMismatch,
>)
    ensures
        r == version_verdict(version_cmp(runner_version@, library_version@)),
{
    check_version_cmp(compare_versions(runner_version, library_version))
}

} // verus!
