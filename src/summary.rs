//! Per-event differences between a new and an old run, and the records that
//! describe a benchmark's outputs.
use vstd::prelude::*;
use indexmap::IndexMap;
use crate::diff::{costs_diff, CostsDiff, Ratio};
use crate::output::ToolOutputPath;
use crate::sentinel::join;
use crate::text::views;
use crate::tool::ValgrindTool;
use vstd::string::{StrSliceExecFns, StringExecFns};
use crate::events::{find_kind, Costs, Event, EventType};
use crate::output::{join_path, path_join};

verus! {

/// `indexmap::IndexMap`, an insertion-ordered hash map, held opaque.
#[verifier::external_type_specification]
#[verifier::external_body]
#[verifier::reject_recursive_types(K)]
#[verifier::reject_recursive_types(V)]
#[verifier::reject_recursive_types(S)]
pub struct ExIndexMap<K, V, S>(indexmap::IndexMap<K, V, S>);

/// The entries of a map from event kinds to differences, in insertion order.
pub uninterp spec fn diff_entries(m: IndexMap<EventType, CostsDiff>) -> Seq<(EventType, CostsDiff)>;

/// The position of the entry with key `k`, or -1.
pub open spec fn key_index(m: Seq<(EventType, CostsDiff)>, k: EventType) -> int
    decreases m.len(),
{
    if m.len() == 0 {
        -1
    } else if m[0].0 == k {
        0
    } else {
        let r = key_index(m.drop_first(), k);
        if r < 0 {
            -1
        } else {
            r + 1
        }
    }
}

/// The entries after inserting `(k, v)`: an existing key keeps its place and takes
/// the new value; a new key goes last.
pub open spec fn insert_entry(m: Seq<(EventType, CostsDiff)>, k: EventType, v: CostsDiff) -> Seq<
    (EventType, CostsDiff),
> {
    let i = key_index(m, k);
    if i >= 0 {
        m.update(i, (k, v))
    } else {
        m.push((k, v))
    }
}

/// The entries after inserting each of `kvs` in turn into `m`.
pub open spec fn insert_all(m: Seq<(EventType, CostsDiff)>, kvs: Seq<(EventType, CostsDiff)>) -> Seq<
    (EventType, CostsDiff),
>
    decreases kvs.len(),
{
    if kvs.len() == 0 {
        m
    } else {
        let p = kvs.last();
        insert_entry(insert_all(m, kvs.drop_last()), p.0, p.1)
    }
}

/// The value stored under `k`.
pub open spec fn lookup(m: Seq<(EventType, CostsDiff)>, k: EventType) -> Option<CostsDiff> {
    let i = key_index(m, k);
    if i >= 0 {
        Some(m[i].1)
    } else {
        None
    }
}

/// Relies on `IndexMap::new`: an empty map.
#[verifier::external_body]
fn new_diff_map() -> (r: IndexMap<EventType, CostsDiff>)
    ensures
        diff_entries(r) == Seq::<(EventType, CostsDiff)>::empty(),
{
    IndexMap::new()
}

/// Relies on `IndexMap::insert`: an existing key keeps its place and takes the new
/// value, a new key is inserted last.
#[verifier::external_body]
fn insert_diff(m: &mut IndexMap<EventType, CostsDiff>, k: EventType, v: CostsDiff)
    ensures
        diff_entries(*final(m)) == insert_entry(diff_entries(*old(m)), k, v),
{
    m.insert(k, v);
}

/// Relies on `IndexMap::get`: the value stored under the key.
#[verifier::external_body]
fn get_diff(m: &IndexMap<EventType, CostsDiff>, k: EventType) -> (r: Option<CostsDiff>)
    ensures
        r == lookup(diff_entries(*m), k),
{
    m.get(&k).copied()
}

/// Relies on `IndexMap::iter`: the entries in their order.
#[verifier::external_body]
fn entries_of(m: &IndexMap<EventType, CostsDiff>) -> (r: Vec<(EventType, CostsDiff)>)
    ensures
        r@ == diff_entries(*m),
{
    m.iter().map(|(k, v)| (*k, *v)).collect()
}

/// The differences of each event kind, in the order of the new costs and then of
/// the kinds that only the old costs have.
pub struct CostsSummary(pub IndexMap<EventType, CostsDiff>);

impl View for CostsSummary {
    type V = Seq<(EventType, CostsDiff)>;

    open spec fn view(&self) -> Seq<(EventType, CostsDiff)> {
        diff_entries(self.0)
    }
}

/// The cost of the first counter of kind `k`, if any.
pub open spec fn opt_cost(c: Seq<Event>, k: EventType) -> Option<u64> {
    match find_kind(c, k) {
        Some(e) => Some(e.cost),
        None => None,
    }
}

/// The kinds of the counters `c`.
pub open spec fn kinds_of(c: Seq<Event>) -> Seq<EventType> {
    c.map_values(|e: Event| e.kind)
}

/// The kinds of `old` that `new_kinds` lacks, in order.
pub open spec fn extra_kinds(new_kinds: Seq<EventType>, old: Seq<Event>) -> Seq<EventType>
    decreases old.len(),
{
    if old.len() == 0 {
        seq![]
    } else {
        let r = extra_kinds(new_kinds, old.drop_last());
        if new_kinds.contains(old.last().kind) {
            r
        } else {
            r.push(old.last().kind)
        }
    }
}

/// The pair that the summary inserts for kind `k`.
pub open spec fn pair_of(new: Seq<Event>, old: Option<Seq<Event>>, k: EventType) -> (
    EventType,
    CostsDiff,
) {
    match old {
        None => (k, costs_diff(opt_cost(new, k), None)->Some_0),
        Some(o) => (k, costs_diff(opt_cost(new, k), opt_cost(o, k))->Some_0),
    }
}

/// The kinds that the summary covers: those of `new`, then those only `old` has.
pub open spec fn summary_kinds(new: Seq<Event>, old: Option<Seq<Event>>) -> Seq<EventType> {
    match old {
        None => kinds_of(new),
        Some(o) => kinds_of(new) + extra_kinds(kinds_of(new), o),
    }
}

/// The entries of the summary of `new` against `old`.
pub open spec fn summary_of(new: Seq<Event>, old: Option<Seq<Event>>) -> Seq<(EventType, CostsDiff)> {
    insert_all(seq![], summary_kinds(new, old).map_values(|k: EventType| pair_of(new, old, k)))
}

fn opt_cost_exec(c: &Costs, k: EventType) -> (r: Option<u64>)
    ensures
        r == opt_cost(c@, k),
{
    match c.get_by_type(k) {
        Some(e) => Some(e.cost),
        None => None,
    }
}

fn has_kind(c: &Costs, k: EventType) -> (r: bool)
    ensures
        r == kinds_of(c@).contains(k),
{
    let mut i: usize = 0;
    while i < c.0.len()
        invariant
            i <= c@.len(),
            forall|j: int| 0 <= j < i ==> c@[j].kind != k,
        decreases c@.len() - i,
    {
        if c.0[i].kind == k {
            assert(kinds_of(c@)[i as int] == k);
            return true;
        }
        i = i + 1;
    }
    assert forall|j: int| 0 <= j < kinds_of(c@).len() implies kinds_of(c@)[j] != k by {
        assert(kinds_of(c@)[j] == c@[j].kind);
    }
    false
}

fn pair_for(new: &Costs, old: Option<&Costs>, k: EventType) -> (r: (EventType, CostsDiff))
    requires
        kinds_of(new@).contains(k) || (old matches Some(o) && kinds_of(o@).contains(k)),
    ensures
        r == pair_of(
            new@,
            match old {
                Some(o) => Some(o@),
                None => None,
            },
            k,
        ),
{
    let n = opt_cost_exec(new, k);
    let o = match old {
        Some(c) => opt_cost_exec(c, k),
        None => None,
    };
    proof {
        lemma_kind_found(new@, k);
        if let Some(c) = old {
            lemma_kind_found(c@, k);
        }
    }
    match CostsDiff::from_costs(n, o) {
        Some(d) => (k, d),
        None => {
            assert(false);
            (k, CostsDiff { new: None, old: None, diff_pct: None, factor: None })
        },
    }
}

proof fn lemma_kind_found(c: Seq<Event>, k: EventType)
    ensures
        kinds_of(c).contains(k) ==> find_kind(c, k) is Some,
    decreases c.len(),
{
    if c.len() > 0 && c[0].kind != k {
        if kinds_of(c).contains(k) {
            let j = choose|j: int| 0 <= j < kinds_of(c).len() && kinds_of(c)[j] == k;
            assert(j != 0);
            assert(kinds_of(c.drop_first())[j - 1] == k);
        }
        lemma_kind_found(c.drop_first(), k);
    }
}

impl CostsSummary {
    /// The difference of each event kind between `new_costs` and `old_costs`.
    /// Without old costs each entry holds the new cost alone.
    pub fn new(new_costs: &Costs, old_costs: Option<&Costs>) -> (r: CostsSummary)
        ensures
            r@ == summary_of(
                new_costs@,
                match old_costs {
                    Some(o) => Some(o@),
                    None => None,
                },
            ),
    {
        let ghost og: Option<Seq<Event>> = match old_costs {
            Some(o) => Some(o@),
            None => None,
        };
        let ghost pairs = summary_kinds(new_costs@, og).map_values(
            |k: EventType| pair_of(new_costs@, og, k),
        );
        let ghost nk = kinds_of(new_costs@);
        let mut map = new_diff_map();
        let mut i: usize = 0;
        while i < new_costs.0.len()
            invariant
                i <= new_costs@.len(),
                nk == kinds_of(new_costs@),
                og == match old_costs {
                    Some(o) => Some(o@),
                    None => None,
                },
                diff_entries(map) == insert_all(
                    seq![],
                    nk.subrange(0, i as int).map_values(|k: EventType| pair_of(new_costs@, og, k)),
                ),
            decreases new_costs@.len() - i,
        {
            let k = new_costs.0[i].kind;
            assert(nk[i as int] == k);
            let (pk, d) = pair_for(new_costs, old_costs, k);
            insert_diff(&mut map, pk, d);
            i = i + 1;
            assert(nk.subrange(0, i as int).map_values(|k: EventType| pair_of(new_costs@, og, k)).drop_last()
                =~= nk.subrange(0, i - 1).map_values(|k: EventType| pair_of(new_costs@, og, k)));
        }
        assert(nk.subrange(0, i as int) =~= nk);
        match old_costs {
            None => {
                assert(pairs =~= nk.map_values(|k: EventType| pair_of(new_costs@, og, k)));
            },
            Some(old) => {
                let mut j: usize = 0;
                while j < old.0.len()
                    invariant
                        j <= old@.len(),
                        nk == kinds_of(new_costs@),
                        og == Some(old@),
                        diff_entries(map) == insert_all(
                            seq![],
                            (nk + extra_kinds(nk, old@.subrange(0, j as int))).map_values(
                                |k: EventType| pair_of(new_costs@, og, k),
                            ),
                        ),
                    decreases old@.len() - j,
                {
                    let k = old.0[j].kind;
                    let ghost before = extra_kinds(nk, old@.subrange(0, j as int));
                    let ghost after = extra_kinds(nk, old@.subrange(0, j + 1));
                    assert(old@.subrange(0, j + 1).drop_last() =~= old@.subrange(0, j as int));
                    assert(old@.subrange(0, j + 1).last() == old@[j as int]);
                    if !has_kind(new_costs, k) {
                        assert(kinds_of(old@)[j as int] == k);
                        assert(kinds_of(old@).contains(k));
                        let (pk, d) = pair_for(new_costs, Some(old), k);
                        insert_diff(&mut map, pk, d);
                        assert(after == before.push(k));
                        assert((nk + after)[(nk.len() + before.len()) as int] == k);
                        let ghost ms = (nk + after).map_values(|k: EventType| pair_of(new_costs@, og, k));
                        assert(ms.last() == (pk, d));
                        assert(ms.drop_last() =~= (nk + before).map_values(|k: EventType| pair_of(new_costs@, og, k)));
                    } else {
                        assert(after == before);
                    }
                    j = j + 1;
                }
                assert(old@.subrange(0, j as int) =~= old@);
            },
        }
        CostsSummary(map)
    }

    /// The difference recorded for `event_kind`.
    pub fn diff_by_kind(&self, event_kind: EventType) -> (r: Option<CostsDiff>)
        ensures
            r == lookup(self@, event_kind),
    {
        get_diff(&self.0, event_kind)
    }

    /// The entries in order.
    pub fn entries(&self) -> (r: Vec<(EventType, CostsDiff)>)
        ensures
            r@ == self@,
    {
        entries_of(&self.0)
    }
}

/// What a new output is compared against.
#[derive(Debug, Clone, Copy, PartialEq, Eq, Structural)]
pub enum BaselineKind {
    /// The `.old` companion of the output.
    Old,
}

/// The file a new output is compared against.
#[derive(Debug, Clone)]
pub struct Baseline {
    pub kind: BaselineKind,
    pub path: String,
}

/// A library or a binary benchmark.
#[derive(Debug, Clone, Copy, PartialEq, Eq, Structural)]
pub enum BenchmarkKind {
    LibraryBenchmark,
    BinaryBenchmark,
}

/// The files made for an event kind's flamegraphs.
#[derive(Debug, Clone)]
pub struct FlamegraphSummary {
    pub event_kind: EventType,
    pub regular_path: Option<String>,
    pub old_path: Option<String>,
    pub diff_path: Option<String>,
}

impl FlamegraphSummary {
    /// A summary of `event_kind` with no files yet.
    pub fn new(event_kind: EventType) -> (r: FlamegraphSummary)
        ensures
            r.event_kind == event_kind,
            r.regular_path is None && r.old_path is None && r.diff_path is None,
    {
        FlamegraphSummary { event_kind, regular_path: None, old_path: None, diff_path: None }
    }
}

/// How a summary file is written.
#[derive(Debug, Clone, Copy, PartialEq, Eq, Structural)]
pub enum SummaryFormat {
    /// Compact JSON.
    Json,
    /// Pretty-printed JSON.
    PrettyJson,
}

/// The destination of a benchmark's summary file.
#[derive(Debug, Clone)]
pub struct SummaryOutput {
    pub format: SummaryFormat,
    pub path: String,
}

impl SummaryOutput {
    /// The summary file `summary.json` in `dir`.
    pub fn new(format: SummaryFormat, dir: &str) -> (r: SummaryOutput)
        ensures
            r.format == format,
            r.path@ == path_join(dir@, "summary.json"@),
    {
        SummaryOutput { format, path: join_path(dir, "summary.json") }
    }
}

/// An event whose cost grew beyond its configured limit.
#[derive(Debug, Clone, Copy, PartialEq, Eq, Structural)]
pub struct CallgrindRegressionSummary {
    pub event_kind: EventType,
    pub new: u64,
    pub old: u64,
    /// The growth in percent.
    pub diff_pct: Ratio,
    /// The limit in percent that was exceeded.
    pub limit: Ratio,
}

/// The costs and regressions of one callgrind run.
pub struct CallgrindRunSummary {
    /// The command that was benchmarked.
    pub command: String,
    /// The output the costs were compared with, if any.
    pub baseline: Option<Baseline>,
    pub events: CostsSummary,
    pub regressions: Vec<CallgrindRegressionSummary>,
}

/// The callgrind runs of a benchmark.
pub struct CallgrindSummary {
    /// A regression ends the benchmark run at once.
    pub regression_fail_fast: bool,
    pub log_paths: Vec<String>,
    pub out_paths: Vec<String>,
    pub flamegraphs: Vec<FlamegraphSummary>,
    pub summaries: Vec<CallgrindRunSummary>,
}

/// What `shlex::join` makes of a list of words: each quoted for a shell where
/// needed, separated by single spaces.
pub uninterp spec fn shell_joined(words: Seq<Seq<char>>) -> Seq<char>;

/// Relies on `shlex::join`, which quotes each word for a POSIX shell and never
/// fails; the result depends on the words alone.
#[verifier::external_body]
#[allow(deprecated)]
fn shell_join(words: &Vec<String>) -> (r: String)
    ensures
        r@ == shell_joined(views(words@)),
{
    shlex::join(words.iter().map(|w| w.as_str()))
}

/// The command line of a run: the binary, a space, and its arguments already
/// joined for a shell.
pub fn run_command(bench_bin: &str, joined_args: &str) -> (r: String)
    ensures
        r@ == bench_bin@ + " "@ + joined_args@,
{
    let mut command = bench_bin.to_owned();
    command.append(" ");
    command.append(joined_args);
    command
}

/// Some run of the summary recorded a regression.
pub open spec fn any_regressed(runs: Seq<CallgrindRunSummary>) -> bool {
    exists|i: int| 0 <= i < runs.len() && (#[trigger] runs[i]).regressions@.len() > 0
}

impl CallgrindSummary {
    /// A summary with the given paths and no runs yet.
    pub fn new(fail_fast: bool, log_paths: Vec<String>, out_paths: Vec<String>) -> (r: CallgrindSummary)
        ensures
            r.regression_fail_fast == fail_fast,
            r.log_paths == log_paths,
            r.out_paths == out_paths,
            r.flamegraphs@.len() == 0,
            r.summaries@.len() == 0,
    {
        CallgrindSummary {
            regression_fail_fast: fail_fast,
            log_paths,
            out_paths,
            flamegraphs: Vec::new(),
            summaries: Vec::new(),
        }
    }

    /// Whether any run recorded a regression.
    pub fn is_regressed(&self) -> (r: bool)
        ensures
            r == any_regressed(self.summaries@),
    {
        let mut i: usize = 0;
        while i < self.summaries.len()
            invariant
                i <= self.summaries@.len(),
                forall|j: int| 0 <= j < i ==> (#[trigger] self.summaries@[j]).regressions@.len() == 0,
            decreases self.summaries@.len() - i,
        {
            if self.summaries[i].regressions.len() > 0 {
                return true;
            }
            i = i + 1;
        }
        false
    }

    /// Records a run of `bench_bin` with `bench_args`. Its command is the binary, a
    /// space and the arguments joined for a shell; its baseline is the `.old`
    /// output where that exists.
    pub fn add_summary(
        &mut self,
        bench_bin: &str,
        bench_args: &Vec<String>,
        old_output: &ToolOutputPath,
        old_output_exists: bool,
        events: CostsSummary,
        regressions: Vec<CallgrindRegressionSummary>,
    )
        ensures
            final(self).regression_fail_fast == old(self).regression_fail_fast,
            final(self).summaries@.len() == old(self).summaries@.len() + 1,
            forall|i: int|
                0 <= i < old(self).summaries@.len() ==> #[trigger] final(self).summaries@[i]
                    == old(self).summaries@[i],
            ({
                let s = final(self).summaries@.last();
                &&& s.command@ == bench_bin@ + " "@ + shell_joined(views(bench_args@))
                &&& s.regressions == regressions
                &&& s.events@ == events@
                &&& if old_output_exists {
                    s.baseline matches Some(b) && b.kind == BaselineKind::Old && b.path@
                        == crate::output::path_join(
                        old_output.dir@,
                        crate::output::file_name_of(
                            old_output.tool,
                            old_output.name@,
                            old_output.extension@,
                        ),
                    )
                } else {
                    s.baseline is None
                }
            }),
    {
        let joined = shell_join(bench_args);
        let command = run_command(bench_bin, joined.as_str());
        let baseline = if old_output_exists {
            Some(Baseline { kind: BaselineKind::Old, path: old_output.to_path() })
        } else {
            None
        };
        self.summaries.push(CallgrindRunSummary { command, baseline, events, regressions });
    }
}

/// The outputs and summaries of one valgrind tool besides callgrind.
pub struct ToolSummary {
    pub tool: ValgrindTool,
    pub log_paths: Vec<String>,
    pub out_paths: Vec<String>,
    pub summaries: Vec<ToolRunSummary>,
}

/// What one process's log told, by field.
pub struct ToolRunSummary {
    pub command: String,
    pub pid: String,
    pub baseline: Option<Baseline>,
    pub summary: IndexMap<String, String>,
}

/// Everything recorded of one benchmark.
pub struct BenchmarkSummary {
    /// The version of this record's format.
    pub version: String,
    pub kind: BenchmarkKind,
    pub summary_output: Option<SummaryOutput>,
    pub project_root: String,
    pub package_dir: String,
    pub benchmark_file: String,
    pub benchmark_exe: String,
    /// The benchmark's path, `file::group::bench`.
    pub bench_path: String,
    pub id: Option<String>,
    pub details: Option<String>,
    pub callgrind_summary: Option<CallgrindSummary>,
    pub tool_summaries: Vec<ToolSummary>,
}

/// A benchmark has regressed and regressions end the run at once.
#[derive(Debug, Clone, Copy, PartialEq, Eq, Structural)]
pub struct RegressionError;

/// `p` made absolute against `root`: kept where it starts with `/`.
pub open spec fn make_absolute(root: Seq<char>, p: Seq<char>) -> Seq<char> {
    if p.len() > 0 && p[0] == '/' {
        p
    } else {
        crate::output::path_join(root, p)
    }
}

fn make_absolute_exec(root: &str, p: &str) -> (r: String)
    ensures
        r@ == make_absolute(root@, p@),
{
    if p.unicode_len() > 0 && p.get_char(0) == '/' {
        p.to_owned()
    } else {
        join_path(root, p)
    }
}

impl BenchmarkSummary {
    /// A summary with nothing recorded yet; relative paths are made absolute
    /// against `project_root`.
    pub fn new(
        kind: BenchmarkKind,
        project_root: String,
        package_dir: String,
        benchmark_file: &str,
        benchmark_exe: &str,
        segments: &Vec<String>,
        id: Option<String>,
        details: Option<String>,
        output: Option<SummaryOutput>,
    ) -> (r: BenchmarkSummary)
        ensures
            r.version@ == "1"@,
            r.kind == kind,
            r.project_root == project_root,
            r.package_dir == package_dir,
            r.benchmark_file@ == make_absolute(project_root@, benchmark_file@),
            r.benchmark_exe@ == make_absolute(project_root@, benchmark_exe@),
            r.bench_path@ == join(views(segments@), "::"@),
            r.id == id,
            r.details == details,
            r.summary_output == output,
            r.callgrind_summary is None,
            r.tool_summaries@.len() == 0,
    {
        let benchmark_file = make_absolute_exec(project_root.as_str(), benchmark_file);
        let benchmark_exe = make_absolute_exec(project_root.as_str(), benchmark_exe);
        BenchmarkSummary {
            version: "1".to_owned(),
            kind,
            summary_output: output,
            project_root,
            package_dir,
            benchmark_file,
            benchmark_exe,
            bench_path: crate::sentinel::join_with(segments, "::"),
            id,
            details,
            callgrind_summary: None,
            tool_summaries: Vec::new(),
        }
    }

    /// Checks for regressions: an error where the callgrind runs regressed and
    /// regressions end the run at once; else `is_regressed` also records whether
    /// they regressed.
    pub fn check_regression(&self, is_regressed: &mut bool) -> (r: Result<(), RegressionError>)
        ensures
            match &self.callgrind_summary {
                None => r is Ok && *final(is_regressed) == *old(is_regressed),
                Some(c) => if any_regressed(c.summaries@) && c.regression_fail_fast {
                    r is Err
                } else {
                    r is Ok && *final(is_regressed) == (*old(is_regressed) || any_regressed(
                        c.summaries@,
                    ))
                },
            },
    {
        match &self.callgrind_summary {
            Some(c) => {
                let regressed = c.is_regressed();
                if regressed && c.regression_fail_fast {
                    return Err(RegressionError);
                }
                *is_regressed = *is_regressed || regressed;
                Ok(())
            },
            None => Ok(()),
        }
    }
}

} // verus!
