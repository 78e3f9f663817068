use iai_callgrind_runner::args::{function_toggle_pattern, is_ignored_arg, CallgrindArgs};
use iai_callgrind_runner::bench::{
    assign_ids, bin_bench_file_name, check_version_cmp, check_versions, display_command,
    usize_to_string, Assistant, AssistantDecl, AssistantKind, AssistantRun, BenchmarkAssistants,
    VersionCmp,
};
use iai_callgrind_runner::diff::Ratio;
use iai_callgrind_runner::events::{Costs, Event, EventType};
use iai_callgrind_runner::output::{
    truncate_str_utf8, CallgrindOutput, OutputNameError, ToolOutputPath,
};
use iai_callgrind_runner::summary::{
    BenchmarkKind, BenchmarkSummary, CallgrindRegressionSummary, CallgrindSummary, CostsSummary,
    FlamegraphSummary, RegressionError, SummaryFormat, SummaryOutput, run_command,
};
use iai_callgrind_runner::tool::{
    check_exit, keeps_env_var, ExitMismatch, ExitWith, ToolConfig, ToolConfigs, ValgrindTool,
};

fn strings(v: &[&str]) -> Vec<String> {
    v.iter().map(|s| s.to_string()).collect()
}

#[test]
fn default_argument_vector() {
    let mut a = CallgrindArgs::from_args(&vec![]);
    a.set_output_file("out/callgrind.x.out");
    assert_eq!(
        a.to_vec(),
        strings(&[
            "--I1=32768,8,64",
            "--D1=32768,8,64",
            "--LL=8388608,16,64",
            "--cache-sim=yes",
            "--collect-atstart=no",
            "--compress-strings=no",
            "--compress-pos=no",
            "--callgrind-out-file=out/callgrind.x.out",
        ])
    );
}

#[test]
fn user_arguments_are_canonicalized() {
    let a = CallgrindArgs::from_args(&strings(&[
        "--I1=1,1,1",
        "--toggle-collect=a",
        "--cache-sim=no",
        "--dump-instr=yes",
        "--I1=2,2,2",
        "--callgrind-out-file=x",
        "--toggle-collect=b",
        "--collect-atstart=yes",
        "--bench",
    ]));
    assert_eq!(a.i1, "--I1=2,2,2");
    assert_eq!(a.toggle_collect, strings(&["--toggle-collect=a", "--toggle-collect=b"]));
    assert_eq!(a.other, strings(&["--dump-instr=yes"]));
    assert!(a.collect_atstart);
    assert!(a.output_file.is_none());
}

#[test]
fn order_of_different_options_does_not_matter() {
    let a = CallgrindArgs::from_args(&strings(&["--LL=1,1,1", "--toggle-collect=t", "--D1=3,3,3"]));
    let b = CallgrindArgs::from_args(&strings(&["--toggle-collect=t", "--D1=3,3,3", "--LL=1,1,1"]));
    assert_eq!(a.to_vec(), b.to_vec());
}

#[test]
fn entry_point_toggle_comes_first() {
    let mut a = CallgrindArgs::from_args(&strings(&["--toggle-collect=user"]));
    a.configure_collection(Some("*m::f"));
    assert!(!a.collect_atstart);
    assert_eq!(a.toggle_collect, strings(&["--toggle-collect=*m::f", "--toggle-collect=user"]));
    let mut b = CallgrindArgs::from_args(&vec![]);
    b.configure_collection(None);
    assert!(b.collect_atstart);
    assert!(b.toggle_collect.is_empty());
    assert_eq!(function_toggle_pattern("m", "f"), "*m::f");
    assert!(is_ignored_arg("--cache-sim=no"));
    assert!(!is_ignored_arg("--I1=1"));
}

#[test]
fn tool_ids() {
    assert_eq!(ValgrindTool::BBV.id(), "exp-bbv");
    assert_eq!(ValgrindTool::from_id("dhat"), Some(ValgrindTool::DHAT));
    assert_eq!(ValgrindTool::from_id("cachegrind"), None);
    assert!(ValgrindTool::Massif.has_output_file());
    assert!(!ValgrindTool::Memcheck.has_output_file());
    let configs = ToolConfigs(vec![ToolConfig {
        tool: ValgrindTool::DHAT,
        is_enabled: false,
        args: vec![],
        outfile_modifier: None,
    }]);
    assert!(!configs.has_tools_enabled());
}

#[test]
fn exit_policy() {
    assert_eq!(check_exit(Some(0), None), Ok(()));
    assert_eq!(check_exit(Some(1), None), Err(ExitMismatch::Unexpected(1)));
    assert_eq!(check_exit(Some(0), Some(ExitWith::Failure)), Err(ExitMismatch::Unexpected(0)));
    assert_eq!(check_exit(Some(3), Some(ExitWith::Failure)), Ok(()));
    assert_eq!(check_exit(Some(3), Some(ExitWith::Code(3))), Ok(()));
    assert_eq!(check_exit(Some(0), Some(ExitWith::Code(3))), Err(ExitMismatch::Unexpected(0)));
    assert_eq!(check_exit(Some(2), Some(ExitWith::Success)), Err(ExitMismatch::Unexpected(2)));
    assert_eq!(check_exit(None, Some(ExitWith::Failure)), Err(ExitMismatch::NoCode));
}

#[test]
fn environment_kept_on_clear() {
    assert!(keeps_env_var(ValgrindTool::Callgrind, "LD_PRELOAD"));
    assert!(!keeps_env_var(ValgrindTool::Callgrind, "PATH"));
    assert!(keeps_env_var(ValgrindTool::Memcheck, "PATH"));
    assert!(!keeps_env_var(ValgrindTool::Memcheck, "USER"));
}

#[test]
fn output_paths() {
    let p = ToolOutputPath::new(ValgrindTool::Callgrind, "target/iai", "bench::group", "a/b:c");
    assert_eq!(p.dir, "target/iai/bench/group");
    assert_eq!(p.name, "a_b_c");
    assert_eq!(p.to_path(), "target/iai/bench/group/callgrind.a_b_c.out");
    assert_eq!(p.to_old_output().to_path(), "target/iai/bench/group/callgrind.a_b_c.out.old");
    assert_eq!(p.to_old_output().to_old_output().extension, "out.old");
    assert_eq!(p.to_log_output().to_path(), "target/iai/bench/group/callgrind.a_b_c.log");
    assert_eq!(p.to_tool_output(ValgrindTool::DHAT).file_name(), "dhat.a_b_c.out");
    let dots = ToolOutputPath::new(ValgrindTool::DHAT, "t/", "m", "..");
    assert_eq!(dots.to_path(), "t/m/dhat._.out");
}

#[test]
fn long_names_are_truncated() {
    let long = "x".repeat(300);
    let p = ToolOutputPath::new(ValgrindTool::Callgrind, "t", "m", &long);
    assert_eq!(p.name.len(), 237);
    assert_eq!(truncate_str_utf8("aé", 2), "a");
    assert_eq!(truncate_str_utf8("aé", 3), "aé");
}

#[test]
fn rotation() {
    let p = ToolOutputPath::new(ValgrindTool::Callgrind, "d", "m", "file");
    let listing = strings(&["d/m/callgrind.file.out", "d/m/callgrind.file.out.old", "d/m/other.out"]);
    let plan = p.rotation_plan(&listing);
    assert_eq!(plan.removals, strings(&["d/m/callgrind.file.out.old"]));
    assert_eq!(
        plan.renames,
        vec![("d/m/callgrind.file.out".to_string(), "d/m/callgrind.file.out.old".to_string())]
    );
    assert_eq!(p.real_paths(&listing), strings(&["d/m/callgrind.file.out"]));
    let c = CallgrindOutput::create("d", "m", "file");
    assert_eq!(c.file, "d/m/callgrind.file.out");
    assert_eq!(c.old_output().file, "d/m/callgrind.file.out.old");
}

#[test]
fn assistants() {
    let decls = vec![
        AssistantDecl { id: "setup".to_string(), name: "s1".to_string(), bench: true },
        AssistantDecl { id: "after".to_string(), name: "a".to_string(), bench: true },
        AssistantDecl { id: "setup".to_string(), name: "s2".to_string(), bench: false },
    ];
    let b = BenchmarkAssistants::from_decls(&decls).unwrap();
    assert_eq!(b.setup.as_ref().unwrap().name, "s2");
    assert!(b.before.is_none());
    let mut after = b.after.clone().unwrap();
    assert_eq!(after.run(), AssistantRun::Bench);
    let mut setup = Assistant::new("s".to_string(), AssistantKind::Setup, true);
    assert_eq!(setup.run(), AssistantRun::Plain);
    assert!(!setup.bench);
    assert_eq!(AssistantKind::Teardown.id(), "teardown");
    let bad = vec![AssistantDecl { id: "during".to_string(), name: "x".to_string(), bench: false }];
    assert!(BenchmarkAssistants::from_decls(&bad).is_none());
}

#[test]
fn benchmark_ids_and_names() {
    let ids = assign_ids(&vec![None, Some("named".to_string()), None, None]);
    assert_eq!(ids, strings(&["0", "named", "1", "2"]));
    assert_eq!(usize_to_string(1207), "1207");
    assert_eq!(display_command("echo", &strings(&["a", "b"])), "echo a b");
    assert_eq!(display_command("echo", &vec![]), "echo ");
}

#[test]
fn versions() {
    assert_eq!(check_versions("0.7.0", "0.7.0"), Ok(()));
    assert_eq!(check_versions("0.7.0", "0.6.1").unwrap_err().cmp, VersionCmp::Gt);
    assert_eq!(check_versions("0.7.0", "0.8").unwrap_err().cmp, VersionCmp::Lt);
    assert_eq!(check_version_cmp(None).unwrap_err().cmp, VersionCmp::Ne);
    assert_eq!(check_version_cmp(Some(VersionCmp::Eq)), Ok(()));
}

#[test]
fn summary_records() {
    let f = FlamegraphSummary::new(EventType::Ir);
    assert!(f.regular_path.is_none() && f.old_path.is_none() && f.diff_path.is_none());
    let s = SummaryOutput::new(SummaryFormat::Json, "target/iai/m");
    assert_eq!(s.path, "target/iai/m/summary.json");
}

#[test]
fn output_names_are_read_back() {
    let p = ToolOutputPath::from_existing("d", "callgrind.bench.x.out.old").unwrap();
    assert_eq!(p.tool, ValgrindTool::Callgrind);
    assert_eq!(p.name, "bench.x");
    assert_eq!(p.extension, "out.old");
    assert_eq!(p.dir, "d");
    let q = ToolOutputPath::from_existing("d", "dhat.a.out.out.1").unwrap();
    assert_eq!(q.name, "a.out");
    assert_eq!(q.extension, "out.1");
    assert_eq!(ToolOutputPath::from_existing("d", "callgrind.out").unwrap_err(), OutputNameError::IllegalFileName);
    assert_eq!(ToolOutputPath::from_existing("d", "foo.x.out").unwrap_err(), OutputNameError::UnknownTool);
}

#[test]
fn benchmark_summary_and_regressions() {
    let mut b = BenchmarkSummary::new(
        BenchmarkKind::BinaryBenchmark,
        "/root".to_string(),
        "/root/pkg".to_string(),
        "benches/b.rs",
        "/abs/exe",
        &strings(&["b", "group", "bench"]),
        Some("id".to_string()),
        None,
        None,
    );
    assert_eq!(b.version, "1");
    assert_eq!(b.benchmark_file, "/root/benches/b.rs");
    assert_eq!(b.benchmark_exe, "/abs/exe");
    assert_eq!(b.bench_path, "b::group::bench");
    let mut regressed = false;
    assert_eq!(b.check_regression(&mut regressed), Ok(()));
    assert!(!regressed);

    let costs = Costs(vec![Event { kind: EventType::Ir, cost: 2 }]);
    let out = ToolOutputPath::new(ValgrindTool::Callgrind, "d", "m", "x");
    let mut c = CallgrindSummary::new(false, vec![], vec![]);
    c.add_summary("bench", &strings(&["a b", "c"]), &out.to_old_output(), true, CostsSummary::new(&costs, None), vec![]);
    assert_eq!(c.summaries[0].command, "bench 'a b' c");
    assert_eq!(c.summaries[0].baseline.as_ref().unwrap().path, "d/m/callgrind.x.out.old");
    assert!(!c.is_regressed());
    let regression = CallgrindRegressionSummary {
        event_kind: EventType::Ir,
        new: 2,
        old: 1,
        diff_pct: Ratio { num: 100, den: 1 },
        limit: Ratio { num: 10, den: 1 },
    };
    c.add_summary("bench", &vec![], &out, false, CostsSummary::new(&costs, None), vec![regression]);
    assert!(c.summaries[1].baseline.is_none());
    assert!(c.is_regressed());
    b.callgrind_summary = Some(c);
    assert_eq!(b.check_regression(&mut regressed), Ok(()));
    assert!(regressed);
    b.callgrind_summary.as_mut().unwrap().regression_fail_fast = true;
    assert_eq!(b.check_regression(&mut regressed), Err(RegressionError));
}

#[test]
fn arguments_for_a_function_benchmark() {
    let a = CallgrindArgs::from_args(&strings(&["--toggle-collect=user", "--dump-line=no"]));
    assert_eq!(
        a.parse_with("t/callgrind.f.out", "m", "f"),
        strings(&[
            "--I1=32768,8,64",
            "--D1=32768,8,64",
            "--LL=8388608,16,64",
            "--cache-sim=yes",
            "--collect-atstart=no",
            "--compress-strings=no",
            "--compress-pos=no",
            "--dump-line=no",
            "--callgrind-out-file=t/callgrind.f.out",
            "--toggle-collect=*m::f",
            "--toggle-collect=user",
        ])
    );
}

#[test]
fn binary_benchmark_file_names() {
    assert_eq!(bin_bench_file_name("echo", &strings(&["a", "b/c"])), "echo.a b_c");
    assert_eq!(bin_bench_file_name("echo", &vec![]), "echo");
    assert_eq!(bin_bench_file_name("CON", &vec![]), "_");
    assert_eq!(bin_bench_file_name("com1.txt", &vec![]), "_");
    assert_eq!(bin_bench_file_name("run", &strings(&["x. "])), "run.x_");
    assert_eq!(bin_bench_file_name(&"y".repeat(300), &vec![]).len(), 255);
}

#[test]
fn run_command_line() {
    assert_eq!(run_command("/bin/bench", "--x 'a b'"), "/bin/bench --x 'a b'");
    assert_eq!(run_command("b", ""), "b ");
}
