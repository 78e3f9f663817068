use iai_callgrind_runner::logfile::{LogfileError, LogfileParser};

fn lines(text: &str) -> Vec<String> {
    text.lines().map(|l| l.to_string()).collect()
}

const MEMCHECK_LOG: &str = "
==1234== Memcheck, a memory error detector
==1234== Copyright (C) 2002-2022, and GNU GPL'd, by Julian Seward et al.
==1234== Command: /home/user/project/target/release/bench --iai-run
==1234== Parent PID: 1200
==1234==
==1234==
==1234== HEAP SUMMARY:
==1234==     in use at exit: 0 bytes in 0 blocks
==1234==
==1234== ERROR SUMMARY: 0 errors from 0 contexts (suppressed: 0 from 0)
==1234==
";

#[test]
fn memcheck_log_is_read() {
    let parser = LogfileParser { root_dir: "/home/user/project".to_string() };
    let s = parser
        .parse_single("/home/user/project/target/iai/memcheck.x.log", &lines(MEMCHECK_LOG))
        .unwrap();
    assert_eq!(s.pid, 1234);
    assert_eq!(s.command, "target/release/bench --iai-run");
    assert_eq!(s.fields, vec![("Parent PID".to_string(), "1200".to_string())]);
    assert_eq!(
        s.body,
        vec![
            "HEAP SUMMARY:".to_string(),
            "    in use at exit: 0 bytes in 0 blocks".to_string(),
            "==1234==".to_string(),
            "==1234==".to_string(),
        ]
    );
    assert_eq!(s.error_summary.as_deref(), Some("0 errors from 0 contexts (suppressed: 0 from 0)"));
    assert_eq!(s.log_path, "target/iai/memcheck.x.log");
}

#[test]
fn time_stamped_prefix_is_read() {
    let text = "--00:00:00:01.234 77-- DHAT\n--00:00:00:01.234 77-- Command: ./a\n--00:00:00:01.234 77--\n--00:00:00:01.234 77-- Total: 10 bytes\n";
    let parser = LogfileParser { root_dir: "/r".to_string() };
    let s = parser.parse_single("log", &lines(text)).unwrap();
    assert_eq!(s.pid, 77);
    assert_eq!(s.command, "./a");
    assert_eq!(s.body, vec!["Total: 10 bytes".to_string()]);
    assert!(s.error_summary.is_none());
}

#[test]
fn log_errors() {
    let parser = LogfileParser { root_dir: "/r".to_string() };
    assert_eq!(parser.parse_single("l", &lines("\n \n")).unwrap_err(), LogfileError::EmptyFile);
    assert_eq!(parser.parse_single("l", &lines("no prefix\n")).unwrap_err(), LogfileError::MalformedPid);
    assert_eq!(parser.parse_single("l", &lines("==99999999999== x\n")).unwrap_err(), LogfileError::MalformedPid);
    assert_eq!(parser.parse_single("l", &lines("==5== x\n==5== y\n")).unwrap_err(), LogfileError::MissingCommand);
}

#[test]
fn logs_are_ordered_by_pid() {
    let parser = LogfileParser { root_dir: "/r".to_string() };
    let logs = vec![
        ("a.log".to_string(), lines("==30== x\n==30== Command: c30\n")),
        ("b.log".to_string(), lines("==10== x\n==10== Command: c10\n")),
        ("c.log".to_string(), lines("==20== x\n==20== Command: c20\n")),
    ];
    let summaries = parser.parse(&logs).unwrap();
    let pids: Vec<i32> = summaries.iter().map(|s| s.pid).collect();
    assert_eq!(pids, vec![10, 20, 30]);
    assert_eq!(summaries[0].log_path, "b.log");
    let bad = vec![logs[0].clone(), ("d.log".to_string(), lines("oops\n"))];
    assert_eq!(parser.parse(&bad).unwrap_err(), LogfileError::MalformedPid);
}
