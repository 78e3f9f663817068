//! Reading valgrind's log files: the pid, the command, a few header fields, the
//! body and the error summary.
//!
//! Each line that valgrind writes starts with a prefix: optional whitespace,
//! `==` or `--`, an optional time stamp (digits, `:` and `.`, then whitespace),
//! the pid, and `==` or `--` again.
use vstd::prelude::*;
use vstd::string::{StrSliceExecFns, StringExecFns};
use crate::text::{
    has_prefix, is_ascii_digit, is_unicode_ws, leading_ws, starts_with, trim, trim_end,
    trim_start, trim_start_str, trim_str, views,
};

verus! {

/// A character of a time stamp.
pub open spec fn is_stamp_char(c: char) -> bool {
    is_ascii_digit(c) || c == ':' || c == '.'
}

/// The length of the run of time stamp characters at `i`.
pub open spec fn stamp_run(s: Seq<char>, i: int) -> nat
    decreases s.len() - i,
{
    if 0 <= i < s.len() && is_stamp_char(s[i]) {
        1 + stamp_run(s, i + 1)
    } else {
        0
    }
}

/// The length of the run of digits at `i`.
pub open spec fn digit_run(s: Seq<char>, i: int) -> nat
    decreases s.len() - i,
{
    if 0 <= i < s.len() && is_ascii_digit(s[i]) {
        1 + digit_run(s, i + 1)
    } else {
        0
    }
}

/// The length of the run of whitespace at `i`.
pub open spec fn ws_run(s: Seq<char>, i: int) -> nat
    decreases s.len() - i,
{
    if 0 <= i < s.len() && is_unicode_ws(s[i]) {
        1 + ws_run(s, i + 1)
    } else {
        0
    }
}

/// `==` or `--` stands at `i`.
pub open spec fn marker_at(s: Seq<char>, i: int) -> bool {
    0 <= i && i + 1 < s.len() && ((s[i] == '=' && s[i + 1] == '=') || (s[i] == '-' && s[i + 1]
        == '-'))
}

/// Where the pid of a log line's prefix starts and ends, and where the prefix
/// ends; `None` for a line without the prefix.
pub open spec fn log_prefix(s: Seq<char>) -> Option<(int, int, int)> {
    let i0 = leading_ws(s) as int;
    if !marker_at(s, i0) {
        None
    } else {
        let j = i0 + 2;
        let k = j + stamp_run(s, j);
        if k > j && k < s.len() && is_unicode_ws(s[k]) {
            let w = k + ws_run(s, k);
            let d = w + digit_run(s, w);
            if d > w && marker_at(s, d) {
                Some((w, d, d + 2))
            } else {
                None
            }
        } else {
            let d = j + digit_run(s, j);
            if d > j && marker_at(s, d) {
                Some((j, d, d + 2))
            } else {
                None
            }
        }
    }
}

proof fn lemma_runs_bounded(s: Seq<char>, i: int)
    requires
        0 <= i <= s.len(),
    ensures
        i + stamp_run(s, i) <= s.len(),
        i + digit_run(s, i) <= s.len(),
        i + ws_run(s, i) <= s.len(),
    decreases s.len() - i,
{
    if i < s.len() {
        lemma_runs_bounded(s, i + 1);
    }
}

fn is_stamp(c: char) -> (r: bool)
    ensures
        r == is_stamp_char(c),
{
    ('0' <= c && c <= '9') || c == ':' || c == '.'
}

fn is_digit(c: char) -> (r: bool)
    ensures
        r == is_ascii_digit(c),
{
    '0' <= c && c <= '9'
}

fn stamp_run_exec(s: &str, i: usize) -> (r: usize)
    requires
        i <= s@.len(),
    ensures
        r == stamp_run(s@, i as int),
        i + r <= s@.len(),
{
    let n = s.unicode_len();
    let mut k = i;
    proof {
        lemma_runs_bounded(s@, i as int);
    }
    while k < n && is_stamp(s.get_char(k))
        invariant
            n == s@.len(),
            i <= k <= n,
            stamp_run(s@, i as int) == (k - i) + stamp_run(s@, k as int),
        decreases n - k,
    {
        k = k + 1;
    }
    k - i
}

fn digit_run_exec(s: &str, i: usize) -> (r: usize)
    requires
        i <= s@.len(),
    ensures
        r == digit_run(s@, i as int),
        i + r <= s@.len(),
{
    let n = s.unicode_len();
    let mut k = i;
    proof {
        lemma_runs_bounded(s@, i as int);
    }
    while k < n && is_digit(s.get_char(k))
        invariant
            n == s@.len(),
            i <= k <= n,
            digit_run(s@, i as int) == (k - i) + digit_run(s@, k as int),
        decreases n - k,
    {
        k = k + 1;
    }
    k - i
}

fn ws_run_exec(s: &str, i: usize) -> (r: usize)
    requires
        i <= s@.len(),
    ensures
        r == ws_run(s@, i as int),
        i + r <= s@.len(),
{
    let n = s.unicode_len();
    let mut k = i;
    proof {
        lemma_runs_bounded(s@, i as int);
    }
    while k < n && crate::text::is_whitespace_char(s.get_char(k))
        invariant
            n == s@.len(),
            i <= k <= n,
            ws_run(s@, i as int) == (k - i) + ws_run(s@, k as int),
        decreases n - k,
    {
        k = k + 1;
    }
    k - i
}

fn marker_at_exec(s: &str, i: usize) -> (r: bool)
    ensures
        r == marker_at(s@, i as int),
{
    let n = s.unicode_len();
    if i >= n || n - i < 2 {
        return false;
    }
    let a = s.get_char(i);
    let b = s.get_char(i + 1);
    (a == '=' && b == '=') || (a == '-' && b == '-')
}

proof fn lemma_leading_ws_le(s: Seq<char>)
    ensures
        leading_ws(s) <= s.len(),
    decreases s.len(),
{
    if s.len() > 0 && is_unicode_ws(s[0]) {
        lemma_leading_ws_le(s.drop_first());
    }
}

/// The prefix of a log line: where its pid starts and ends and where it ends.
pub fn log_prefix_exec(s: &str) -> (r: Option<(usize, usize, usize)>)
    ensures
        r is Some <==> log_prefix(s@) is Some,
        r matches Some(x) ==> log_prefix(s@) == Some((x.0 as int, x.1 as int, x.2 as int)) && x.0
            < x.1 && x.1 + 2 == x.2 && x.2 <= s@.len() && x.1 == x.0 + digit_run(s@, x.0 as int),
{
    let n = s.unicode_len();
    let t = trim_start_str(s);
    proof {
        lemma_leading_ws_le(s@);
    }
    let i0 = n - t.unicode_len();
    if !marker_at_exec(s, i0) {
        return None;
    }
    let j = i0 + 2;
    let k = j + stamp_run_exec(s, j);
    if k > j && k < n && crate::text::is_whitespace_char(s.get_char(k)) {
        let w = k + ws_run_exec(s, k);
        let d = w + digit_run_exec(s, w);
        if d > w && marker_at_exec(s, d) {
            Some((w, d, d + 2))
        } else {
            None
        }
    } else {
        let d = j + digit_run_exec(s, j);
        if d > j && marker_at_exec(s, d) {
            Some((j, d, d + 2))
        } else {
            None
        }
    }
}

/// What follows the prefix of a log line.
pub open spec fn after_prefix(s: Seq<char>) -> Option<Seq<char>> {
    match log_prefix(s) {
        Some((_, _, e)) => Some(s.subrange(e, s.len() as int)),
        None => None,
    }
}

/// A log line with nothing but whitespace after its prefix.
pub open spec fn is_empty_log_line(s: Seq<char>) -> bool {
    match after_prefix(s) {
        Some(r) => trim_start(r).len() == 0,
        None => false,
    }
}

/// The text of a line for the body: what follows the prefix and one space, or the
/// whole line where it has no such prefix.
pub open spec fn body_text(s: Seq<char>) -> Seq<char> {
    match after_prefix(s) {
        Some(r) => if r.len() > 0 && r[0] == ' ' {
            r.drop_first()
        } else {
            s
        },
        None => s,
    }
}

/// The position of the first `:` in `s`, if any.
pub open spec fn colon_index(s: Seq<char>) -> Option<int>
    decreases s.len(),
{
    if s.len() == 0 {
        None
    } else if s[0] == ':' {
        Some(0)
    } else {
        match colon_index(s.drop_first()) {
            Some(i) => Some(i + 1),
            None => None,
        }
    }
}

/// The `key: value` of a log line: the key runs to the first `:`, without
/// surrounding whitespace; the value follows it, without leading whitespace.
pub open spec fn field_of(s: Seq<char>) -> Option<(Seq<char>, Seq<char>)> {
    match after_prefix(s) {
        Some(r) => {
            let t = trim_start(r);
            match colon_index(t) {
                Some(c) => Some((trim_end(t.subrange(0, c)), trim_start(t.subrange(c + 1, t.len() as int)))),
                None => None,
            }
        },
        None => None,
    }
}

/// `a` equals the lower-case ASCII word `lower`, ignoring ASCII case.
pub open spec fn eq_ignore_case(a: Seq<char>, lower: Seq<char>) -> bool {
    a.len() == lower.len() && forall|i: int|
        0 <= i < a.len() ==> #[trigger] a[i] == lower[i] || ('a' <= lower[i] && lower[i] <= 'z'
            && a[i] as u32 + 32 == lower[i] as u32)
}

/// `p` relative to the directory `root` where it lies inside it.
pub open spec fn relative_to(root: Seq<char>, p: Seq<char>) -> Seq<char> {
    let r = if root.len() > 0 && root.last() == '/' {
        root
    } else {
        root + "/"@
    };
    if root.len() > 0 && has_prefix(p, r) {
        p.subrange(r.len() as int, p.len() as int)
    } else {
        p
    }
}

/// Where the reader of a log file stands.
#[derive(Debug, Clone, Copy, PartialEq, Eq, Structural)]
pub enum LogState {
    /// The header, up to its first empty log line.
    Header,
    /// Empty log lines after the header.
    HeaderSpace,
    /// The rest.
    Body,
}

/// What has been read of a log file.
pub struct LogAcc {
    pub state: LogState,
    pub command: Option<Seq<char>>,
    pub fields: Seq<(Seq<char>, Seq<char>)>,
    pub body: Seq<Seq<char>>,
    pub error_summary: Option<Seq<char>>,
}

/// One line of a log file. In the header the command and the parent pid are
/// kept; after it, the error summary is kept apart and every other line goes to
/// the body.
pub open spec fn log_step(acc: LogAcc, line: Seq<char>, root: Seq<char>) -> LogAcc {
    match acc.state {
        LogState::Header => if !is_empty_log_line(line) {
            match field_of(line) {
                Some((k, v)) => if eq_ignore_case(k, "command"@) {
                    LogAcc { command: Some(relative_to(root, v)), ..acc }
                } else if eq_ignore_case(k, "parent pid"@) {
                    LogAcc { fields: acc.fields.push((k, v)), ..acc }
                } else {
                    acc
                },
                None => acc,
            }
        } else {
            LogAcc { state: LogState::HeaderSpace, ..acc }
        },
        LogState::HeaderSpace if is_empty_log_line(line) => acc,
        _ => match field_of(line) {
            Some((k, v)) if eq_ignore_case(k, "error summary"@) => LogAcc {
                state: LogState::Body,
                error_summary: Some(v),
                ..acc
            },
            _ => LogAcc { state: LogState::Body, body: acc.body.push(body_text(line)), ..acc },
        },
    }
}

/// The reader before the first line after the pid line.
pub open spec fn initial_acc() -> LogAcc {
    LogAcc {
        state: LogState::Header,
        command: None,
        fields: seq![],
        body: seq![],
        error_summary: None,
    }
}

/// The reader after `lines`.
pub open spec fn log_run(lines: Seq<Seq<char>>, root: Seq<char>) -> LogAcc
    decreases lines.len(),
{
    if lines.len() == 0 {
        initial_acc()
    } else {
        log_step(log_run(lines.drop_last(), root), lines.last(), root)
    }
}

/// `body` without its trailing blank lines.
pub open spec fn drop_blank_tail(body: Seq<Seq<char>>) -> Seq<Seq<char>>
    decreases body.len(),
{
    if body.len() > 0 && trim(body.last()).len() == 0 {
        drop_blank_tail(body.drop_last())
    } else {
        body
    }
}

/// The pid in the prefix of a log line, where it fits in `i32`.
pub open spec fn pid_of(line: Seq<char>) -> Option<i32> {
    let t = trim(line);
    match log_prefix(t) {
        Some((a, b, _)) => if crate::text::decimal_value(t.subrange(a, b)) <= i32::MAX {
            Some(crate::text::decimal_value(t.subrange(a, b)) as i32)
        } else {
            None
        },
        None => None,
    }
}

fn after_prefix_exec(s: &str) -> (r: Option<&str>)
    ensures
        match after_prefix(s@) {
            Some(t) => r matches Some(x) && x@ == t,
            None => r is None,
        },
{
    match log_prefix_exec(s) {
        Some((_, _, e)) => Some(s.substring_char(e, s.unicode_len())),
        None => None,
    }
}

fn is_empty_log_line_exec(s: &str) -> (r: bool)
    ensures
        r == is_empty_log_line(s@),
{
    match after_prefix_exec(s) {
        Some(t) => trim_start_str(t).unicode_len() == 0,
        None => false,
    }
}

fn body_text_exec(s: &str) -> (r: String)
    ensures
        r@ == body_text(s@),
{
    match after_prefix_exec(s) {
        Some(t) => {
            let n = t.unicode_len();
            if n > 0 && t.get_char(0) == ' ' {
                assert(t@.drop_first() =~= t@.subrange(1, n as int));
                t.substring_char(1, n).to_owned()
            } else {
                s.to_owned()
            }
        },
        None => s.to_owned(),
    }
}

fn colon_index_exec(s: &str) -> (r: Option<usize>)
    ensures
        r is Some <==> colon_index(s@) is Some,
        r matches Some(c) ==> colon_index(s@) == Some(c as int) && c < s@.len(),
{
    let n = s.unicode_len();
    let mut i: usize = 0;
    assert(s@.subrange(0, n as int) =~= s@);
    while i < n
        invariant
            n == s@.len(),
            i <= n,
            colon_index(s@) == match colon_index(s@.subrange(i as int, n as int)) {
                Some(c) => Some(c + i),
                None => None,
            },
        decreases n - i,
    {
        let ghost rest = s@.subrange(i as int, n as int);
        assert(rest.drop_first() =~= s@.subrange(i + 1, n as int));
        if s.get_char(i) == ':' {
            return Some(i);
        }
        i = i + 1;
    }
    None
}

fn field_of_exec(s: &str) -> (r: Option<(String, String)>)
    ensures
        match field_of(s@) {
            Some((k, v)) => r matches Some(x) && x.0@ == k && x.1@ == v,
            None => r is None,
        },
{
    match after_prefix_exec(s) {
        Some(rest) => {
            let t = trim_start_str(rest);
            match colon_index_exec(t) {
                Some(c) => {
                    let n = t.unicode_len();
                    let key = crate::text::trim_end_str(t.substring_char(0, c)).to_owned();
                    let value = trim_start_str(t.substring_char(c + 1, n)).to_owned();
                    Some((key, value))
                },
                None => None,
            }
        },
        None => None,
    }
}

fn eq_ignore_case_exec(a: &str, lower: &str) -> (r: bool)
    ensures
        r == eq_ignore_case(a@, lower@),
{
    let n = a.unicode_len();
    if n != lower.unicode_len() {
        return false;
    }
    let mut i: usize = 0;
    while i < n
        invariant
            n == a@.len(),
            n == lower@.len(),
            i <= n,
            forall|j: int|
                0 <= j < i ==> #[trigger] a@[j] == lower@[j] || ('a' <= lower@[j] && lower@[j]
                    <= 'z' && a@[j] as u32 + 32 == lower@[j] as u32),
        decreases n - i,
    {
        let c = a.get_char(i);
        let l = lower.get_char(i);
        if !(c == l || ('a' <= l && l <= 'z' && c as u32 + 32 == l as u32)) {
            return false;
        }
        i = i + 1;
    }
    true
}

fn relative_to_exec(root: &str, p: &str) -> (r: String)
    ensures
        r@ == relative_to(root@, p@),
{
    let n = root.unicode_len();
    if n == 0 {
        return p.to_owned();
    }
    let mut r = root.to_owned();
    if root.get_char(n - 1) != '/' {
        r.append("/");
    }
    if starts_with(p, r.as_str()) {
        p.substring_char(r.as_str().unicode_len(), p.unicode_len()).to_owned()
    } else {
        p.to_owned()
    }
}

fn pid_of_exec(line: &str) -> (r: Option<i32>)
    ensures
        r == pid_of(line@),
{
    let t = trim_str(line);
    match log_prefix_exec(t) {
        Some((a, b, _)) => {
            let d = t.substring_char(a, b);
            proof {
                lemma_digit_run_all_digits(t@, a as int, b as int);
            }
            match crate::text::parse_u64(d) {
                Some(v) => if v <= 2147483647 {
                    Some(v as i32)
                } else {
                    None
                },
                None => None,
            }
        },
        None => None,
    }
}

proof fn lemma_digit_run_all_digits(s: Seq<char>, a: int, b: int)
    requires
        0 <= a < b <= s.len(),
        b == a + digit_run(s, a),
    ensures
        crate::text::all_digits(s.subrange(a, b)),
        crate::text::digits_of(s.subrange(a, b)) == s.subrange(a, b),
    decreases b - a,
{
    if b - a > 1 {
        lemma_digit_run_all_digits(s, a + 1, b);
        assert forall|k: int| 0 <= k < b - a implies crate::text::is_ascii_digit(
            #[trigger] s.subrange(a, b)[k],
        ) by {
            if k > 0 {
                assert(s.subrange(a, b)[k] == s.subrange(a + 1, b)[k - 1]);
            }
        }
    }
}

/// The lines from the first one that is not blank on.
pub open spec fn skip_blank(lines: Seq<Seq<char>>) -> Seq<Seq<char>>
    decreases lines.len(),
{
    if lines.len() > 0 && trim(lines[0]).len() == 0 {
        skip_blank(lines.drop_first())
    } else {
        lines
    }
}

/// Why a log file could not be read.
#[derive(Debug, Clone, Copy, PartialEq, Eq, Structural)]
pub enum LogfileError {
    /// The file holds blank lines only.
    EmptyFile,
    /// The first line has no valgrind prefix with a pid that fits in `i32`.
    MalformedPid,
    /// The header names no command.
    MissingCommand,
}

/// Reads valgrind log files, making paths relative to `root_dir`.
#[derive(Debug, Clone)]
pub struct LogfileParser {
    pub root_dir: String,
}

/// What a log file tells of one process.
#[derive(Debug, Clone)]
pub struct LogfileSummary {
    pub command: String,
    pub pid: i32,
    pub fields: Vec<(String, String)>,
    pub body: Vec<String>,
    pub error_summary: Option<String>,
    pub log_path: String,
}

/// The mathematical content of a `LogfileSummary`.
pub struct LogView {
    pub command: Seq<char>,
    pub pid: i32,
    pub fields: Seq<(Seq<char>, Seq<char>)>,
    pub body: Seq<Seq<char>>,
    pub error_summary: Option<Seq<char>>,
    pub log_path: Seq<char>,
}

/// The views of a vector of string pairs.
pub open spec fn pair_views(v: Seq<(String, String)>) -> Seq<(Seq<char>, Seq<char>)> {
    v.map_values(|p: (String, String)| (p.0@, p.1@))
}

/// The view of an optional string.
pub open spec fn opt_view(o: Option<String>) -> Option<Seq<char>> {
    match o {
        Some(s) => Some(s@),
        None => None,
    }
}

impl View for LogfileSummary {
    type V = LogView;

    open spec fn view(&self) -> LogView {
        LogView {
            command: self.command@,
            pid: self.pid,
            fields: pair_views(self.fields@),
            body: views(self.body@),
            error_summary: opt_view(self.error_summary),
            log_path: self.log_path@,
        }
    }
}

/// What the reader makes of the lines of the log file at `path`: the pid from the
/// first line that is not blank, then the header fields, body and error summary of
/// the lines after it, the body without trailing blank lines.
pub open spec fn parse_log(lines: Seq<Seq<char>>, root: Seq<char>, path: Seq<char>) -> Result<
    LogView,
    LogfileError,
> {
    let ls = skip_blank(lines);
    if ls.len() == 0 {
        Err(LogfileError::EmptyFile)
    } else {
        match pid_of(ls[0]) {
            None => Err(LogfileError::MalformedPid),
            Some(pid) => {
                let acc = log_run(ls.drop_first(), root);
                match acc.command {
                    None => Err(LogfileError::MissingCommand),
                    Some(c) => Ok(
                        LogView {
                            command: c,
                            pid,
                            fields: acc.fields,
                            body: drop_blank_tail(acc.body),
                            error_summary: acc.error_summary,
                            log_path: relative_to(root, path),
                        },
                    ),
                }
            },
        }
    }
}

struct LogReader {
    state: LogState,
    command: Option<String>,
    fields: Vec<(String, String)>,
    body: Vec<String>,
    error_summary: Option<String>,
}

impl LogReader {
    spec fn view(&self) -> LogAcc {
        LogAcc {
            state: self.state,
            command: opt_view(self.command),
            fields: pair_views(self.fields@),
            body: views(self.body@),
            error_summary: opt_view(self.error_summary),
        }
    }

    fn step(&mut self, line: &str, root: &str)
        ensures
            final(self).view() == log_step(old(self).view(), line@, root@),
    {
        match self.state {
            LogState::Header => {
                if !is_empty_log_line_exec(line) {
                    match field_of_exec(line) {
                        Some((k, v)) => {
                            if eq_ignore_case_exec(k.as_str(), "command") {
                                self.command = Some(relative_to_exec(root, v.as_str()));
                            } else if eq_ignore_case_exec(k.as_str(), "parent pid") {
                                let ghost before = self.fields@;
                                let ghost kv = (k@, v@);
                                self.fields.push((k, v));
                                assert(pair_views(self.fields@) =~= pair_views(before).push(kv));
                            }
                        },
                        None => {},
                    }
                } else {
                    self.state = LogState::HeaderSpace;
                }
            },
            _ => {
                if self.state == LogState::HeaderSpace && is_empty_log_line_exec(line) {
                    return;
                }
                self.state = LogState::Body;
                match field_of_exec(line) {
                    Some((k, v)) => {
                        if eq_ignore_case_exec(k.as_str(), "error summary") {
                            self.error_summary = Some(v);
                            return;
                        }
                    },
                    None => {},
                }
                let ghost before = self.body@;
                let t = body_text_exec(line);
                let ghost tv = t@;
                self.body.push(t);
                assert(views(self.body@) =~= views(before).push(tv));
            },
        }
    }
}

fn is_blank_line(line: &str) -> (r: bool)
    ensures
        r == (trim(line@).len() == 0),
{
    trim_str(line).unicode_len() == 0
}

impl LogfileParser {
    /// Reads the log file at `path`, whose lines are `lines`.
    pub fn parse_single(&self, path: &str, lines: &Vec<String>) -> (r: Result<
        LogfileSummary,
        LogfileError,
    >)
        ensures
            match parse_log(views(lines@), self.root_dir@, path@) {
                Ok(v) => r matches Ok(x) && x@ == v,
                Err(e) => r matches Err(x) && x == e,
            },
    {
        let ghost ls = views(lines@);
        let n = lines.len();
        let mut f: usize = 0;
        assert(ls.subrange(0, n as int) =~= ls);
        while f < n && is_blank_line(lines[f].as_str())
            invariant
                n == lines@.len(),
                ls == views(lines@),
                f <= n,
                skip_blank(ls) == skip_blank(ls.subrange(f as int, n as int)),
            decreases n - f,
        {
            let ghost rest = ls.subrange(f as int, n as int);
            assert(rest.drop_first() =~= ls.subrange(f + 1, n as int));
            f = f + 1;
        }
        let ghost sb = ls.subrange(f as int, n as int);
        proof {
            if f < n {
                assert(sb[0] == ls[f as int]);
            }
        }
        if f == n {
            return Err(LogfileError::EmptyFile);
        }
        let pid = match pid_of_exec(lines[f].as_str()) {
            Some(p) => p,
            None => {
                return Err(LogfileError::MalformedPid);
            },
        };
        let mut reader = LogReader {
            state: LogState::Header,
            command: None,
            fields: Vec::new(),
            body: Vec::new(),
            error_summary: None,
        };
        assert(reader.view().fields =~= initial_acc().fields);
        assert(reader.view().body =~= initial_acc().body);
        let ghost tail = sb.drop_first();
        assert(tail =~= ls.subrange(f + 1, n as int));
        let mut i: usize = f + 1;
        assert(tail.subrange(0, 0) =~= Seq::<Seq<char>>::empty());
        while i < n
            invariant
                n == lines@.len(),
                ls == views(lines@),
                f < i <= n,
                tail == ls.subrange(f + 1, n as int),
                reader.view() == log_run(tail.subrange(0, i - f - 1), self.root_dir@),
            decreases n - i,
        {
            assert(tail.subrange(0, i - f).drop_last() =~= tail.subrange(0, i - f - 1));
            assert(tail.subrange(0, i - f).last() == ls[i as int]);
            reader.step(lines[i].as_str(), self.root_dir.as_str());
            i = i + 1;
        }
        assert(tail.subrange(0, n - f - 1) =~= tail);
        let command = match reader.command {
            Some(c) => c,
            None => {
                return Err(LogfileError::MissingCommand);
            },
        };
        let mut body = reader.body;
        while body.len() > 0 && is_blank_line(body[body.len() - 1].as_str())
            invariant
                drop_blank_tail(log_run(tail, self.root_dir@).body) == drop_blank_tail(views(body@)),
            decreases body.len(),
        {
            let ghost before = views(body@);
            body.pop();
            assert(views(body@) =~= before.drop_last());
        }
        Ok(
            LogfileSummary {
                command,
                pid,
                fields: reader.fields,
                body,
                error_summary: reader.error_summary,
                log_path: relative_to_exec(self.root_dir.as_str(), path),
            },
        )
    }
}

/// Summaries in order of their pids.
pub open spec fn sorted_by_pid(v: Seq<LogfileSummary>) -> bool {
    forall|i: int, j: int| 0 <= i < j < v.len() ==> (#[trigger] v[i]).pid <= (#[trigger] v[j]).pid
}

/// `v` ordered by pid; summaries of equal pids keep their order.
pub fn sort_by_pid(v: Vec<LogfileSummary>) -> (r: Vec<LogfileSummary>)
    ensures
        r@.to_multiset() == v@.to_multiset(),
        sorted_by_pid(r@),
{
    broadcast use vstd::multiset::group_multiset_axioms;

    let ghost all = v@;
    let mut rest = v;
    let mut out: Vec<LogfileSummary> = Vec::new();
    proof {
        vstd::seq_lib::to_multiset_len(out@);
        vstd::multiset::lemma_multiset_empty_len(out@.to_multiset());
        assert(out@.to_multiset().add(rest@.to_multiset()) =~= all.to_multiset());
    }
    while rest.len() > 0
        invariant
            out@.to_multiset().add(rest@.to_multiset()) == all.to_multiset(),
            sorted_by_pid(out@),
        decreases rest@.len(),
    {
        let ghost before_rest = rest@;
        let x = rest.remove(0);
        let mut j: usize = 0;
        while j < out.len() && out[j].pid <= x.pid
            invariant
                j <= out@.len(),
                forall|k: int| 0 <= k < j ==> (#[trigger] out@[k]).pid <= x.pid,
            decreases out@.len() - j,
        {
            j = j + 1;
        }
        let ghost before_out = out@;
        out.insert(j, x);
        assert(sorted_by_pid(out@)) by {
            assert forall|a: int, b: int| 0 <= a < b < out@.len() implies (#[trigger] out@[a]).pid
                <= (#[trigger] out@[b]).pid by {
                if b < j {
                    assert(out@[a] == before_out[a] && out@[b] == before_out[b]);
                } else if b == j {
                    assert(out@[a] == before_out[a]);
                } else if a < j {
                    assert(out@[a] == before_out[a] && out@[b] == before_out[b - 1]);
                } else if a == j {
                    assert(out@[b] == before_out[b - 1]);
                    assert(before_out[j as int].pid > x.pid);
                } else {
                    assert(out@[a] == before_out[a - 1] && out@[b] == before_out[b - 1]);
                }
            }
        }
        proof {
            vstd::seq_lib::to_multiset_remove(before_rest, 0);
            assert(before_rest[0] == x);
            vstd::seq_lib::to_multiset_contains(before_rest, x);
            vstd::seq_lib::to_multiset_insert(before_out, j as int, x);
        }
        assert(out@.to_multiset().add(rest@.to_multiset()) =~= all.to_multiset());
    }
    proof {
        vstd::seq_lib::to_multiset_len(rest@);
        vstd::multiset::lemma_multiset_empty_len(rest@.to_multiset());
    }
    assert(out@.to_multiset() =~= all.to_multiset());
    out
}

impl LogfileParser {
    /// Reads the log files `logs` (each a path and its lines) and orders the
    /// summaries by pid. The first file that cannot be read gives the error.
    pub fn parse(&self, logs: &Vec<(String, Vec<String>)>) -> (r: Result<
        Vec<LogfileSummary>,
        LogfileError,
    >)
        ensures
            match r {
                Ok(v) => sorted_by_pid(v@) && exists|p: Seq<LogfileSummary>|
                    #![trigger p.to_multiset()]
                    p.len() == logs@.len() && v@.to_multiset() == p.to_multiset() && forall|i: int|
                        0 <= i < logs@.len() ==> parse_log(
                            views(logs@[i].1@),
                            self.root_dir@,
                            logs@[i].0@,
                        ) == Ok::<LogView, LogfileError>(#[trigger] p[i]@),
                Err(e) => exists|i: int|
                    0 <= i < logs@.len() && parse_log(views(logs@[i].1@), self.root_dir@, logs@[i].0@)
                        == Err::<LogView, LogfileError>(e) && forall|j: int|
                        0 <= j < i ==> #[trigger] parse_log(
                            views(logs@[j].1@),
                            self.root_dir@,
                            logs@[j].0@,
                        ) is Ok,
            },
    {
        let mut parsed: Vec<LogfileSummary> = Vec::new();
        let mut i: usize = 0;
        while i < logs.len()
            invariant
                i <= logs@.len(),
                parsed@.len() == i,
                forall|k: int|
                    0 <= k < i ==> parse_log(views(logs@[k].1@), self.root_dir@, logs@[k].0@) == Ok::<
                        LogView,
                        LogfileError,
                    >(#[trigger] parsed@[k]@),
            decreases logs@.len() - i,
        {
            let (path, lines) = (&logs[i].0, &logs[i].1);
            match self.parse_single(path.as_str(), lines) {
                Ok(s) => parsed.push(s),
                Err(e) => {
                    assert forall|j: int| 0 <= j < i implies #[trigger] parse_log(
                        views(logs@[j].1@),
                        self.root_dir@,
                        logs@[j].0@,
                    ) is Ok by {
                        assert(parse_log(views(logs@[j].1@), self.root_dir@, logs@[j].0@) == Ok::<
                            LogView,
                            LogfileError,
                        >(parsed@[j]@));
                    }
                    return Err(e);
                },
            }
            i = i + 1;
        }
        let ghost p = parsed@;
        let sorted = sort_by_pid(parsed);
        assert(p.len() == logs@.len());
        Ok(sorted)
    }
}

} // verus!
