//! Where a benchmark's output files live, and how earlier outputs are rotated to
//! `.old` companions for comparison.
use vstd::prelude::*;
use vstd::string::{StrSliceExecFns, StringExecFns};
use crate::text::{ends_with, has_prefix, has_suffix, starts_with, views};
use crate::tool::{tool_id, ValgrindTool};

verus! {

/// A character that may not stand in a file name.
pub open spec fn is_illegal_char(c: char) -> bool {
    c == '/' || c == '?' || c == '<' || c == '>' || c == '\\' || c == ':' || c == '*' || c == '|'
        || c == '"'
}

/// A control character (C0 or C1).
pub open spec fn is_control_char(c: char) -> bool {
    c <= '\u{1f}' || ('\u{80}' <= c && c <= '\u{9f}')
}

/// `s` with each illegal or control character replaced by `_`.
pub open spec fn replace_unsafe(s: Seq<char>) -> Seq<char> {
    s.map_values(
        |c: char|
            if is_illegal_char(c) || is_control_char(c) {
                '_'
            } else {
                c
            },
    )
}

/// `s` is one or more dots.
pub open spec fn all_dots(s: Seq<char>) -> bool {
    s.len() > 0 && forall|i: int| 0 <= i < s.len() ==> s[i] == '.'
}

/// A name made safe for the file system: unsafe characters become `_`, and a name
/// of dots alone becomes `_`.
pub open spec fn sanitized(s: Seq<char>) -> Seq<char> {
    if all_dots(replace_unsafe(s)) {
        seq!['_']
    } else {
        replace_unsafe(s)
    }
}

/// One of Windows' reserved device names (`con`, `prn`, `aux`, `nul`, `com0`…`com9`,
/// `lpt0`…`lpt9`, in any case), alone or followed by `.` and more on one line.
pub open spec fn is_windows_reserved(s: Seq<char>) -> bool {
    let head3 = s.len() >= 3 && (ci3(s, 'c', 'o', 'n') || ci3(s, 'p', 'r', 'n') || ci3(
        s,
        'a',
        'u',
        'x',
    ) || ci3(s, 'n', 'u', 'l'));
    let head4 = s.len() >= 4 && (ci3(s, 'c', 'o', 'm') || ci3(s, 'l', 'p', 't'))
        && crate::text::is_ascii_digit(s[3]);
    let rest_ok = |k: int|
        k == s.len() || (s[k] == '.' && !s.subrange(k, s.len() as int).contains('\n'));
    (head3 && rest_ok(3)) || (head4 && rest_ok(4))
}

/// The first three characters of `s` are `a`, `b`, `c` in either ASCII case.
pub open spec fn ci3(s: Seq<char>, a: char, b: char, c: char) -> bool {
    ci_eq(s[0], a) && ci_eq(s[1], b) && ci_eq(s[2], c)
}

/// `x` is the lower-case letter `l` or its upper-case form.
pub open spec fn ci_eq(x: char, l: char) -> bool {
    x == l || x as u32 + 32 == l as u32
}

/// The length of the run of dots and spaces that ends `s`.
pub open spec fn trailing_dots_spaces(s: Seq<char>) -> nat
    decreases s.len(),
{
    if s.len() > 0 && (s.last() == '.' || s.last() == ' ') {
        1 + trailing_dots_spaces(s.drop_last())
    } else {
        0
    }
}

/// The Windows rules: a reserved device name becomes `_`, then a trailing run of
/// dots and spaces becomes `_`.
pub open spec fn windows_fixed(s: Seq<char>) -> Seq<char> {
    let r = if is_windows_reserved(s) {
        seq!['_']
    } else {
        s
    };
    let n = trailing_dots_spaces(r);
    if n > 0 {
        r.subrange(0, r.len() - n) + seq!['_']
    } else {
        r
    }
}

/// A name sanitized with or without the Windows rules, and cut to 255 bytes of
/// UTF-8 where `truncate` asks for it.
pub open spec fn sanitized_with(s: Seq<char>, windows: bool, truncate: bool) -> Seq<char> {
    let w = if windows {
        windows_fixed(sanitized(s))
    } else {
        sanitized(s)
    };
    if truncate {
        truncate_utf8(w, 255)
    } else {
        w
    }
}

/// Relies on `sanitize_filename::sanitize_with_options` with `_` as replacement: it
/// replaces each character of `[/?<>\\:*|"]` and of `[\x00-\x1f\x80-\x9f]` by `_`,
/// then a name of dots alone by `_`; with the Windows rules it then replaces a
/// reserved device name, and then a trailing run of dots and spaces, by `_`; with
/// truncation it cuts the name to the last character boundary within 255 bytes.
#[verifier::external_body]
pub(crate) fn sanitize_name(name: &str, windows: bool, truncate: bool) -> (r: String)
    ensures
        r@ == sanitized_with(name@, windows, truncate),
{
    sanitize_filename::sanitize_with_options(
        name,
        sanitize_filename::Options { windows, truncate, replacement: "_" },
    )
}

/// The length of a character in UTF-8.
pub open spec fn utf8_len(c: char) -> nat {
    if (c as u32) < 0x80 {
        1
    } else if (c as u32) < 0x800 {
        2
    } else if (c as u32) < 0x10000 {
        3
    } else {
        4
    }
}

/// How many leading characters of `s` fit into `max` bytes of UTF-8.
pub open spec fn fit_count(s: Seq<char>, max: nat) -> nat
    decreases s.len(),
{
    if s.len() > 0 && utf8_len(s[0]) <= max {
        1 + fit_count(s.drop_first(), (max - utf8_len(s[0])) as nat)
    } else {
        0
    }
}

/// The longest prefix of `s` whose UTF-8 encoding fits into `max` bytes.
pub open spec fn truncate_utf8(s: Seq<char>, max: nat) -> Seq<char> {
    s.subrange(0, fit_count(s, max) as int)
}

fn char_utf8_len(c: char) -> (r: usize)
    ensures
        r == utf8_len(c),
{
    if (c as u32) < 0x80 {
        1
    } else if (c as u32) < 0x800 {
        2
    } else if (c as u32) < 0x10000 {
        3
    } else {
        4
    }
}

/// The longest prefix of `s` whose UTF-8 encoding fits into `max` bytes.
pub fn truncate_str_utf8(s: &str, max: usize) -> (r: &str)
    ensures
        r@ == truncate_utf8(s@, max as nat),
{
    let n = s.unicode_len();
    let mut i: usize = 0;
    let mut used: usize = 0;
    assert(s@.subrange(0, n as int) =~= s@);
    while i < n && char_utf8_len(s.get_char(i)) <= max - used
        invariant
            n == s@.len(),
            i <= n,
            used <= max,
            fit_count(s@, max as nat) == i + fit_count(
                s@.subrange(i as int, n as int),
                (max - used) as nat,
            ),
        decreases n - i,
    {
        let ghost rest = s@.subrange(i as int, n as int);
        assert(rest.drop_first() =~= s@.subrange(i + 1, n as int));
        used = used + char_utf8_len(s.get_char(i));
        i = i + 1;
    }
    proof {
        let rest = s@.subrange(i as int, n as int);
        if i < n {
            assert(rest[0] == s@[i as int]);
        }
    }
    s.substring_char(0, i)
}

/// `b` appended to the directory `a`: with a `/` between them unless `a` is empty
/// or already ends with one.
pub open spec fn path_join(a: Seq<char>, b: Seq<char>) -> Seq<char> {
    if a.len() == 0 {
        b
    } else if a.last() == '/' {
        a + b
    } else {
        a + "/"@ + b
    }
}

/// A module path as a relative directory: each `::` becomes `/`.
pub open spec fn module_dir(m: Seq<char>) -> Seq<char>
    decreases m.len(),
{
    if m.len() >= 2 && m[0] == ':' && m[1] == ':' {
        seq!['/'] + module_dir(m.subrange(2, m.len() as int))
    } else if m.len() > 0 {
        seq![m[0]] + module_dir(m.drop_first())
    } else {
        seq![]
    }
}

/// `b` appended to the directory `a`, as `path_join` describes.
pub fn join_path(a: &str, b: &str) -> (r: String)
    ensures
        r@ == path_join(a@, b@),
{
    let n = a.unicode_len();
    let mut r = a.to_owned();
    if n == 0 {
        return b.to_owned();
    }
    if a.get_char(n - 1) != '/' {
        r.append("/");
    }
    r.append(b);
    r
}

fn module_to_dir(m: &str) -> (r: String)
    ensures
        r@ == module_dir(m@),
    decreases m@.len(),
{
    let n = m.unicode_len();
    if n >= 2 && m.get_char(0) == ':' && m.get_char(1) == ':' {
        let rest = module_to_dir(m.substring_char(2, n));
        proof {
            reveal_strlit("/");
        }
        let mut r = "/".to_owned();
        r.append(rest.as_str());
        assert(r@ =~= seq!['/'] + module_dir(m@.subrange(2, n as int)));
        r
    } else if n > 0 {
        let rest = module_to_dir(m.substring_char(1, n));
        let mut r = m.substring_char(0, 1).to_owned();
        r.append(rest.as_str());
        assert(m@.drop_first() =~= m@.subrange(1, n as int));
        assert(r@ =~= seq![m@[0]] + module_dir(m@.drop_first()));
        r
    } else {
        String::new()
    }
}

/// A valgrind tool's output file: `<dir>/<tool>.<name>.<extension>`.
#[derive(Debug, Clone)]
pub struct ToolOutputPath {
    pub tool: ValgrindTool,
    pub dir: String,
    pub extension: String,
    pub name: String,
}

/// Bytes left for a name in a file name of at most 255 bytes that also holds
/// `<tool>.` before it and `.out.old` after it.
pub open spec fn name_budget(tool: ValgrindTool) -> nat {
    (255 - tool_id(tool).len() - 1 - 8) as nat
}

/// The file name `<tool>.<name>.<extension>`.
pub open spec fn file_name_of(tool: ValgrindTool, name: Seq<char>, extension: Seq<char>) -> Seq<char> {
    tool_id(tool) + "."@ + name + "."@ + extension
}

/// The extension ends in a last extension `old` (in any case), as `Path::extension`
/// reads it.
pub open spec fn has_old_ext(e: Seq<char>) -> bool {
    e.len() >= 5 && e[e.len() - 5] != '/' && e[e.len() - 4] == '.' && (e[e.len() - 3] == 'o'
        || e[e.len() - 3] == 'O') && (e[e.len() - 2] == 'l' || e[e.len() - 2] == 'L') && (e[e.len()
        - 1] == 'd' || e[e.len() - 1] == 'D')
}

fn has_old_extension(e: &str) -> (r: bool)
    ensures
        r == has_old_ext(e@),
{
    let n = e.unicode_len();
    if n < 5 {
        return false;
    }
    let a = e.get_char(n - 5);
    let b = e.get_char(n - 4);
    let c = e.get_char(n - 3);
    let d = e.get_char(n - 2);
    let f = e.get_char(n - 1);
    a != '/' && b == '.' && (c == 'o' || c == 'O') && (d == 'l' || d == 'L') && (f == 'd' || f
        == 'D')
}

/// The renames that move a benchmark's earlier outputs aside.
#[derive(Debug, Clone)]
pub struct RotationPlan {
    /// Earlier `.old` files, removed first.
    pub removals: Vec<String>,
    /// Current outputs, each renamed to itself with `.old` appended.
    pub renames: Vec<(String, String)>,
}

/// The entries of `listing` that start with `p` and end with `.old`, in order.
pub open spec fn old_entries(listing: Seq<Seq<char>>, p: Seq<char>) -> Seq<Seq<char>>
    decreases listing.len(),
{
    if listing.len() == 0 {
        seq![]
    } else {
        let r = old_entries(listing.drop_last(), p);
        let e = listing.last();
        if has_prefix(e, p) && has_suffix(e, ".old"@) {
            r.push(e)
        } else {
            r
        }
    }
}

/// The entries of `listing` that start with `p` and do not end with `.old`, in order.
pub open spec fn current_entries(listing: Seq<Seq<char>>, p: Seq<char>) -> Seq<Seq<char>>
    decreases listing.len(),
{
    if listing.len() == 0 {
        seq![]
    } else {
        let r = current_entries(listing.drop_last(), p);
        let e = listing.last();
        if has_prefix(e, p) && !has_suffix(e, ".old"@) {
            r.push(e)
        } else {
            r
        }
    }
}

/// The entries of `listing` that start with `p` and whose extension is not `old`.
pub open spec fn real_entries(listing: Seq<Seq<char>>, p: Seq<char>) -> Seq<Seq<char>>
    decreases listing.len(),
{
    if listing.len() == 0 {
        seq![]
    } else {
        let r = real_entries(listing.drop_last(), p);
        let e = listing.last();
        if has_prefix(e, p) && !has_old_ext(e) {
            r.push(e)
        } else {
            r
        }
    }
}

impl ToolOutputPath {
    /// The output path of benchmark `name` in module `module` under `base_dir`. The
    /// directory is `base_dir` with the module's segments as subdirectories; the
    /// name is sanitized and cut to the bytes that a 255-byte file name leaves.
    pub fn new(tool: ValgrindTool, base_dir: &str, module: &str, name: &str) -> (r: ToolOutputPath)
        ensures
            r.tool == tool,
            r.dir@ == path_join(base_dir@, module_dir(module@)),
            r.extension@ == "out"@,
            r.name@ == truncate_utf8(sanitized_with(name@, false, false), name_budget(tool)),
    {
        let sanitized_name = sanitize_name(name, false, false);
        let id = tool.id();
        let id_len = id.as_str().unicode_len();
        assert(id_len <= 9) by {
            reveal_strlit("callgrind");
            reveal_strlit("memcheck");
            reveal_strlit("helgrind");
            reveal_strlit("drd");
            reveal_strlit("massif");
            reveal_strlit("dhat");
            reveal_strlit("exp-bbv");
        }
        let budget = 255 - id_len - 1 - 8;
        let truncated = truncate_str_utf8(sanitized_name.as_str(), budget).to_owned();
        let module_dirs = module_to_dir(module);
        ToolOutputPath {
            tool,
            dir: join_path(base_dir, module_dirs.as_str()),
            extension: "out".to_owned(),
            name: truncated,
        }
    }

    /// The output that the file `file_name` in directory `dir` holds, read from
    /// the file's name.
    pub fn from_existing(dir: &str, file_name: &str) -> (r: Result<ToolOutputPath, OutputNameError>)
        ensures
            match file_name_parts(file_name@) {
                None => r == Err::<ToolOutputPath, OutputNameError>(OutputNameError::IllegalFileName),
                Some((t, nm, e)) => match crate::tool::tool_of_id(t) {
                    None => r == Err::<ToolOutputPath, OutputNameError>(OutputNameError::UnknownTool),
                    Some(tool) => r matches Ok(p) && p.tool == tool && p.dir@ == dir@ && p.name@
                        == nm && p.extension@ == e,
                },
            },
    {
        if has_line_break(file_name) {
            return Err(OutputNameError::IllegalFileName);
        }
        let i = match first_dot_exec(file_name) {
            Some(i) => i,
            None => {
                return Err(OutputNameError::IllegalFileName);
            },
        };
        let q = match last_ext_dot_exec(file_name) {
            Some(q) => q,
            None => {
                return Err(OutputNameError::IllegalFileName);
            },
        };
        if i >= q {
            return Err(OutputNameError::IllegalFileName);
        }
        let n = file_name.unicode_len();
        let tool = match ValgrindTool::from_id(file_name.substring_char(0, i)) {
            Some(t) => t,
            None => {
                return Err(OutputNameError::UnknownTool);
            },
        };
        Ok(
            ToolOutputPath {
                tool,
                dir: dir.to_owned(),
                extension: file_name.substring_char(q + 1, n).to_owned(),
                name: file_name.substring_char(i + 1, q).to_owned(),
            },
        )
    }

    /// The file name `<tool>.<name>.<extension>`.
    pub fn file_name(&self) -> (r: String)
        ensures
            r@ == file_name_of(self.tool, self.name@, self.extension@),
    {
        let mut r = self.tool.id();
        r.append(".");
        r.append(self.name.as_str());
        r.append(".");
        r.append(self.extension.as_str());
        r
    }

    /// The full path `<dir>/<tool>.<name>.<extension>`.
    pub fn to_path(&self) -> (r: String)
        ensures
            r@ == path_join(self.dir@, file_name_of(self.tool, self.name@, self.extension@)),
    {
        let f = self.file_name();
        join_path(self.dir.as_str(), f.as_str())
    }

    /// The companion that holds the previous run: `.old` appended to the extension,
    /// unless it already ends in `old`.
    pub fn to_old_output(&self) -> (r: ToolOutputPath)
        ensures
            r.tool == self.tool,
            r.dir@ == self.dir@,
            r.name@ == self.name@,
            r.extension@ == if has_old_ext(self.extension@) {
                self.extension@
            } else {
                self.extension@ + ".old"@
            },
    {
        let mut extension = self.extension.clone();
        if !has_old_extension(self.extension.as_str()) {
            extension.append(".old");
        }
        ToolOutputPath {
            tool: self.tool,
            dir: self.dir.clone(),
            extension,
            name: self.name.clone(),
        }
    }

    /// The same output for another tool.
    pub fn to_tool_output(&self, tool: ValgrindTool) -> (r: ToolOutputPath)
        ensures
            r.tool == tool,
            r.dir@ == self.dir@,
            r.name@ == self.name@,
            r.extension@ == self.extension@,
    {
        ToolOutputPath {
            tool,
            dir: self.dir.clone(),
            extension: self.extension.clone(),
            name: self.name.clone(),
        }
    }

    /// The log file beside this output: extension `log`.
    pub fn to_log_output(&self) -> (r: ToolOutputPath)
        ensures
            r.tool == self.tool,
            r.dir@ == self.dir@,
            r.name@ == self.name@,
            r.extension@ == "log"@,
    {
        ToolOutputPath {
            tool: self.tool,
            dir: self.dir.clone(),
            extension: "log".to_owned(),
            name: self.name.clone(),
        }
    }

    /// Of the files in `listing` (full paths), those that belong to this output
    /// (start with its path) and are not `.old` companions.
    pub fn real_paths(&self, listing: &Vec<String>) -> (r: Vec<String>)
        ensures
            views(r@) == real_entries(
                views(listing@),
                path_join(self.dir@, file_name_of(self.tool, self.name@, self.extension@)),
            ),
    {
        let p = self.to_path();
        let ghost ls = views(listing@);
        let mut r: Vec<String> = Vec::new();
        let mut i: usize = 0;
        while i < listing.len()
            invariant
                i <= listing@.len(),
                ls == views(listing@),
                views(r@) == real_entries(ls.subrange(0, i as int), p@),
            decreases listing@.len() - i,
        {
            assert(ls.subrange(0, i + 1).drop_last() =~= ls.subrange(0, i as int));
            let e = listing[i].as_str();
            if starts_with(e, p.as_str()) && !has_old_extension(e) {
                let ghost before = r@;
                r.push(listing[i].clone());
                assert(views(r@) =~= views(before).push(ls[i as int]));
            }
            i = i + 1;
        }
        assert(ls.subrange(0, i as int) =~= ls);
        r
    }

    /// How to move the earlier outputs aside, given the files in the output's
    /// directory (full paths): first remove each file that starts with this path and
    /// ends with `.old`, then rename each other file that starts with it to the same
    /// name with `.old` appended.
    pub fn rotation_plan(&self, listing: &Vec<String>) -> (r: RotationPlan)
        ensures
            views(r.removals@) == old_entries(
                views(listing@),
                path_join(self.dir@, file_name_of(self.tool, self.name@, self.extension@)),
            ),
            r.renames@.len() == current_entries(
                views(listing@),
                path_join(self.dir@, file_name_of(self.tool, self.name@, self.extension@)),
            ).len(),
            forall|k: int|
                0 <= k < r.renames@.len() ==> (#[trigger] r.renames@[k]).0@ == current_entries(
                    views(listing@),
                    path_join(self.dir@, file_name_of(self.tool, self.name@, self.extension@)),
                )[k] && r.renames@[k].1@ == r.renames@[k].0@ + ".old"@,
    {
        let p = self.to_path();
        let ghost ls = views(listing@);
        let mut removals: Vec<String> = Vec::new();
        let mut renames: Vec<(String, String)> = Vec::new();
        let mut i: usize = 0;
        while i < listing.len()
            invariant
                i <= listing@.len(),
                ls == views(listing@),
                views(removals@) == old_entries(ls.subrange(0, i as int), p@),
                renames@.len() == current_entries(ls.subrange(0, i as int), p@).len(),
                forall|k: int|
                    0 <= k < renames@.len() ==> (#[trigger] renames@[k]).0@ == current_entries(
                        ls.subrange(0, i as int),
                        p@,
                    )[k] && renames@[k].1@ == renames@[k].0@ + ".old"@,
            decreases listing@.len() - i,
        {
            assert(ls.subrange(0, i + 1).drop_last() =~= ls.subrange(0, i as int));
            assert(ls.subrange(0, i + 1).last() == ls[i as int]);
            let e = listing[i].as_str();
            if starts_with(e, p.as_str()) {
                if ends_with(e, ".old") {
                    let ghost before = removals@;
                    removals.push(listing[i].clone());
                    assert(views(removals@) =~= views(before).push(ls[i as int]));
                } else {
                    let mut target = listing[i].clone();
                    target.append(".old");
                    renames.push((listing[i].clone(), target));
                }
            }
            i = i + 1;
        }
        assert(ls.subrange(0, i as int) =~= ls);
        RotationPlan { removals, renames }
    }
}

/// An output extension: `out`, or `out.` followed by more.
pub open spec fn is_out_ext(e: Seq<char>) -> bool {
    e == "out"@ || has_prefix(e, "out."@)
}

/// The last position of a `.` that an output extension follows.
pub open spec fn last_ext_dot(s: Seq<char>, end: int) -> Option<int>
    decreases end,
{
    if end <= 0 {
        None
    } else if s[end - 1] == '.' && is_out_ext(s.subrange(end, s.len() as int)) {
        Some(end - 1)
    } else {
        last_ext_dot(s, end - 1)
    }
}

/// The first position of a `.`.
pub open spec fn first_dot(s: Seq<char>) -> Option<int>
    decreases s.len(),
{
    if s.len() == 0 {
        None
    } else if s[0] == '.' {
        Some(0)
    } else {
        match first_dot(s.drop_first()) {
            Some(i) => Some(i + 1),
            None => None,
        }
    }
}

/// The parts of an output file name `<tool>.<name>.<extension>`: the tool runs to
/// the first `.`, the extension is the last `out` or `out.…` after a `.`, and the
/// name is what lies between. A name with a line break has no parts.
pub open spec fn file_name_parts(s: Seq<char>) -> Option<(Seq<char>, Seq<char>, Seq<char>)> {
    if s.contains('\n') {
        None
    } else {
        match (first_dot(s), last_ext_dot(s, s.len() as int)) {
            (Some(i), Some(q)) => if i < q {
                Some((s.subrange(0, i), s.subrange(i + 1, q), s.subrange(q + 1, s.len() as int)))
            } else {
                None
            },
            _ => None,
        }
    }
}

fn first_dot_exec(s: &str) -> (r: Option<usize>)
    ensures
        r is Some <==> first_dot(s@) is Some,
        r matches Some(i) ==> first_dot(s@) == Some(i as int) && i < s@.len(),
{
    let n = s.unicode_len();
    let mut i: usize = 0;
    assert(s@.subrange(0, n as int) =~= s@);
    while i < n
        invariant
            n == s@.len(),
            i <= n,
            first_dot(s@) == match first_dot(s@.subrange(i as int, n as int)) {
                Some(c) => Some(c + i),
                None => None,
            },
        decreases n - i,
    {
        let ghost rest = s@.subrange(i as int, n as int);
        assert(rest.drop_first() =~= s@.subrange(i + 1, n as int));
        if s.get_char(i) == '.' {
            return Some(i);
        }
        i = i + 1;
    }
    None
}

fn last_ext_dot_exec(s: &str) -> (r: Option<usize>)
    ensures
        r is Some <==> last_ext_dot(s@, s@.len() as int) is Some,
        r matches Some(q) ==> last_ext_dot(s@, s@.len() as int) == Some(q as int) && q < s@.len(),
{
    let n = s.unicode_len();
    let mut end: usize = n;
    while end > 0
        invariant
            n == s@.len(),
            end <= n,
            last_ext_dot(s@, n as int) == last_ext_dot(s@, end as int),
        decreases end,
    {
        if s.get_char(end - 1) == '.' {
            let e = s.substring_char(end, n);
            if crate::text::str_eq(e, "out") || starts_with(e, "out.") {
                return Some(end - 1);
            }
        }
        end = end - 1;
    }
    None
}

fn has_line_break(s: &str) -> (r: bool)
    ensures
        r == s@.contains('\n'),
{
    let n = s.unicode_len();
    let mut i: usize = 0;
    while i < n
        invariant
            n == s@.len(),
            i <= n,
            forall|j: int| 0 <= j < i ==> s@[j] != '\n',
        decreases n - i,
    {
        if s.get_char(i) == '\n' {
            return true;
        }
        i = i + 1;
    }
    false
}

/// Why a file name is not that of an output.
#[derive(Debug, Clone, Copy, PartialEq, Eq, Structural)]
pub enum OutputNameError {
    /// The name is not of the form `<tool>.<name>.out…`.
    IllegalFileName,
    /// The tool part names no known tool.
    UnknownTool,
}

/// A directory's files, by path, with their contents.
pub type Files = Map<Seq<char>, Seq<u8>>;

/// `fs` after removing each of `ks` in turn.
pub open spec fn apply_removals(fs: Files, ks: Seq<Seq<char>>) -> Files
    decreases ks.len(),
{
    if ks.len() == 0 {
        fs
    } else {
        apply_removals(fs, ks.drop_last()).remove(ks.last())
    }
}

/// `fs` after renaming each `(from, to)` of `pairs` in turn (a rename onto an
/// existing file replaces it; a missing source changes nothing).
pub open spec fn apply_renames(fs: Files, pairs: Seq<(Seq<char>, Seq<char>)>) -> Files
    decreases pairs.len(),
{
    if pairs.len() == 0 {
        fs
    } else {
        let prev = apply_renames(fs, pairs.drop_last());
        let (from, to) = pairs.last();
        if prev.contains_key(from) {
            prev.remove(from).insert(to, prev[from])
        } else {
            prev
        }
    }
}

/// The renames of a rotation: each current entry to itself with `.old` appended.
pub open spec fn rename_pairs(cur: Seq<Seq<char>>) -> Seq<(Seq<char>, Seq<char>)> {
    cur.map_values(|e: Seq<char>| (e, e + ".old"@))
}

/// The files after rotating the outputs at path `p`, `listing` being the directory.
pub open spec fn rotated(fs: Files, listing: Seq<Seq<char>>, p: Seq<char>) -> Files {
    apply_renames(
        apply_removals(fs, old_entries(listing, p)),
        rename_pairs(current_entries(listing, p)),
    )
}

proof fn lemma_contains_push(s: Seq<Seq<char>>, x: Seq<char>, k: Seq<char>)
    ensures
        s.push(x).contains(k) == (s.contains(k) || x == k),
{
    let t = s.push(x);
    if t.contains(k) {
        let i = choose|i: int| 0 <= i < t.len() && t[i] == k;
        if i < s.len() {
            assert(s[i] == k);
        }
    }
    if s.contains(k) {
        let i = choose|i: int| 0 <= i < s.len() && s[i] == k;
        assert(t[i] == k);
    }
    if x == k {
        assert(t[s.len() as int] == k);
    }
}

proof fn lemma_contains_drop_last(s: Seq<Seq<char>>, k: Seq<char>)
    requires
        s.len() > 0,
    ensures
        s.contains(k) == (s.drop_last().contains(k) || s.last() == k),
{
    assert(s =~= s.drop_last().push(s.last()));
    lemma_contains_push(s.drop_last(), s.last(), k);
}

proof fn lemma_removals(fs: Files, ks: Seq<Seq<char>>)
    ensures
        forall|k: Seq<char>|
            #![trigger apply_removals(fs, ks).contains_key(k)]
            apply_removals(fs, ks).contains_key(k) == (fs.contains_key(k) && !ks.contains(k)),
        forall|k: Seq<char>|
            #![trigger apply_removals(fs, ks)[k]]
            apply_removals(fs, ks).contains_key(k) ==> apply_removals(fs, ks)[k] == fs[k],
    decreases ks.len(),
{
    if ks.len() > 0 {
        let q = ks.drop_last();
        lemma_removals(fs, q);
        let r = apply_removals(fs, ks);
        assert(r == apply_removals(fs, q).remove(ks.last()));
        assert forall|k: Seq<char>| #[trigger] r.contains_key(k) == (fs.contains_key(k) && !ks.contains(k)) by {
            lemma_contains_drop_last(ks, k);
            assert(apply_removals(fs, q).contains_key(k) == (fs.contains_key(k) && !q.contains(k)));
        }
        assert forall|k: Seq<char>| r.contains_key(k) implies #[trigger] r[k] == fs[k] by {
            assert(apply_removals(fs, q).contains_key(k));
            assert(apply_removals(fs, q)[k] == fs[k]);
        }
    }
}

proof fn lemma_old_entries(listing: Seq<Seq<char>>, p: Seq<char>)
    ensures
        forall|k: Seq<char>|
            #![trigger old_entries(listing, p).contains(k)]
            old_entries(listing, p).contains(k) == (listing.contains(k) && has_prefix(k, p)
                && has_suffix(k, ".old"@)),
    decreases listing.len(),
{
    if listing.len() > 0 {
        let l = listing.drop_last();
        lemma_old_entries(l, p);
        let r = old_entries(l, p);
        assert forall|k: Seq<char>| #[trigger] old_entries(listing, p).contains(k) == (listing.contains(k)
            && has_prefix(k, p) && has_suffix(k, ".old"@)) by {
            lemma_contains_drop_last(listing, k);
            lemma_contains_push(r, listing.last(), k);
            assert(r.contains(k) == (l.contains(k) && has_prefix(k, p) && has_suffix(k, ".old"@)));
        }
    }
}

proof fn lemma_current_entries(listing: Seq<Seq<char>>, p: Seq<char>)
    requires
        listing.no_duplicates(),
    ensures
        forall|k: Seq<char>|
            #![trigger current_entries(listing, p).contains(k)]
            current_entries(listing, p).contains(k) == (listing.contains(k) && has_prefix(k, p)
                && !has_suffix(k, ".old"@)),
        current_entries(listing, p).no_duplicates(),
    decreases listing.len(),
{
    if listing.len() > 0 {
        let l = listing.drop_last();
        assert(l.no_duplicates()) by {
            assert forall|i: int, j: int| 0 <= i < l.len() && 0 <= j < l.len() && i != j implies l[i] != l[j] by {
                assert(l[i] == listing[i] && l[j] == listing[j]);
            }
        }
        lemma_current_entries(l, p);
        assert forall|k: Seq<char>| listing.contains(k) == (l.contains(k) || listing.last() == k) by {
            if listing.contains(k) {
                let i = choose|i: int| 0 <= i < listing.len() && listing[i] == k;
                if i < listing.len() - 1 {
                    assert(l[i] == k);
                }
            }
            if l.contains(k) {
                let i = choose|i: int| 0 <= i < l.len() && l[i] == k;
                assert(listing[i] == k);
            }
        }
        assert(!l.contains(listing.last())) by {
            if l.contains(listing.last()) {
                let i = choose|i: int| 0 <= i < l.len() && l[i] == listing.last();
                assert(listing[i] == listing[listing.len() - 1]);
            }
        }
        let r = current_entries(l, p);
        let rp = r.push(listing.last());
        assert forall|k: Seq<char>| rp.contains(k) == (r.contains(k) || listing.last() == k) by {
            if rp.contains(k) {
                let i = choose|i: int| 0 <= i < rp.len() && rp[i] == k;
                if i < r.len() {
                    assert(r[i] == k);
                }
            }
            if r.contains(k) {
                let i = choose|i: int| 0 <= i < r.len() && r[i] == k;
                assert(rp[i] == k);
            }
            if listing.last() == k {
                assert(rp[r.len() as int] == k);
            }
        }
        if has_prefix(listing.last(), p) && !has_suffix(listing.last(), ".old"@) {
            assert(!r.contains(listing.last()));
            assert forall|i: int, j: int| 0 <= i < rp.len() && 0 <= j < rp.len() && i != j implies rp[i] != rp[j] by {
                if i < r.len() && j < r.len() {
                } else if i < r.len() {
                    assert(rp[j] == listing.last());
                    assert(r.contains(rp[i]));
                } else {
                    assert(rp[i] == listing.last());
                    assert(r.contains(rp[j]));
                }
            }
        }
    }
}

/// The renames preserve what they do not touch, move each source to its target,
/// and leave no source behind, where sources exist, targets do not, and no path is
/// used twice.
proof fn lemma_renames(fs: Files, pairs: Seq<(Seq<char>, Seq<char>)>)
    requires
        forall|i: int| 0 <= i < pairs.len() ==> fs.contains_key(#[trigger] pairs[i].0),
        forall|i: int| 0 <= i < pairs.len() ==> !fs.contains_key(#[trigger] pairs[i].1),
        forall|i: int, j: int|
            0 <= i < pairs.len() && 0 <= j < pairs.len() && i != j ==> #[trigger] pairs[i].0
                != #[trigger] pairs[j].0 && pairs[i].1 != pairs[j].1,
        forall|i: int, j: int|
            0 <= i < pairs.len() && 0 <= j < pairs.len() ==> #[trigger] pairs[i].1
                != #[trigger] pairs[j].0,
    ensures
        forall|i: int|
            0 <= i < pairs.len() ==> !apply_renames(fs, pairs).contains_key(#[trigger] pairs[i].0),
        forall|i: int|
            0 <= i < pairs.len() ==> apply_renames(fs, pairs).contains_key(#[trigger] pairs[i].1)
                && apply_renames(fs, pairs)[pairs[i].1] == fs[pairs[i].0],
        forall|k: Seq<char>|
            (forall|i: int| 0 <= i < pairs.len() ==> #[trigger] pairs[i].0 != k && pairs[i].1 != k)
                ==> (#[trigger] apply_renames(fs, pairs).contains_key(k) == fs.contains_key(k) && (
            fs.contains_key(k) ==> apply_renames(fs, pairs)[k] == fs[k])),
    decreases pairs.len(),
{
    if pairs.len() > 0 {
        let q = pairs.drop_last();
        let n = pairs.len() - 1;
        assert forall|i: int| 0 <= i < q.len() implies q[i] == pairs[i] by {}
        lemma_renames(fs, q);
        let prev = apply_renames(fs, q);
        let (from, to) = pairs.last();
        assert(pairs.last() == pairs[n]);
        assert forall|i: int| 0 <= i < q.len() implies q[i].0 != from && q[i].1 != from by {
            assert(q[i] == pairs[i]);
        }
        assert(prev.contains_key(from));
        assert(prev[from] == fs[from]);
        assert forall|i: int| 0 <= i < q.len() implies q[i].0 != to && q[i].1 != to by {
            assert(q[i] == pairs[i]);
        }
        let next = apply_renames(fs, pairs);
        assert(next == prev.remove(from).insert(to, prev[from]));
        assert forall|i: int| 0 <= i < pairs.len() implies !next.contains_key(#[trigger] pairs[i].0) by {
            if i < n {
                assert(q[i] == pairs[i]);
            }
        }
        assert forall|i: int| 0 <= i < pairs.len() implies next.contains_key(#[trigger] pairs[i].1)
            && next[pairs[i].1] == fs[pairs[i].0] by {
            if i < n {
                assert(q[i] == pairs[i]);
            }
        }
        assert forall|k: Seq<char>|
            (forall|i: int| 0 <= i < pairs.len() ==> #[trigger] pairs[i].0 != k && pairs[i].1 != k)
                implies (#[trigger] next.contains_key(k) == fs.contains_key(k) && (fs.contains_key(k)
            ==> next[k] == fs[k])) by {
            assert(pairs[n].0 != k && pairs[n].1 != k);
            assert forall|i: int| 0 <= i < q.len() implies #[trigger] q[i].0 != k && q[i].1 != k by {
                assert(q[i] == pairs[i]);
            }
        }
    }
}

proof fn lemma_prefix_extends(e: Seq<char>, s: Seq<char>, p: Seq<char>)
    requires
        has_prefix(e, p),
    ensures
        has_prefix(e + s, p),
        has_suffix(e + s, s),
{
    assert((e + s).subrange(0, p.len() as int) =~= e.subrange(0, p.len() as int));
    assert((e + s).subrange((e + s).len() - s.len(), (e + s).len() as int) =~= s);
}

/// Rotating the outputs at `p` (which is not itself an `.old` file), where `listing`
/// lists the directory `fs` without repeats: afterwards `p` is gone, `p.old` holds
/// what `p` held (and exists exactly when `p` did), every file that starts with `p`
/// is the `.old` companion of a file that was there before and holds its contents,
/// and files that do not start with `p` are untouched.
pub proof fn lemma_rotation(fs: Files, listing: Seq<Seq<char>>, p: Seq<char>)
    requires
        listing.no_duplicates(),
        forall|k: Seq<char>| #[trigger] fs.contains_key(k) == listing.contains(k),
        !has_suffix(p, ".old"@),
    ensures
        !rotated(fs, listing, p).contains_key(p),
        rotated(fs, listing, p).contains_key(p + ".old"@) == fs.contains_key(p),
        fs.contains_key(p) ==> rotated(fs, listing, p)[p + ".old"@] == fs[p],
        forall|k: Seq<char>|
            #![trigger rotated(fs, listing, p).contains_key(k)]
            rotated(fs, listing, p).contains_key(k) && has_prefix(k, p) ==> exists|e: Seq<char>|
                fs.contains_key(e) && has_prefix(e, p) && !has_suffix(e, ".old"@) && k == e
                    + ".old"@ && rotated(fs, listing, p)[k] == #[trigger] fs[e],
        forall|k: Seq<char>|
            !has_prefix(k, p) ==> (#[trigger] rotated(fs, listing, p).contains_key(k)
                == fs.contains_key(k) && (fs.contains_key(k) ==> rotated(fs, listing, p)[k]
                == fs[k])),
{
    let olds = old_entries(listing, p);
    let cur = current_entries(listing, p);
    let pairs = rename_pairs(cur);
    let fs1 = apply_removals(fs, olds);
    let fs2 = rotated(fs, listing, p);
    lemma_removals(fs, olds);
    lemma_old_entries(listing, p);
    lemma_current_entries(listing, p);
    reveal_strlit(".old");
    assert forall|e: Seq<char>| has_prefix(e, p) implies has_prefix(e + ".old"@, p) && has_suffix(
        e + ".old"@,
        ".old"@,
    ) by {
        lemma_prefix_extends(e, ".old"@, p);
    }
    assert forall|i: int| 0 <= i < pairs.len() implies pairs[i].0 == cur[i] && pairs[i].1 == cur[i]
        + ".old"@ by {}
    assert forall|i: int| 0 <= i < cur.len() implies #[trigger] cur.contains(cur[i]) by {}
    assert forall|i: int| 0 <= i < pairs.len() implies fs1.contains_key(#[trigger] pairs[i].0) by {
        assert(cur.contains(cur[i]));
    }
    assert forall|i: int| 0 <= i < pairs.len() implies !fs1.contains_key(#[trigger] pairs[i].1) by {
        assert(cur.contains(cur[i]));
        let t = cur[i] + ".old"@;
        if fs.contains_key(t) {
            assert(olds.contains(t));
        }
    }
    assert forall|i: int, j: int|
        0 <= i < pairs.len() && 0 <= j < pairs.len() && i != j implies #[trigger] pairs[i].0
            != #[trigger] pairs[j].0 && pairs[i].1 != pairs[j].1 by {
        if pairs[i].1 == pairs[j].1 {
            assert(cur[i] =~= (cur[i] + ".old"@).subrange(0, cur[i].len() as int));
            assert(cur[j] =~= (cur[j] + ".old"@).subrange(0, cur[j].len() as int));
        }
    }
    assert forall|i: int, j: int| 0 <= i < pairs.len() && 0 <= j < pairs.len() implies #[trigger] pairs[i].1
        != #[trigger] pairs[j].0 by {
        assert(cur.contains(cur[i]));
        assert(cur.contains(cur[j]));
    }
    lemma_renames(fs1, pairs);
    assert(fs2 == apply_renames(fs1, pairs));
    // `p` itself.
    if fs.contains_key(p) {
        assert(has_prefix(p, p)) by {
            assert(p.subrange(0, p.len() as int) =~= p);
        }
        assert(cur.contains(p));
        let i = choose|i: int| 0 <= i < cur.len() && cur[i] == p;
        assert(pairs[i].0 == p);
        assert(!fs2.contains_key(p));
        assert(fs2.contains_key(pairs[i].1));
    } else {
        assert forall|i: int| 0 <= i < pairs.len() implies #[trigger] pairs[i].0 != p && pairs[i].1 != p by {
            assert(cur.contains(cur[i]));
        }
        assert(!fs2.contains_key(p));
        let t = p + ".old"@;
        assert(has_prefix(p, p)) by {
            assert(p.subrange(0, p.len() as int) =~= p);
        }
        assert forall|i: int| 0 <= i < pairs.len() implies #[trigger] pairs[i].0 != t && pairs[i].1 != t by {
            assert(cur.contains(cur[i]));
            if pairs[i].1 == t {
                assert(cur[i] =~= (cur[i] + ".old"@).subrange(0, cur[i].len() as int));
                assert(p =~= t.subrange(0, p.len() as int));
            }
        }
        if fs.contains_key(t) {
            assert(olds.contains(t));
        }
        assert(!fs2.contains_key(t));
    }
    // Files that start with `p`.
    assert forall|k: Seq<char>| fs2.contains_key(k) && has_prefix(k, p) implies exists|e: Seq<char>|
        fs.contains_key(e) && has_prefix(e, p) && !has_suffix(e, ".old"@) && k == e + ".old"@
            && fs2[k] == #[trigger] fs[e] by {
        if exists|i: int| 0 <= i < pairs.len() && #[trigger] pairs[i].1 == k {
            let i = choose|i: int| 0 <= i < pairs.len() && #[trigger] pairs[i].1 == k;
            assert(cur.contains(cur[i]));
            assert(fs2[k] == fs1[cur[i]]);
            assert(fs.contains_key(cur[i]) && fs2[k] == fs[cur[i]]);
        } else {
            if exists|i: int| 0 <= i < pairs.len() && #[trigger] pairs[i].0 == k {
                let i = choose|i: int| 0 <= i < pairs.len() && #[trigger] pairs[i].0 == k;
                assert(!fs2.contains_key(pairs[i].0));
            } else {
                assert forall|i: int| 0 <= i < pairs.len() implies #[trigger] pairs[i].0 != k
                    && pairs[i].1 != k by {}
                assert(fs1.contains_key(k));
                if has_suffix(k, ".old"@) {
                    assert(olds.contains(k));
                } else {
                    assert(cur.contains(k));
                    let i = choose|i: int| 0 <= i < cur.len() && cur[i] == k;
                    assert(pairs[i].0 == k);
                }
            }
        }
    }
    // Files that do not start with `p`.
    assert forall|k: Seq<char>| !has_prefix(k, p) implies (#[trigger] fs2.contains_key(k)
        == fs.contains_key(k) && (fs.contains_key(k) ==> fs2[k] == fs[k])) by {
        assert forall|i: int| 0 <= i < pairs.len() implies #[trigger] pairs[i].0 != k && pairs[i].1 != k by {
            assert(cur.contains(cur[i]));
        }
        assert(!olds.contains(k));
    }
}

/// A callgrind output file and its `.old` companion.
#[derive(Debug, Clone)]
pub struct CallgrindOutput {
    pub file: String,
}

impl CallgrindOutput {
    /// The callgrind output of benchmark `name` in module `module` under `base_dir`:
    /// `<base_dir>/<module dirs>/callgrind.<sanitized name>.out`.
    pub fn create(base_dir: &str, module: &str, name: &str) -> (r: CallgrindOutput)
        ensures
            r.file@ == path_join(
                    path_join(base_dir@, module_dir(module@)),
                    file_name_of(
                        ValgrindTool::Callgrind,
                        truncate_utf8(
                            sanitized_with(name@, false, false),
                            name_budget(ValgrindTool::Callgrind),
                        ),
                        "out"@,
                    ),
                ),
    {
        let p = ToolOutputPath::new(ValgrindTool::Callgrind, base_dir, module, name);
        CallgrindOutput { file: p.to_path() }
    }

    /// The companion that holds the previous run: `.old` appended.
    pub fn old_output(&self) -> (r: CallgrindOutput)
        ensures
            r.file@ == self.file@ + ".old"@,
    {
        let mut file = self.file.clone();
        file.append(".old");
        CallgrindOutput { file }
    }
}

} // verus!
