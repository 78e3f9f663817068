//! The arguments handed to callgrind: fixed cache geometry, collection toggles
//! and the output file, merged from defaults, the user's arguments and what the
//! runner injects.
use vstd::prelude::*;
use vstd::string::StringExecFns;
use crate::text::{has_prefix, starts_with, str_eq, views};

verus! {

/// A canonicalized set of callgrind arguments. Single-valued options are kept as
/// the whole argument (`--I1=32768,8,64`); toggles, pass-through options and the
/// output file likewise.
#[derive(Debug, Clone)]
pub struct CallgrindArgs {
    pub i1: String,
    pub d1: String,
    pub ll: String,
    pub collect_atstart: bool,
    pub compress_strings: String,
    pub compress_pos: String,
    pub toggle_collect: Vec<String>,
    pub other: Vec<String>,
    pub output_file: Option<String>,
}

/// The mathematical content of `CallgrindArgs`.
pub struct ArgsView {
    pub i1: Seq<char>,
    pub d1: Seq<char>,
    pub ll: Seq<char>,
    pub collect_atstart: bool,
    pub compress_strings: Seq<char>,
    pub compress_pos: Seq<char>,
    pub toggle_collect: Seq<Seq<char>>,
    pub other: Seq<Seq<char>>,
    pub output_file: Option<Seq<char>>,
}

impl View for CallgrindArgs {
    type V = ArgsView;

    open spec fn view(&self) -> ArgsView {
        ArgsView {
            i1: self.i1@,
            d1: self.d1@,
            ll: self.ll@,
            collect_atstart: self.collect_atstart,
            compress_strings: self.compress_strings@,
            compress_pos: self.compress_pos@,
            toggle_collect: views(self.toggle_collect@),
            other: views(self.other@),
            output_file: match self.output_file {
                Some(f) => Some(f@),
                None => None,
            },
        }
    }
}

/// The defaults: fixed cache sizes, collection off at start, no compression.
pub open spec fn default_args() -> ArgsView {
    ArgsView {
        i1: "--I1=32768,8,64"@,
        d1: "--D1=32768,8,64"@,
        ll: "--LL=8388608,16,64"@,
        collect_atstart: false,
        compress_strings: "--compress-strings=no"@,
        compress_pos: "--compress-pos=no"@,
        toggle_collect: seq![],
        other: seq![],
        output_file: None,
    }
}

/// Which option an argument sets: 0 to 8 for the recognized prefixes (in the
/// order they are tried), 9 for a pass-through argument.
pub open spec fn family(a: Seq<char>) -> int {
    if has_prefix(a, "--I1="@) {
        0
    } else if has_prefix(a, "--D1="@) {
        1
    } else if has_prefix(a, "--LL="@) {
        2
    } else if has_prefix(a, "--cache-sim="@) {
        3
    } else if has_prefix(a, "--collect-atstart="@) {
        4
    } else if has_prefix(a, "--compress-strings="@) {
        5
    } else if has_prefix(a, "--compress-pos="@) {
        6
    } else if has_prefix(a, "--toggle-collect="@) {
        7
    } else if has_prefix(a, "--callgrind-out-file="@) {
        8
    } else {
        9
    }
}

/// The effect of one user argument. `--cache-sim=` and `--callgrind-out-file=` are
/// the runner's own and are ignored.
pub open spec fn apply_arg(m: ArgsView, a: Seq<char>) -> ArgsView {
    let f = family(a);
    if f == 0 {
        ArgsView { i1: a, ..m }
    } else if f == 1 {
        ArgsView { d1: a, ..m }
    } else if f == 2 {
        ArgsView { ll: a, ..m }
    } else if f == 4 {
        ArgsView { collect_atstart: a == "--collect-atstart=yes"@, ..m }
    } else if f == 5 {
        ArgsView { compress_strings: a, ..m }
    } else if f == 6 {
        ArgsView { compress_pos: a, ..m }
    } else if f == 7 {
        ArgsView { toggle_collect: m.toggle_collect.push(a), ..m }
    } else if f == 9 {
        ArgsView { other: m.other.push(a), ..m }
    } else {
        m
    }
}

/// The arguments `args` applied in order to `m`.
pub open spec fn fold_args(m: ArgsView, args: Seq<Seq<char>>) -> ArgsView
    decreases args.len(),
{
    if args.len() == 0 {
        m
    } else {
        apply_arg(fold_args(m, args.drop_last()), args.last())
    }
}

/// `args` without a trailing `--bench`, which cargo appends to a benchmark's arguments.
pub open spec fn strip_bench(args: Seq<Seq<char>>) -> Seq<Seq<char>> {
    if args.len() > 0 && args.last() == "--bench"@ {
        args.drop_last()
    } else {
        args
    }
}

/// The whole arguments that `to_vec` emits, in order.
pub open spec fn argv_of(m: ArgsView) -> Seq<Seq<char>> {
    seq![
        m.i1,
        m.d1,
        m.ll,
        "--cache-sim=yes"@,
        if m.collect_atstart {
            "--collect-atstart=yes"@
        } else {
            "--collect-atstart=no"@
        },
        m.compress_strings,
        m.compress_pos,
    ] + m.other + match m.output_file {
        Some(f) => seq![f],
        None => seq![],
    } + m.toggle_collect
}

/// The last argument of `args` that belongs to family `f`.
pub open spec fn last_in_family(args: Seq<Seq<char>>, f: int) -> Option<Seq<char>>
    decreases args.len(),
{
    if args.len() == 0 {
        None
    } else if family(args.last()) == f {
        Some(args.last())
    } else {
        last_in_family(args.drop_last(), f)
    }
}

/// The arguments of `args` that belong to family `f`, in order.
pub open spec fn in_family(args: Seq<Seq<char>>, f: int) -> Seq<Seq<char>>
    decreases args.len(),
{
    if args.len() == 0 {
        seq![]
    } else if family(args.last()) == f {
        in_family(args.drop_last(), f).push(args.last())
    } else {
        in_family(args.drop_last(), f)
    }
}

/// `x`, or `d` where `x` is absent.
pub open spec fn or_else(x: Option<Seq<char>>, d: Seq<char>) -> Seq<char> {
    match x {
        Some(v) => v,
        None => d,
    }
}

/// Canonicalization depends on each option's own arguments only: a single-valued
/// option takes its last occurrence (or keeps its earlier value), `--toggle-collect=`
/// and pass-through arguments are all kept in their order, and the ignored options
/// change nothing.
pub proof fn lemma_canonical_by_family(m: ArgsView, args: Seq<Seq<char>>)
    ensures
        fold_args(m, args).i1 == or_else(last_in_family(args, 0), m.i1),
        fold_args(m, args).d1 == or_else(last_in_family(args, 1), m.d1),
        fold_args(m, args).ll == or_else(last_in_family(args, 2), m.ll),
        fold_args(m, args).collect_atstart == match last_in_family(args, 4) {
            Some(a) => a == "--collect-atstart=yes"@,
            None => m.collect_atstart,
        },
        fold_args(m, args).compress_strings == or_else(last_in_family(args, 5), m.compress_strings),
        fold_args(m, args).compress_pos == or_else(last_in_family(args, 6), m.compress_pos),
        fold_args(m, args).toggle_collect == m.toggle_collect + in_family(args, 7),
        fold_args(m, args).other == m.other + in_family(args, 9),
        fold_args(m, args).output_file == m.output_file,
    decreases args.len(),
{
    if args.len() == 0 {
        assert(m.toggle_collect + in_family(args, 7) =~= m.toggle_collect);
        assert(m.other + in_family(args, 9) =~= m.other);
    } else {
        let p = args.drop_last();
        lemma_canonical_by_family(m, p);
        assert(m.toggle_collect + in_family(p, 7).push(args.last()) =~= (m.toggle_collect
            + in_family(p, 7)).push(args.last()));
        assert(m.other + in_family(p, 9).push(args.last()) =~= (m.other + in_family(p,
            9)).push(args.last()));
    }
}

proof fn lemma_fold_append(m: ArgsView, x: Seq<Seq<char>>, y: Seq<Seq<char>>)
    ensures
        fold_args(m, x + y) == fold_args(fold_args(m, x), y),
    decreases y.len(),
{
    if y.len() == 0 {
        assert(x + y =~= x);
    } else {
        assert((x + y).drop_last() =~= x + y.drop_last());
        lemma_fold_append(m, x, y.drop_last());
    }
}

/// Two neighbouring arguments for different options can trade places without
/// changing the result.
pub proof fn lemma_swap_different_options(
    m: ArgsView,
    before: Seq<Seq<char>>,
    a: Seq<char>,
    b: Seq<char>,
    after: Seq<Seq<char>>,
)
    requires
        family(a) != family(b),
    ensures
        fold_args(m, before + seq![a, b] + after) == fold_args(m, before + seq![b, a] + after),
{
    lemma_fold_append(m, before + seq![a, b], after);
    lemma_fold_append(m, before + seq![b, a], after);
    lemma_fold_append(m, before, seq![a, b]);
    lemma_fold_append(m, before, seq![b, a]);
    let s = fold_args(m, before);
    assert(seq![a, b].drop_last() =~= seq![a]);
    assert(seq![b, a].drop_last() =~= seq![b]);
    assert(seq![a].drop_last() =~= Seq::<Seq<char>>::empty());
    assert(seq![b].drop_last() =~= Seq::<Seq<char>>::empty());
    assert(fold_args(s, Seq::<Seq<char>>::empty()) == s);
    assert(seq![a].last() == a);
    assert(seq![b].last() == b);
    assert(seq![a, b].last() == b);
    assert(seq![b, a].last() == a);
    assert(fold_args(s, seq![a]) == apply_arg(s, a));
    assert(fold_args(s, seq![b]) == apply_arg(s, b));
    assert(fold_args(s, seq![a, b]) == apply_arg(apply_arg(s, a), b));
    assert(fold_args(s, seq![b, a]) == apply_arg(apply_arg(s, b), a));
}

fn family_of(a: &str) -> (r: u8)
    ensures
        r as int == family(a@),
{
    if starts_with(a, "--I1=") {
        0
    } else if starts_with(a, "--D1=") {
        1
    } else if starts_with(a, "--LL=") {
        2
    } else if starts_with(a, "--cache-sim=") {
        3
    } else if starts_with(a, "--collect-atstart=") {
        4
    } else if starts_with(a, "--compress-strings=") {
        5
    } else if starts_with(a, "--compress-pos=") {
        6
    } else if starts_with(a, "--toggle-collect=") {
        7
    } else if starts_with(a, "--callgrind-out-file=") {
        8
    } else {
        9
    }
}

/// Whether the runner ignores this user argument (`--cache-sim=`,
/// `--callgrind-out-file=`): it controls both itself.
pub fn is_ignored_arg(a: &str) -> (r: bool)
    ensures
        r == (family(a@) == 3 || family(a@) == 8),
{
    let f = family_of(a);
    f == 3 || f == 8
}

/// The toggle pattern that matches a benchmark function: `*module::function`.
pub fn function_toggle_pattern(module: &str, function: &str) -> (r: String)
    ensures
        r@ == "*"@ + module@ + "::"@ + function@,
{
    let mut s = "*".to_owned();
    s.append(module);
    s.append("::");
    s.append(function);
    s
}

fn clone_strings(v: &Vec<String>) -> (r: Vec<String>)
    ensures
        views(r@) == views(v@),
{
    let mut r: Vec<String> = Vec::new();
    let mut i: usize = 0;
    while i < v.len()
        invariant
            i <= v@.len(),
            views(r@) == views(v@).subrange(0, i as int),
        decreases v@.len() - i,
    {
        let ghost before = r@;
        let c = v[i].clone();
        r.push(c);
        assert(views(r@) =~= views(before).push(v@[i as int]@));
        i = i + 1;
        assert(views(r@) =~= views(v@).subrange(0, i as int));
    }
    assert(views(v@).subrange(0, i as int) =~= views(v@));
    r
}

impl CallgrindArgs {
    /// The default arguments.
    pub fn defaults() -> (r: CallgrindArgs)
        ensures
            r@ == default_args(),
    {
        let r = CallgrindArgs {
            i1: "--I1=32768,8,64".to_owned(),
            d1: "--D1=32768,8,64".to_owned(),
            ll: "--LL=8388608,16,64".to_owned(),
            collect_atstart: false,
            compress_strings: "--compress-strings=no".to_owned(),
            compress_pos: "--compress-pos=no".to_owned(),
            toggle_collect: Vec::new(),
            other: Vec::new(),
            output_file: None,
        };
        assert(r@.toggle_collect =~= seq![]);
        assert(r@.other =~= seq![]);
        r
    }

    /// Applies one user argument.
    fn apply(&mut self, a: &String)
        ensures
            final(self)@ == apply_arg(old(self)@, a@),
    {
        let f = family_of(a.as_str());
        if f == 0 {
            self.i1 = a.clone();
        } else if f == 1 {
            self.d1 = a.clone();
        } else if f == 2 {
            self.ll = a.clone();
        } else if f == 4 {
            self.collect_atstart = str_eq(a.as_str(), "--collect-atstart=yes");
        } else if f == 5 {
            self.compress_strings = a.clone();
        } else if f == 6 {
            self.compress_pos = a.clone();
        } else if f == 7 {
            let ghost before = self.toggle_collect@;
            self.toggle_collect.push(a.clone());
            assert(views(self.toggle_collect@) =~= views(before).push(a@));
        } else if f == 9 {
            let ghost before = self.other@;
            self.other.push(a.clone());
            assert(views(self.other@) =~= views(before).push(a@));
        }
    }

    /// The defaults with the user's arguments applied in order: a recognized
    /// single-valued option replaces the default (the last one wins), each
    /// `--toggle-collect=` is kept, `--cache-sim=` and `--callgrind-out-file=` are
    /// ignored, anything else passes through. A trailing `--bench` is dropped.
    pub fn from_args(args: &Vec<String>) -> (r: CallgrindArgs)
        ensures
            r@ == fold_args(default_args(), strip_bench(views(args@))),
    {
        let ghost all = views(args@);
        let mut n = args.len();
        if n > 0 && str_eq(args[n - 1].as_str(), "--bench") {
            n = n - 1;
        }
        let ghost used = strip_bench(all);
        assert(used =~= all.subrange(0, n as int));
        let mut r = Self::defaults();
        let mut i: usize = 0;
        while i < n
            invariant
                n <= args@.len(),
                i <= n,
                all == views(args@),
                used == all.subrange(0, n as int),
                r@ == fold_args(default_args(), used.subrange(0, i as int)),
            decreases n - i,
        {
            assert(used.subrange(0, i + 1).drop_last() =~= used.subrange(0, i as int));
            r.apply(&args[i]);
            i = i + 1;
        }
        assert(used.subrange(0, n as int) =~= used);
        r
    }

    /// Puts `--toggle-collect=<pattern>` first among the toggles.
    pub fn insert_toggle_collect(&mut self, pattern: &str)
        ensures
            final(self)@ == (ArgsView {
                toggle_collect: seq!["--toggle-collect="@ + pattern@] + old(self)@.toggle_collect,
                ..old(self)@
            }),
    {
        let mut t = "--toggle-collect=".to_owned();
        t.append(pattern);
        let ghost before = self.toggle_collect@;
        let ghost tv = t@;
        self.toggle_collect.insert(0, t);
        assert(views(self.toggle_collect@) =~= seq![tv] + views(before));
    }

    /// Sets `--callgrind-out-file=<path>`, replacing an earlier one.
    pub fn set_output_file(&mut self, path: &str)
        ensures
            final(self)@ == (ArgsView {
                output_file: Some("--callgrind-out-file="@ + path@),
                ..old(self)@
            }),
    {
        let mut f = "--callgrind-out-file=".to_owned();
        f.append(path);
        self.output_file = Some(f);
    }

    /// Configures where collection starts. With an entry point, collection is off
    /// at start and the entry point's pattern is the first toggle; without one,
    /// collection is on from the start and the toggles stay as they are.
    pub fn configure_collection(&mut self, entry_point: Option<&str>)
        ensures
            final(self)@ == (match entry_point {
                Some(e) => ArgsView {
                    collect_atstart: false,
                    toggle_collect: seq!["--toggle-collect="@ + e@] + old(self)@.toggle_collect,
                    ..old(self)@
                },
                None => ArgsView { collect_atstart: true, ..old(self)@ },
            }),
    {
        match entry_point {
            Some(e) => {
                self.collect_atstart = false;
                self.insert_toggle_collect(e);
            },
            None => {
                self.collect_atstart = true;
            },
        }
    }

    /// The argument list for benchmarking `module::function_name` into
    /// `output_file`: the function's toggle goes first among the toggles.
    pub fn parse_with(&self, output_file: &str, module: &str, function_name: &str) -> (r: Vec<
        String,
    >)
        ensures
            views(r@) == argv_of(
                ArgsView {
                    toggle_collect: seq!["--toggle-collect="@ + ("*"@ + module@ + "::"@ + function_name@)]
                        + self@.toggle_collect,
                    output_file: Some("--callgrind-out-file="@ + output_file@),
                    ..self@
                },
            ),
    {
        let mut args = self.clone_args();
        args.set_output_file(output_file);
        let pattern = function_toggle_pattern(module, function_name);
        args.insert_toggle_collect(pattern.as_str());
        args.to_vec()
    }

    /// A copy of these arguments.
    pub fn clone_args(&self) -> (r: CallgrindArgs)
        ensures
            r@ == self@,
    {
        let r = CallgrindArgs {
            i1: self.i1.clone(),
            d1: self.d1.clone(),
            ll: self.ll.clone(),
            collect_atstart: self.collect_atstart,
            compress_strings: self.compress_strings.clone(),
            compress_pos: self.compress_pos.clone(),
            toggle_collect: clone_strings(&self.toggle_collect),
            other: clone_strings(&self.other),
            output_file: match &self.output_file {
                Some(f) => Some(f.clone()),
                None => None,
            },
        };
        r
    }

    /// The final argument list: cache sizes, `--cache-sim=yes`, the collection
    /// start, the compression options, the pass-through options, the output file,
    /// then the toggles.
    pub fn to_vec(&self) -> (r: Vec<String>)
        ensures
            views(r@) == argv_of(self@),
    {
        let mut v: Vec<String> = Vec::new();
        v.push(self.i1.clone());
        v.push(self.d1.clone());
        v.push(self.ll.clone());
        v.push("--cache-sim=yes".to_owned());
        if self.collect_atstart {
            v.push("--collect-atstart=yes".to_owned());
        } else {
            v.push("--collect-atstart=no".to_owned());
        }
        v.push(self.compress_strings.clone());
        v.push(self.compress_pos.clone());
        let ghost head = views(v@);
        let mut i: usize = 0;
        while i < self.other.len()
            invariant
                i <= self.other@.len(),
                views(v@) == head + views(self.other@).subrange(0, i as int),
            decreases self.other@.len() - i,
        {
            let ghost old_v = v@;
            let c = self.other[i].clone();
            assert(c@ == self.other@[i as int]@);
            v.push(c);
            assert(views(v@) =~= views(old_v).push(self.other@[i as int]@));
            i = i + 1;
            assert(views(v@) =~= head + views(self.other@).subrange(0, i as int));
        }
        assert(views(self.other@).subrange(0, i as int) =~= views(self.other@));
        let ghost mid = views(v@);
        match &self.output_file {
            Some(f) => {
                v.push(f.clone());
                assert(views(v@) =~= mid + seq![f@]);
            },
            None => {
                assert(views(v@) =~= mid + Seq::<Seq<char>>::empty());
            },
        }
        let ghost head2 = views(v@);
        let mut j: usize = 0;
        while j < self.toggle_collect.len()
            invariant
                j <= self.toggle_collect@.len(),
                views(v@) == head2 + views(self.toggle_collect@).subrange(0, j as int),
            decreases self.toggle_collect@.len() - j,
        {
            let ghost old_v = v@;
            let c = self.toggle_collect[j].clone();
            assert(c@ == self.toggle_collect@[j as int]@);
            v.push(c);
            assert(views(v@) =~= views(old_v).push(self.toggle_collect@[j as int]@));
            j = j + 1;
            assert(views(v@) =~= head2 + views(self.toggle_collect@).subrange(0, j as int));
        }
        assert(views(self.toggle_collect@).subrange(0, j as int) =~= views(self.toggle_collect@));
        assert(views(v@) =~= argv_of(self@));
        v
    }
}

} // verus!
