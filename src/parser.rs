//! Reading costs out of callgrind's text output.
//!
//! The callgrind parser isolates the costs of the functions called from a named
//! function (the sentinel): it finds the sentinel's `fn=` record, skips the
//! sentinel's own cost lines and sums the cost lines that follow each
//! `cfn=` / `calls=` pair. The summary parser reads the whole-process
//! `summary:` or `totals:` line.
use vstd::prelude::*;
use vstd::string::StrSliceExecFns;
use crate::events::{
    add_row, canonical_kinds, kinds_from_names, kinds_of_names, zero_costs, Costs, CostsError,
    Event, EventType,
};
use crate::positions::{position_columns, positions_of_line, PositionsMode};
use crate::sentinel::Sentinel;
use crate::text::{
    contains, has_infix, has_prefix, is_ascii_digit, split_ascii_ws, starts_with, tokens,
    trim, trim_start, trim_start_str, trim_str, views,
};

verus! {

/// Where the callgrind parser stands within a record.
#[derive(Debug, Clone, Copy, PartialEq, Eq, Structural)]
pub enum ParserState {
    /// Looking for the sentinel's `fn=` line.
    Scan,
    /// In the sentinel's record, whose own cost lines are skipped.
    InFn,
    /// After a `cfn=` line, expecting its `calls=` line.
    SawCfn,
    /// Summing the cost lines of a callee.
    Counting,
}

/// Why an output file could not be read.
#[derive(Debug, Clone, Copy, PartialEq, Eq, Structural)]
pub enum ParseError {
    /// The file holds no line but blank ones.
    EmptyFile,
    /// The `events:` line names an event kind that is not known.
    UnknownEvent,
    /// A counter is not a decimal number that fits in `u64`.
    InvalidNumber,
    /// A sum of counters does not fit in `u64`.
    Overflow,
}

/// The costs read from an output file.
#[derive(Debug, Clone)]
pub struct ParsedCosts {
    pub costs: Costs,
    /// The first line that is not blank names the callgrind format. Where it does
    /// not, the file is still read, as if it did.
    pub has_format_header: bool,
}

/// A cost line starts with a digit.
pub open spec fn is_cost_line(t: Seq<char>) -> bool {
    t.len() > 0 && is_ascii_digit(t[0])
}

/// The state after a line `t` (its leading whitespace removed), where `fn_line` is
/// the sentinel's `fn=` line.
pub open spec fn next_state(st: ParserState, t: Seq<char>, fn_line: Seq<char>) -> ParserState {
    if t.len() == 0 {
        ParserState::Scan
    } else {
        match st {
            ParserState::Scan => if has_prefix(t, fn_line) {
                ParserState::InFn
            } else {
                ParserState::Scan
            },
            ParserState::InFn => if has_prefix(t, "cfn="@) {
                ParserState::SawCfn
            } else {
                ParserState::InFn
            },
            ParserState::SawCfn => if has_prefix(t, "calls="@) {
                ParserState::Counting
            } else if is_cost_line(t) || has_prefix(t, "cfn="@) {
                ParserState::SawCfn
            } else {
                ParserState::InFn
            },
            ParserState::Counting => if is_cost_line(t) {
                ParserState::Counting
            } else if has_prefix(t, "cfn="@) {
                ParserState::SawCfn
            } else {
                ParserState::InFn
            },
        }
    }
}

/// The counters of a cost line: its tokens after the `skip` position columns.
pub open spec fn row_values(t: Seq<char>, skip: nat) -> Seq<Seq<char>> {
    let ts = tokens(t);
    if skip <= ts.len() {
        ts.subrange(skip as int, ts.len() as int)
    } else {
        seq![]
    }
}

/// One line of input: the next state and the counters, where a cost line read in
/// the `Counting` state is added.
pub open spec fn step(
    acc: (ParserState, Result<Seq<Event>, CostsError>),
    line: Seq<char>,
    fn_line: Seq<char>,
    skip: nat,
) -> (ParserState, Result<Seq<Event>, CostsError>) {
    let t = trim_start(line);
    let costs = match acc.1 {
        Ok(c) => if acc.0 == ParserState::Counting && is_cost_line(t) {
            add_row(c, row_values(t, skip))
        } else {
            Ok(c)
        },
        Err(e) => Err(e),
    };
    (next_state(acc.0, t, fn_line), costs)
}

/// The parser's state and counters after reading `lines`, starting from `init`.
pub open spec fn run(lines: Seq<Seq<char>>, fn_line: Seq<char>, skip: nat, init: Seq<Event>) -> (
    ParserState,
    Result<Seq<Event>, CostsError>,
)
    decreases lines.len(),
{
    if lines.len() == 0 {
        (ParserState::Scan, Ok(init))
    } else {
        step(run(lines.drop_last(), fn_line, skip, init), lines.last(), fn_line, skip)
    }
}

/// The first line that is not blank.
pub open spec fn first_nonblank(lines: Seq<Seq<char>>) -> Option<Seq<char>>
    decreases lines.len(),
{
    if lines.len() == 0 {
        None
    } else if trim(lines[0]).len() > 0 {
        Some(lines[0])
    } else {
        first_nonblank(lines.drop_first())
    }
}

/// The mode of the first `positions:` line.
pub open spec fn first_mode(lines: Seq<Seq<char>>) -> Option<PositionsMode>
    decreases lines.len(),
{
    if lines.len() == 0 {
        None
    } else if positions_of_line(lines[0]) is Some {
        positions_of_line(lines[0])
    } else {
        first_mode(lines.drop_first())
    }
}

/// The positions mode of a file: that of its first `positions:` line, else `line`.
pub open spec fn header_mode(lines: Seq<Seq<char>>) -> PositionsMode {
    match first_mode(lines) {
        Some(m) => m,
        None => PositionsMode::Line,
    }
}

/// What follows `events:` on the first line that declares the events.
pub open spec fn first_events(lines: Seq<Seq<char>>) -> Option<Seq<char>>
    decreases lines.len(),
{
    if lines.len() == 0 {
        None
    } else if has_prefix(trim_start(lines[0]), "events:"@) {
        let t = trim_start(lines[0]);
        Some(t.subrange("events:"@.len() as int, t.len() as int))
    } else {
        first_events(lines.drop_first())
    }
}

/// The event kinds of a file: those of its `events:` line, else the nine of a
/// cache simulation. `None` where the line names an unknown kind.
pub open spec fn header_kinds(lines: Seq<Seq<char>>) -> Option<Seq<EventType>> {
    match first_events(lines) {
        Some(rest) => kinds_of_names(tokens(rest)),
        None => Some(canonical_kinds()),
    }
}

/// The parse error for an error in adding a row of counters.
pub open spec fn parse_error_of(e: CostsError) -> ParseError {
    match e {
        CostsError::InvalidNumber => ParseError::InvalidNumber,
        CostsError::Overflow => ParseError::Overflow,
    }
}

/// What the callgrind parser makes of `lines` for the sentinel `sentinel`: the
/// summed costs of the sentinel's callees, and whether the format is named.
pub open spec fn callgrind_costs(lines: Seq<Seq<char>>, sentinel: Seq<char>) -> Result<
    (Seq<Event>, bool),
    ParseError,
> {
    match first_nonblank(lines) {
        None => Err(ParseError::EmptyFile),
        Some(first) => match header_kinds(lines) {
            None => Err(ParseError::UnknownEvent),
            Some(kinds) => match run(
                lines,
                "fn="@ + sentinel,
                position_columns(header_mode(lines)),
                zero_costs(kinds),
            ).1 {
                Ok(c) => Ok((c, has_infix(first, "callgrind format"@))),
                Err(e) => Err(parse_error_of(e)),
            },
        },
    }
}

fn is_blank(line: &str) -> (r: bool)
    ensures
        r == (trim(line@).len() == 0),
{
    trim_str(line).unicode_len() == 0
}

fn find_first_nonblank(lines: &Vec<String>) -> (r: Option<usize>)
    ensures
        match r {
            Some(i) => i < lines@.len() && first_nonblank(views(lines@)) == Some(lines@[i as int]@),
            None => first_nonblank(views(lines@)) is None,
        },
{
    let ghost ls = views(lines@);
    let mut i: usize = 0;
    assert(ls.subrange(0, ls.len() as int) =~= ls);
    while i < lines.len()
        invariant
            ls == views(lines@),
            i <= lines@.len(),
            first_nonblank(ls) == first_nonblank(ls.subrange(i as int, ls.len() as int)),
        decreases lines@.len() - i,
    {
        let ghost rest = ls.subrange(i as int, ls.len() as int);
        assert(rest.drop_first() =~= ls.subrange(i + 1, ls.len() as int));
        assert(rest[0] == lines@[i as int]@);
        if !is_blank(lines[i].as_str()) {
            return Some(i);
        }
        i = i + 1;
    }
    None
}

fn find_mode(lines: &Vec<String>) -> (r: PositionsMode)
    ensures
        r == header_mode(views(lines@)),
{
    let ghost ls = views(lines@);
    let mut i: usize = 0;
    assert(ls.subrange(0, ls.len() as int) =~= ls);
    while i < lines.len()
        invariant
            ls == views(lines@),
            i <= lines@.len(),
            first_mode(ls) == first_mode(ls.subrange(i as int, ls.len() as int)),
        decreases lines@.len() - i,
    {
        let ghost rest = ls.subrange(i as int, ls.len() as int);
        assert(rest.drop_first() =~= ls.subrange(i + 1, ls.len() as int));
        assert(rest[0] == lines@[i as int]@);
        if let Some(m) = PositionsMode::from_positions_line(lines[i].as_str()) {
            return m;
        }
        i = i + 1;
    }
    PositionsMode::Line
}

fn find_kinds(lines: &Vec<String>) -> (r: Option<Vec<EventType>>)
    ensures
        match r {
            Some(k) => header_kinds(views(lines@)) == Some(k@),
            None => header_kinds(views(lines@)) is None,
        },
{
    let ghost ls = views(lines@);
    let mut i: usize = 0;
    assert(ls.subrange(0, ls.len() as int) =~= ls);
    while i < lines.len()
        invariant
            ls == views(lines@),
            i <= lines@.len(),
            first_events(ls) == first_events(ls.subrange(i as int, ls.len() as int)),
        decreases lines@.len() - i,
    {
        let ghost rest = ls.subrange(i as int, ls.len() as int);
        assert(rest.drop_first() =~= ls.subrange(i + 1, ls.len() as int));
        assert(rest[0] == lines@[i as int]@);
        let t = trim_start_str(lines[i].as_str());
        let p = "events:";
        if starts_with(t, p) {
            let decl = t.substring_char(p.unicode_len(), t.unicode_len());
            let names = split_ascii_ws(decl);
            return kinds_from_names(&names);
        }
        i = i + 1;
    }
    let kinds = vec![
        EventType::Ir,
        EventType::Dr,
        EventType::Dw,
        EventType::I1mr,
        EventType::D1mr,
        EventType::D1mw,
        EventType::ILmr,
        EventType::DLmr,
        EventType::DLmw,
    ];
    assert(kinds@ =~= canonical_kinds());
    Some(kinds)
}

fn is_cost_line_str(t: &str) -> (r: bool)
    ensures
        r == is_cost_line(t@),
{
    if t.unicode_len() == 0 {
        false
    } else {
        let c = t.get_char(0);
        '0' <= c && c <= '9'
    }
}

fn next_state_exec(st: ParserState, t: &str, fn_line: &str) -> (r: ParserState)
    ensures
        r == next_state(st, t@, fn_line@),
{
    if t.unicode_len() == 0 {
        return ParserState::Scan;
    }
    match st {
        ParserState::Scan => if starts_with(t, fn_line) {
            ParserState::InFn
        } else {
            ParserState::Scan
        },
        ParserState::InFn => if starts_with(t, "cfn=") {
            ParserState::SawCfn
        } else {
            ParserState::InFn
        },
        ParserState::SawCfn => if starts_with(t, "calls=") {
            ParserState::Counting
        } else if is_cost_line_str(t) || starts_with(t, "cfn=") {
            ParserState::SawCfn
        } else {
            ParserState::InFn
        },
        ParserState::Counting => if is_cost_line_str(t) {
            ParserState::Counting
        } else if starts_with(t, "cfn=") {
            ParserState::SawCfn
        } else {
            ParserState::InFn
        },
    }
}

/// The counters of the cost line `t`: its tokens after `skip` position columns.
fn cost_row(t: &str, skip: usize) -> (r: Vec<String>)
    ensures
        views(r@) == row_values(t@, skip as nat),
{
    let mut toks = split_ascii_ws(t);
    if skip <= toks.len() {
        let ghost all = toks@;
        let row = toks.split_off(skip);
        assert(views(row@) =~= views(all).subrange(skip as int, all.len() as int));
        row
    } else {
        Vec::new()
    }
}

/// Runs the state machine over `lines`, adding the callees' cost lines to `costs`.
fn run_lines(lines: &Vec<String>, fn_line: &str, skip: usize, costs: &mut Costs) -> (r: Result<
    (),
    CostsError,
>)
    ensures
        match run(views(lines@), fn_line@, skip as nat, old(costs)@).1 {
            Ok(c) => r is Ok && final(costs)@ == c,
            Err(e) => r == Err::<(), CostsError>(e),
        },
{
    let ghost ls = views(lines@);
    let ghost init = costs@;
    let mut state = ParserState::Scan;
    let mut err: Option<CostsError> = None;
    let mut i: usize = 0;
    while i < lines.len()
        invariant
            ls == views(lines@),
            i <= lines@.len(),
            run(ls.subrange(0, i as int), fn_line@, skip as nat, init) == (state, match err {
                None => Ok(costs@),
                Some(e) => Err(e),
            }),
        decreases lines@.len() - i,
    {
        proof {
            assert(ls.subrange(0, i + 1).drop_last() =~= ls.subrange(0, i as int));
            assert(ls.subrange(0, i + 1).last() == lines@[i as int]@);
        }
        let t = trim_start_str(lines[i].as_str());
        if err.is_none() && state == ParserState::Counting && is_cost_line_str(t) {
            let row = cost_row(t, skip);
            match costs.add_iter_str(&row) {
                Ok(()) => {},
                Err(e) => {
                    err = Some(e);
                },
            }
        }
        state = next_state_exec(state, t, fn_line);
        i = i + 1;
    }
    assert(ls.subrange(0, i as int) =~= ls);
    match err {
        None => Ok(()),
        Some(e) => Err(e),
    }
}

/// Reads the costs of the functions that the sentinel calls.
///
/// The file's first line that is not blank should name the callgrind format;
/// `has_format_header` tells whether it does. Cost lines start with the position
/// columns that the `positions:` line declares (one where there is none); the
/// counters are those of the `events:` line (the nine of a cache simulation
/// where there is none). A sentinel that never appears gives zero counters.
pub fn parse_callgrind(lines: &Vec<String>, sentinel: &Sentinel) -> (r: Result<
    ParsedCosts,
    ParseError,
>)
    ensures
        match callgrind_costs(views(lines@), sentinel@) {
            Ok((c, h)) => r matches Ok(p) && p.costs@ == c && p.has_format_header == h,
            Err(e) => r matches Err(x) && x == e,
        },
{
    let first = match find_first_nonblank(lines) {
        Some(i) => i,
        None => {
            return Err(ParseError::EmptyFile);
        },
    };
    let has_format_header = contains(lines[first].as_str(), "callgrind format");
    let kinds = match find_kinds(lines) {
        Some(k) => k,
        None => {
            return Err(ParseError::UnknownEvent);
        },
    };
    let mode = find_mode(lines);
    let mut costs = Costs::zeroed(&kinds);
    let fn_line = sentinel.to_fn();
    match run_lines(lines, fn_line.as_str(), mode.columns(), &mut costs) {
        Ok(()) => Ok(ParsedCosts { costs, has_format_header }),
        Err(CostsError::InvalidNumber) => Err(ParseError::InvalidNumber),
        Err(CostsError::Overflow) => Err(ParseError::Overflow),
    }
}

proof fn lemma_run_without_callee(
    lines: Seq<Seq<char>>,
    fn_line: Seq<char>,
    skip: nat,
    init: Seq<Event>,
)
    requires
        has_prefix(fn_line, "fn="@),
        forall|i: int|
            0 <= i < lines.len() && has_prefix(trim_start(#[trigger] lines[i]), "cfn="@) ==> run(
                lines.subrange(0, i),
                fn_line,
                skip,
                init,
            ).0 == ParserState::Scan,
    ensures
        run(lines, fn_line, skip, init).1 == Ok::<Seq<Event>, CostsError>(init),
        run(lines, fn_line, skip, init).0 == ParserState::Scan || run(lines, fn_line, skip, init).0
            == ParserState::InFn,
    decreases lines.len(),
{
    if lines.len() > 0 {
        let p = lines.drop_last();
        let n = lines.len() - 1;
        assert forall|i: int|
            0 <= i < p.len() && has_prefix(trim_start(#[trigger] p[i]), "cfn="@) implies run(
                p.subrange(0, i),
                fn_line,
                skip,
                init,
            ).0 == ParserState::Scan by {
            assert(p[i] == lines[i]);
            assert(p.subrange(0, i) =~= lines.subrange(0, i));
        }
        lemma_run_without_callee(p, fn_line, skip, init);
        assert(lines.subrange(0, n) =~= p);
        let t = trim_start(lines[n]);
        reveal_strlit("cfn=");
        reveal_strlit("fn=");
        if has_prefix(t, "cfn="@) && has_prefix(t, fn_line) {
            assert(t.subrange(0, 4)[0] == t[0]);
            assert(t.subrange(0, fn_line.len() as int)[0] == t[0]);
            assert(fn_line.subrange(0, 3)[0] == fn_line[0]);
        }
    }
}

/// Where no line opens a callee record (`cfn=`) inside the sentinel's record, the
/// counters stay zero: the sentinel's own cost lines never count.
pub proof fn lemma_no_callee_zero_costs(lines: Seq<Seq<char>>, sentinel: Seq<char>)
    requires
        first_nonblank(lines) is Some,
        header_kinds(lines) is Some,
        forall|i: int|
            0 <= i < lines.len() && has_prefix(trim_start(#[trigger] lines[i]), "cfn="@) ==> run(
                lines.subrange(0, i),
                "fn="@ + sentinel,
                position_columns(header_mode(lines)),
                zero_costs(header_kinds(lines)->Some_0),
            ).0 == ParserState::Scan,
    ensures
        callgrind_costs(lines, sentinel) matches Ok((c, _)) && c == zero_costs(
            header_kinds(lines)->Some_0,
        ),
{
    assert(has_prefix("fn="@ + sentinel, "fn="@)) by {
        reveal_strlit("fn=");
        assert(("fn="@ + sentinel).subrange(0, 3) =~= "fn="@);
    }
    lemma_run_without_callee(
        lines,
        "fn="@ + sentinel,
        position_columns(header_mode(lines)),
        zero_costs(header_kinds(lines)->Some_0),
    );
}

/// The sentinel's record with its own cost line `own` and two callee blocks
/// (`cfn=`, `calls=`, one cost line each): the counters are those of `init` with
/// the two callees' cost lines added, column by column, in turn.
pub proof fn lemma_two_callees_summed(
    fn_line: Seq<char>,
    skip: nat,
    init: Seq<Event>,
    open_fn: Seq<char>,
    own: Seq<char>,
    cfn1: Seq<char>,
    calls1: Seq<char>,
    row1: Seq<char>,
    cfn2: Seq<char>,
    calls2: Seq<char>,
    row2: Seq<char>,
)
    requires
        fn_line.len() > 0,
        has_prefix(trim_start(open_fn), fn_line),
        is_cost_line(trim_start(own)),
        has_prefix(trim_start(cfn1), "cfn="@),
        has_prefix(trim_start(calls1), "calls="@),
        is_cost_line(trim_start(row1)),
        has_prefix(trim_start(cfn2), "cfn="@),
        has_prefix(trim_start(calls2), "calls="@),
        is_cost_line(trim_start(row2)),
    ensures
        run(seq![open_fn, own, cfn1, calls1, row1, cfn2, calls2, row2], fn_line, skip, init).1
            == (match add_row(init, row_values(trim_start(row1), skip)) {
            Ok(c) => add_row(c, row_values(trim_start(row2), skip)),
            Err(e) => Err(e),
        }),
{
    reveal_strlit("cfn=");
    reveal_strlit("calls=");
    let ls = seq![open_fn, own, cfn1, calls1, row1, cfn2, calls2, row2];
    assert(ls.drop_last() =~= seq![open_fn, own, cfn1, calls1, row1, cfn2, calls2]);
    assert(ls.drop_last().drop_last() =~= seq![open_fn, own, cfn1, calls1, row1, cfn2]);
    assert(ls.drop_last().drop_last().drop_last() =~= seq![open_fn, own, cfn1, calls1, row1]);
    assert(seq![open_fn, own, cfn1, calls1, row1].drop_last() =~= seq![open_fn, own, cfn1, calls1]);
    assert(seq![open_fn, own, cfn1, calls1].drop_last() =~= seq![open_fn, own, cfn1]);
    assert(seq![open_fn, own, cfn1].drop_last() =~= seq![open_fn, own]);
    assert(seq![open_fn, own].drop_last() =~= seq![open_fn]);
    assert(seq![open_fn].drop_last() =~= Seq::<Seq<char>>::empty());
    let r0 = run(Seq::<Seq<char>>::empty(), fn_line, skip, init);
    assert(r0 == (ParserState::Scan, Ok::<Seq<Event>, CostsError>(init)));
    let r1 = run(seq![open_fn], fn_line, skip, init);
    assert(trim_start(open_fn).len() > 0);
    assert(r1 == (ParserState::InFn, Ok::<Seq<Event>, CostsError>(init)));
    let r2 = run(seq![open_fn, own], fn_line, skip, init);
    let t_own = trim_start(own);
    if has_prefix(t_own, "cfn="@) {
        assert(t_own.subrange(0, 4)[0] == t_own[0]);
    }
    assert(!has_prefix(t_own, "cfn="@));
    assert(r2 == (ParserState::InFn, Ok::<Seq<Event>, CostsError>(init)));
    let r3 = run(seq![open_fn, own, cfn1], fn_line, skip, init);
    assert(r3 == (ParserState::SawCfn, Ok::<Seq<Event>, CostsError>(init)));
    let r4 = run(seq![open_fn, own, cfn1, calls1], fn_line, skip, init);
    assert(r4 == (ParserState::Counting, Ok::<Seq<Event>, CostsError>(init)));
    let r5 = run(seq![open_fn, own, cfn1, calls1, row1], fn_line, skip, init);
    assert(r5.0 == ParserState::Counting);
    assert(r5.1 == add_row(init, row_values(trim_start(row1), skip)));
    let r6 = run(seq![open_fn, own, cfn1, calls1, row1, cfn2], fn_line, skip, init);
    let t_cfn2 = trim_start(cfn2);
    assert(t_cfn2.subrange(0, 4)[0] == t_cfn2[0]);
    assert(!is_cost_line(t_cfn2));
    assert(r6.0 == ParserState::SawCfn);
    assert(r6.1 == r5.1);
    let r7 = run(seq![open_fn, own, cfn1, calls1, row1, cfn2, calls2], fn_line, skip, init);
    assert(r7.0 == ParserState::Counting);
    assert(r7.1 == r5.1);
}

/// A whole-process line: `summary:` or `totals:` at the start.
pub open spec fn is_summary_line(l: Seq<char>) -> bool {
    has_prefix(l, "summary:"@) || has_prefix(l, "totals:"@)
}

/// What follows the prefix of the first whole-process line.
pub open spec fn first_summary(lines: Seq<Seq<char>>) -> Option<Seq<char>>
    decreases lines.len(),
{
    if lines.len() == 0 {
        None
    } else if has_prefix(lines[0], "summary:"@) {
        Some(lines[0].subrange("summary:"@.len() as int, lines[0].len() as int))
    } else if has_prefix(lines[0], "totals:"@) {
        Some(lines[0].subrange("totals:"@.len() as int, lines[0].len() as int))
    } else {
        first_summary(lines.drop_first())
    }
}

/// What the summary parser makes of `lines`: the first nine counters of the first
/// whole-process line (zero where there is none), and whether the format is named.
pub open spec fn summary_costs(lines: Seq<Seq<char>>) -> Result<(Seq<Event>, bool), ParseError> {
    match first_nonblank(lines) {
        None => Err(ParseError::EmptyFile),
        Some(first) => {
            let h = has_infix(first, "callgrind format"@);
            let init = zero_costs(canonical_kinds());
            match first_summary(lines) {
                None => Ok((init, h)),
                Some(rest) => match add_row(init, tokens(rest)) {
                    Ok(c) => Ok((c, h)),
                    Err(e) => Err(parse_error_of(e)),
                },
            }
        },
    }
}

fn find_summary(lines: &Vec<String>) -> (r: Option<&str>)
    ensures
        match r {
            Some(s) => first_summary(views(lines@)) == Some(s@),
            None => first_summary(views(lines@)) is None,
        },
{
    let ghost ls = views(lines@);
    let mut i: usize = 0;
    assert(ls.subrange(0, ls.len() as int) =~= ls);
    while i < lines.len()
        invariant
            ls == views(lines@),
            i <= lines@.len(),
            first_summary(ls) == first_summary(ls.subrange(i as int, ls.len() as int)),
        decreases lines@.len() - i,
    {
        let ghost rest = ls.subrange(i as int, ls.len() as int);
        assert(rest.drop_first() =~= ls.subrange(i + 1, ls.len() as int));
        assert(rest[0] == lines@[i as int]@);
        let l = lines[i].as_str();
        let p = "summary:";
        if starts_with(l, p) {
            return Some(l.substring_char(p.unicode_len(), l.unicode_len()));
        }
        let q = "totals:";
        if starts_with(l, q) {
            return Some(l.substring_char(q.unicode_len(), l.unicode_len()));
        }
        i = i + 1;
    }
    None
}

/// Reads the whole-process costs: the first nine counters of the first `summary:`
/// or `totals:` line, as Ir Dr Dw I1mr D1mr D1mw ILmr DLmr DLmw. Without such a
/// line every counter is zero.
pub fn parse_summary(lines: &Vec<String>) -> (r: Result<ParsedCosts, ParseError>)
    ensures
        match summary_costs(views(lines@)) {
            Ok((c, h)) => r matches Ok(p) && p.costs@ == c && p.has_format_header == h,
            Err(e) => r matches Err(x) && x == e,
        },
{
    let first = match find_first_nonblank(lines) {
        Some(i) => i,
        None => {
            return Err(ParseError::EmptyFile);
        },
    };
    let has_format_header = contains(lines[first].as_str(), "callgrind format");
    let mut costs = Costs::canonical();
    match find_summary(lines) {
        None => Ok(ParsedCosts { costs, has_format_header }),
        Some(rest) => {
            let row = split_ascii_ws(rest);
            match costs.add_iter_str(&row) {
                Ok(()) => Ok(ParsedCosts { costs, has_format_header }),
                Err(CostsError::InvalidNumber) => Err(ParseError::InvalidNumber),
                Err(CostsError::Overflow) => Err(ParseError::Overflow),
            }
        },
    }
}

} // verus!
