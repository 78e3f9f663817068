//! The fully qualified name of a benchmarked function, used to find its record.
use vstd::prelude::*;
use vstd::string::StringExecFns;
use crate::text::{has_prefix, starts_with, views};

verus! {

/// A name of the form `module::function`.
#[derive(Debug, Clone)]
pub struct Sentinel(pub String);

impl View for Sentinel {
    type V = Seq<char>;

    open spec fn view(&self) -> Seq<char> {
        self.0@
    }
}

/// The strings of `s` joined with `sep` between each two.
pub open spec fn join(s: Seq<Seq<char>>, sep: Seq<char>) -> Seq<char>
    decreases s.len(),
{
    if s.len() == 0 {
        seq![]
    } else if s.len() == 1 {
        s[0]
    } else {
        join(s.drop_last(), sep) + sep + s.last()
    }
}

/// The strings of `segments` joined with `sep`.
pub fn join_with(segments: &Vec<String>, sep: &str) -> (r: String)
    ensures
        r@ == join(views(segments@), sep@),
{
    if segments.len() == 0 {
        return String::new();
    }
    let mut s = segments[0].clone();
    let mut i: usize = 1;
    while i < segments.len()
        invariant
            1 <= i <= segments@.len(),
            s@ == join(views(segments@.subrange(0, i as int)), sep@),
        decreases segments@.len() - i,
    {
        proof {
            let a = views(segments@.subrange(0, i + 1));
            assert(a.drop_last() =~= views(segments@.subrange(0, i as int)));
        }
        s.append(sep);
        s.append(segments[i].as_str());
        i = i + 1;
    }
    assert(segments@.subrange(0, i as int) =~= segments@);
    s
}

impl Sentinel {
    /// The sentinel `value`.
    pub fn new(value: &str) -> (r: Sentinel)
        ensures
            r@ == value@,
    {
        Sentinel(value.to_owned())
    }

    /// `module::function`.
    pub fn from_path(module: &str, function: &str) -> (r: Sentinel)
        ensures
            r@ == module@ + "::"@ + function@,
    {
        let mut s = module.to_owned();
        s.append("::");
        s.append(function);
        Sentinel(s)
    }

    /// The segments joined with `::`.
    pub fn from_segments(segments: &Vec<String>) -> (r: Sentinel)
        ensures
            r@ == join(views(segments@), "::"@),
    {
        Sentinel(join_with(segments, "::"))
    }

    /// The line that opens this function's record: `fn=<name>`.
    pub fn to_fn(&self) -> (r: String)
        ensures
            r@ == "fn="@ + self@,
    {
        let mut s = "fn=".to_owned();
        s.append(self.0.as_str());
        s
    }

    /// Whether `string` begins with this name.
    pub fn matches(&self, string: &str) -> (r: bool)
        ensures
            r == has_prefix(string@, self@),
    {
        starts_with(string, self.0.as_str())
    }
}

} // verus!
