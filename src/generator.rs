use vstd::prelude::*;
use crate::text::{chars_of, split_first, split_first_spec, string_of, trim_of, trimmed, upper_of, uppercased};

verus! {

/// One unit of load: a method and a URL.
#[derive(Clone, Debug)]
pub struct Request {
    pub method: String,
    pub url: String,
}

/// The request a URL-list line describes: the text before the first comma,
/// trimmed and upper-cased, is the method; all that follows it, trimmed, is
/// the URL (so a URL may hold commas). A line without a comma describes none.
pub open spec fn url_line_spec(line: Seq<char>) -> Option<(Seq<char>, Seq<char>)> {
    match split_first_spec(line, ',') {
        Some((a, b)) => Some((upper_of(trim_of(a)), trim_of(b))),
        None => None,
    }
}

/// The requests of the lines `ls` that describe one, in file order.
pub open spec fn url_list_spec(ls: Seq<Seq<char>>) -> Seq<(Seq<char>, Seq<char>)>
    decreases ls.len(),
{
    if ls.len() == 0 {
        Seq::empty()
    } else {
        match url_line_spec(ls.last()) {
            Some(p) => url_list_spec(ls.drop_last()).push(p),
            None => url_list_spec(ls.drop_last()),
        }
    }
}

pub open spec fn request_views(v: Seq<Request>) -> Seq<(Seq<char>, Seq<char>)> {
    v.map_values(|r: Request| (r.method@, r.url@))
}

/// Parses one line of a URL list.
pub fn parse_url_line(line: &str) -> (r: Option<Request>)
    ensures
        match r {
            Some(req) => url_line_spec(line@) == Some((req.method@, req.url@)),
            None => url_line_spec(line@) is None,
        },
{
    let c = chars_of(line);
    match split_first(&c, ',') {
        Some((a, b)) => {
            let sa = string_of(&a);
            let ta = trimmed(sa.as_str());
            let method = uppercased(ta.as_str());
            let sb = string_of(&b);
            let url = trimmed(sb.as_str());
            Some(Request { method, url })
        },
        None => None,
    }
}

/// Parses the lines of a URL list, skipping those that describe no request.
pub fn parse_url_lines(lines: &Vec<String>) -> (r: Vec<Request>)
    ensures
        request_views(r@) == url_list_spec(lines@.map_values(|s: String| s@)),
{
    let ghost ls = lines@.map_values(|s: String| s@);
    let mut r: Vec<Request> = Vec::new();
    let mut i: usize = 0;
    while i < lines.len()
        invariant
            i <= lines@.len(),
            ls == lines@.map_values(|s: String| s@),
            request_views(r@) == url_list_spec(ls.subrange(0, i as int)),
        decreases lines@.len() - i,
    {
        proof {
            assert(ls.subrange(0, i as int + 1).drop_last() =~= ls.subrange(0, i as int));
            assert(ls.subrange(0, i as int + 1).last() == lines@[i as int]@);
        }
        match parse_url_line(lines[i].as_str()) {
            Some(req) => {
                let ghost old_r = r@;
                let ghost p = (req.method@, req.url@);
                r.push(req);
                proof {
                    assert(request_views(r@) =~= request_views(old_r).push(p));
                }
            },
            None => {},
        }
        i = i + 1;
    }
    assert(ls.subrange(0, lines@.len() as int) =~= ls);
    r
}

/// When generation stops: after a number of passes over the item list, or
/// once a time limit has passed.
#[derive(Clone, Copy, Debug, PartialEq, Eq, Structural)]
pub enum LoadLimit {
    /// Replay the item list this many times.
    Count(usize),
    /// Emit one item per tick until this many nanoseconds have passed.
    Duration(u64),
}

/// What the generator does at a step.
#[derive(Clone, Copy, Debug, PartialEq, Eq, Structural)]
pub enum Emission {
    /// Send the item at this position of the item list.
    Emit(usize),
    /// Close the channel: generation is over.
    Close,
}

/// The generator's decision at `step` (the number of items sent so far) when
/// `elapsed_nanos` have passed since it started. The item list is walked in
/// order and wrapped around; a count limit emits `count` passes, a duration
/// limit emits while the elapsed time is below it. An empty list emits
/// nothing.
pub open spec fn emission_spec(limit: LoadLimit, list_len: nat, step: nat, elapsed_nanos: u64) -> Emission {
    if list_len == 0 {
        Emission::Close
    } else {
        let go = match limit {
            LoadLimit::Count(n) => step < n * list_len,
            LoadLimit::Duration(d) => elapsed_nanos < d,
        };
        if go { Emission::Emit((step % list_len) as usize) } else { Emission::Close }
    }
}

/// Decides the generator's next step.
pub fn next_emission(limit: LoadLimit, list_len: usize, step: usize, elapsed_nanos: u64) -> (r: Emission)
    ensures
        r == emission_spec(limit, list_len as nat, step as nat, elapsed_nanos),
        r matches Emission::Emit(i) ==> i < list_len,
{
    if list_len == 0 {
        return Emission::Close;
    }
    let go = match limit {
        LoadLimit::Count(n) => {
            proof {
                vstd::arithmetic::div_mod::lemma_fundamental_div_mod(step as int, list_len as int);
                assert(step < n * list_len <==> step / list_len < n) by (nonlinear_arith)
                    requires
                        list_len > 0,
                        step == list_len * (step / list_len) + step % list_len,
                        0 <= step % list_len < list_len,
                        step / list_len >= 0,
                        n >= 0,
                ;
            }
            step / list_len < n
        },
        LoadLimit::Duration(d) => elapsed_nanos < d,
    };
    if go {
        Emission::Emit(step % list_len)
    } else {
        Emission::Close
    }
}

/// A count limit of `n` passes over a list of `len` items emits exactly
/// `n * len` items: one at every step below that bound, and none after it.
pub proof fn lemma_count_emits_exactly(n: usize, len: nat, elapsed_nanos: u64)
    requires
        len > 0,
    ensures
        forall|step: nat| step < n * len ==> #[trigger] emission_spec(LoadLimit::Count(n), len, step, elapsed_nanos) is Emit,
        forall|step: nat| step >= n * len ==> #[trigger] emission_spec(LoadLimit::Count(n), len, step, elapsed_nanos) == Emission::Close,
{
}

/// The items of a single-URL run: one request with the configured method.
pub fn single_url_items(method: &str, url: &str) -> (r: Vec<Request>)
    ensures
        r@.len() == 1,
        r@[0].method@ == method@,
        r@[0].url@ == url@,
{
    let m = string_of(&chars_of(method));
    let u = string_of(&chars_of(url));
    let mut r: Vec<Request> = Vec::new();
    r.push(Request { method: m, url: u });
    r
}

} // verus!
