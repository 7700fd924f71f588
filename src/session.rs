//! The paging policy of a collection run: which result set to fetch next,
//! whether to pause before the next request, and when to stop.
use vstd::prelude::*;

use crate::decimal::numeral_value;
use crate::decimal::parse_usize;
use crate::page::page_outcome;
use crate::page::matches_shape;
use crate::shodan::Request;

verus! {

/// The state of a collection run between requests.
#[derive(Debug, Clone, Copy, PartialEq, Eq, Structural)]
pub struct Session {
    /// `None` for a single unpaged request; else the last page to fetch.
    pub limit: Option<usize>,
    /// How many result sets have been ingested.
    pub done: usize,
    /// Set once a result set ends the run.
    pub finished: bool,
}

/// The page limit that a `max_page` argument sets: none where it is empty;
/// its value where it is a numeral that fits a `usize`; else 0.
pub open spec fn limit_of(max_page: Seq<char>) -> Option<nat> {
    if max_page.len() == 0 {
        None
    } else {
        match numeral_value(max_page) {
            Some(n) => if n <= usize::MAX { Some(n) } else { Some(0) },
            None => Some(0),
        }
    }
}

pub open spec fn limit_view(limit: Option<usize>) -> Option<nat> {
    match limit {
        Some(m) => Some(m as nat),
        None => None,
    }
}

/// The request that a run makes next, if any.
pub open spec fn next_of(s: Session) -> Option<Request> {
    if s.finished {
        None
    } else {
        match s.limit {
            None => if s.done == 0 { Some(Request::Unpaged) } else { None },
            Some(m) => if s.done < m { Some(Request::Page((s.done + 1) as usize)) } else { None },
        }
    }
}

/// The run after a result set of `count` records was ingested, and whether
/// to pause before the next request: a paged run pauses after every page
/// that held records and stops at the first that held none; an unpaged run
/// stops after its one result set.
pub open spec fn after(s: Session, count: nat) -> (Session, bool) {
    match s.limit {
        None => (Session { limit: s.limit, done: 1, finished: true }, false),
        Some(_) => (
            Session { limit: s.limit, done: (s.done + 1) as usize, finished: count == 0 },
            count > 0,
        ),
    }
}

/// The requests that a run makes when its result sets hold `counts`
/// records in turn (and no more than `counts.len()` of them are served).
pub open spec fn requests_of(s: Session, counts: Seq<nat>) -> Seq<Request>
    decreases counts.len(),
{
    if counts.len() == 0 {
        seq![]
    } else {
        match next_of(s) {
            None => seq![],
            Some(r) => seq![r] + requests_of(after(s, counts[0]).0, counts.drop_first()),
        }
    }
}

/// How many of the result sets `counts` are taken before the run stops of
/// itself: all of them up to and including the first that is empty.
pub open spec fn until_empty(counts: Seq<nat>) -> nat
    decreases counts.len(),
{
    if counts.len() == 0 {
        0
    } else if counts[0] == 0 {
        1
    } else {
        1 + until_empty(counts.drop_first())
    }
}

pub open spec fn min_nat(a: nat, b: nat) -> nat {
    if a <= b { a } else { b }
}

/// The pages `first`, `first + 1`, ... in turn, `n` of them.
pub open spec fn pages_from(first: nat, n: nat) -> Seq<Request> {
    Seq::new(n, |i: int| Request::Page((first + i) as usize))
}

pub open spec fn fresh(max_page: Seq<char>) -> Session {
    Session {
        limit: match limit_of(max_page) {
            Some(m) => Some(m as usize),
            None => None,
        },
        done: 0,
        finished: false,
    }
}

impl Session {
    /// A run for the given `max_page` argument; an empty one asks for a
    /// single unpaged result set, one that is no numeral reads as 0.
    pub fn new(max_page: &str) -> (r: Session)
        ensures
            r == fresh(max_page@),
            limit_view(r.limit) == limit_of(max_page@),
    {
        if max_page.unicode_len() == 0 {
            Session { limit: None, done: 0, finished: false }
        } else {
            let m = match parse_usize(max_page) {
                Some(v) => v,
                None => 0,
            };
            Session { limit: Some(m), done: 0, finished: false }
        }
    }

    /// The request to make next, or `None` where the run is over.
    pub fn next_request(&self) -> (r: Option<Request>)
        ensures
            r == next_of(*self),
    {
        if self.finished {
            None
        } else {
            match self.limit {
                None => if self.done == 0 { Some(Request::Unpaged) } else { None },
                Some(m) => if self.done < m { Some(Request::Page(self.done + 1)) } else { None },
            }
        }
    }

    /// Takes in that the last request's result set held `count` records;
    /// returns whether to pause before the next request.
    pub fn record(&mut self, count: usize) -> (pause: bool)
        requires
            next_of(*old(self)) is Some,
        ensures
            (*final(self), pause) == after(*old(self), count as nat),
    {
        match self.limit {
            None => {
                self.done = 1;
                self.finished = true;
                false
            },
            Some(_) => {
                self.done = self.done + 1;
                self.finished = count == 0;
                count > 0
            },
        }
    }
}

proof fn lemma_paged_run(s: Session, m: usize, counts: Seq<nat>)
    requires
        s.limit == Some(m),
        !s.finished,
        s.done <= m,
    ensures
        requests_of(s, counts) == pages_from((s.done + 1) as nat, min_nat((m - s.done) as nat, until_empty(counts))),
    decreases counts.len(),
{
    let n = min_nat((m - s.done) as nat, until_empty(counts));
    if counts.len() == 0 || s.done == m {
        assert(requests_of(s, counts) =~= pages_from((s.done + 1) as nat, n));
    } else {
        let t = after(s, counts[0]).0;
        let rest = counts.drop_first();
        if counts[0] == 0 {
            assert(requests_of(t, rest) =~= seq![]) by {
                if rest.len() > 0 {
                    assert(next_of(t) is None);
                }
            }
            assert(requests_of(s, counts) =~= pages_from((s.done + 1) as nat, n));
        } else {
            lemma_paged_run(t, m, rest);
            assert(requests_of(s, counts) =~= pages_from((s.done + 1) as nat, n));
        }
    }
}

/// A run without a page limit makes exactly one request, for the unpaged
/// result set, however many result sets the service could serve.
pub proof fn lemma_unpaged_run_is_one_request(max_page: Seq<char>, counts: Seq<nat>)
    requires
        max_page.len() == 0,
        counts.len() > 0,
    ensures
        requests_of(fresh(max_page), counts) == seq![Request::Unpaged],
{
    let s = fresh(max_page);
    let t = after(s, counts[0]).0;
    let rest = counts.drop_first();
    assert(requests_of(t, rest) =~= seq![]) by {
        if rest.len() > 0 {
            assert(next_of(t) is None);
        }
    }
    assert(requests_of(s, counts) =~= seq![Request::Unpaged]);
}

/// A run with page limit `m` requests pages 1, 2, ... in turn, one more
/// after each page that held records, and stops after page `m` or after the
/// first page that held none, whichever comes first.
pub proof fn lemma_paged_run_requests(max_page: Seq<char>, m: nat, counts: Seq<nat>)
    requires
        limit_of(max_page) == Some(m),
    ensures
        requests_of(fresh(max_page), counts) == pages_from(1, min_nat(m, until_empty(counts))),
{
    lemma_paged_run(fresh(max_page), m as usize, counts);
}

/// A response whose `matches` array is empty decodes to no records, and a
/// paged run that takes in those no records makes no further request.
pub proof fn lemma_empty_matches_end_run(body: Seq<char>, s: Session)
    requires
        matches_shape(body) == Some(Some(0nat)),
        s.limit is Some,
        next_of(s) is Some,
    ensures
        page_outcome(body) == Ok::<nat, crate::page::PageError>(0),
        next_of(after(s, 0).0) is None,
{
}

} // verus!
