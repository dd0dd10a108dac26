//! Verdict tokens and summary counts for the comparison report.
//!
//! Rendering the table is an outside concern; which token each result
//! gets and how the summary counts add up is decided and verified here.

use vstd::prelude::*;

use crate::stats::{Side, TestResult};

verus! {

/// Errors that can occur while rendering a report; an input or output
/// failure, with its description.
#[derive(Debug, Clone)]
pub enum ReportError {
    Io(String),
}

/// The verdict token of one benchmark row.
#[derive(Debug, Clone, Copy, PartialEq, Eq)]
pub enum Verdict {
    /// The candidate is significantly faster.
    Faster,
    /// The candidate is significantly slower.
    Slower,
    /// No significant difference was found.
    Inconclusive,
}

/// The verdict of a test result: `Faster` or `Slower` follows the winner
/// of a significant difference; everything else is inconclusive.
pub open spec fn spec_verdict(r: TestResult) -> Verdict {
    if !r.statistically_significant {
        Verdict::Inconclusive
    } else {
        match r.winner {
            Some(Side::Candidate) => Verdict::Faster,
            Some(Side::Baseline) => Verdict::Slower,
            None => Verdict::Inconclusive,
        }
    }
}

/// Compute the verdict of one result.
pub fn verdict_of(r: &TestResult) -> (v: Verdict)
    ensures
        v == spec_verdict(*r),
{
    if !r.statistically_significant {
        Verdict::Inconclusive
    } else {
        match r.winner {
            Some(Side::Candidate) => Verdict::Faster,
            Some(Side::Baseline) => Verdict::Slower,
            None => Verdict::Inconclusive,
        }
    }
}

/// The token a verdict is printed as.
pub fn verdict_token(v: Verdict) -> (r: &'static str)
    ensures
        v == Verdict::Faster ==> r@ == "faster"@,
        v == Verdict::Slower ==> r@ == "slower"@,
        v == Verdict::Inconclusive ==> r@ == "inconclusive"@,
{
    match v {
        Verdict::Faster => "faster",
        Verdict::Slower => "slower",
        Verdict::Inconclusive => "inconclusive",
    }
}

/// How many of the results got each verdict.
#[derive(Debug, Clone, Copy, PartialEq, Eq)]
pub struct SummaryCounts {
    pub faster: usize,
    pub slower: usize,
    pub inconclusive: usize,
}

/// The number of results with the given verdict.
pub open spec fn count_verdict(results: Seq<TestResult>, v: Verdict) -> int
    decreases results.len(),
{
    if results.len() == 0 {
        0
    } else {
        count_verdict(results.drop_last(), v) + if spec_verdict(results.last()) == v {
            1int
        } else {
            0int
        }
    }
}

/// Count the verdicts over all results.
pub fn summarize(results: &Vec<TestResult>) -> (r: SummaryCounts)
    ensures
        r.faster == count_verdict(results@, Verdict::Faster),
        r.slower == count_verdict(results@, Verdict::Slower),
        r.inconclusive == count_verdict(results@, Verdict::Inconclusive),
{
    let mut faster: usize = 0;
    let mut slower: usize = 0;
    let mut inconclusive: usize = 0;
    let mut i: usize = 0;
    proof {
        assert(results@.subrange(0, 0) =~= Seq::<TestResult>::empty());
    }
    while i < results.len()
        invariant
            0 <= i <= results@.len(),
            faster == count_verdict(results@.subrange(0, i as int), Verdict::Faster),
            slower == count_verdict(results@.subrange(0, i as int), Verdict::Slower),
            inconclusive == count_verdict(results@.subrange(0, i as int), Verdict::Inconclusive),
            faster + slower + inconclusive == i,
        decreases results@.len() - i,
    {
        proof {
            assert(results@.subrange(0, i + 1).drop_last() =~= results@.subrange(0, i as int));
            assert(results@.subrange(0, i + 1).last() == results@[i as int]);
        }
        match verdict_of(&results[i]) {
            Verdict::Faster => {
                faster = faster + 1;
            },
            Verdict::Slower => {
                slower = slower + 1;
            },
            Verdict::Inconclusive => {
                inconclusive = inconclusive + 1;
            },
        }
        i = i + 1;
    }
    proof {
        assert(results@.subrange(0, results@.len() as int) =~= results@);
    }
    SummaryCounts { faster, slower, inconclusive }
}

/// A reporter for comparison results with a color switch; the rendering
/// itself happens outside this crate.
#[derive(Debug, Clone)]
pub struct TerminalReporter {
    /// Whether to use colors in output.
    pub use_colors: bool,
}

impl TerminalReporter {
    /// Create a new terminal reporter with colors on.
    pub fn new() -> (r: TerminalReporter)
        ensures
            r.use_colors,
    {
        TerminalReporter { use_colors: true }
    }

    /// Create a terminal reporter with color output disabled.
    pub fn without_colors() -> (r: TerminalReporter)
        ensures
            !r.use_colors,
    {
        TerminalReporter { use_colors: false }
    }
}

} // verus!
