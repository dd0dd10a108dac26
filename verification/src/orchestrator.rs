//! Orchestrator-side logic for driving two harnesses.
//!
//! The orchestrator spawns or attaches to a baseline and a candidate
//! harness, claims both, validates that they expose the same benchmarks,
//! and collects interleaved samples.  The I/O — processes, HTTP, sleeping
//! — lives outside this crate; every decision along the way is a function
//! here: URL normalization, readiness polling, response handling, the
//! benchmark-set comparison, and the sampling schedule, which is a state
//! machine that fixes the strict baseline-first interleaving order and
//! the final sample counts.

use vstd::multiset::Multiset;
use vstd::prelude::*;
use vstd::seq_lib::group_seq_properties;
use vstd::string::StringExecFns;

use crate::json::dec_rep;
use crate::protocol::{ClaimRequest, ClaimResponse, HealthResponse, RunIterationResponse};
use crate::stats::Side;

verus! {

broadcast use group_seq_properties;

/// The view of a vector of strings.
pub open spec fn strs_view(v: Seq<String>) -> Seq<Seq<char>> {
    v.map_values(|s: String| s@)
}

/// Errors that can occur during orchestration.
#[derive(Debug, Clone)]
pub enum OrchestratorError {
    /// Failed to spawn a harness process.
    SpawnError(String),
    /// Harness did not become ready within the timeout period.
    TimeoutError { url: String, timeout_secs: u64, last_error: String },
    /// HTTP request to a harness failed; carries the transport error's
    /// own description.
    Transport(String),
    /// Baseline and candidate have different benchmark sets.
    BenchmarkMismatch { baseline: Vec<String>, candidate: Vec<String> },
    /// Requested benchmark was not found.
    BenchmarkNotFound(String),
    /// Harness reported an error during execution.
    HarnessError(String),
    /// Invalid URL provided.
    InvalidUrl(String),
    /// Failed to claim the harness: it is already claimed by another
    /// orchestrator.
    ClaimError(String),
}

/// The rendering of a string list in an error message: quoted items,
/// comma-separated, in brackets.
pub open spec fn spec_list_msg(l: Seq<Seq<char>>) -> Seq<char>
    decreases l.len(),
{
    if l.len() == 0 {
        Seq::empty()
    } else if l.len() == 1 {
        seq!['"'] + l[0] + seq!['"']
    } else {
        seq!['"'] + l[0] + seq!['"'] + ", "@ + spec_list_msg(l.skip(1))
    }
}

/// The human-readable message of each error.
pub open spec fn spec_message(e: OrchestratorError) -> Seq<char> {
    match e {
        OrchestratorError::SpawnError(s) => "Failed to spawn harness: "@ + s@,
        OrchestratorError::TimeoutError { url, timeout_secs, last_error } => "Harness at "@ + url@
            + " not ready after "@ + dec_rep(timeout_secs as int) + "s timeout. Last error: "@
            + last_error@,
        OrchestratorError::Transport(s) => "HTTP request failed: "@ + s@,
        OrchestratorError::BenchmarkMismatch { baseline, candidate } => "Benchmark mismatch: baseline has ["@
            + spec_list_msg(strs_view(baseline@)) + "], candidate has ["@ + spec_list_msg(
            strs_view(candidate@),
        ) + "]"@,
        OrchestratorError::BenchmarkNotFound(s) => "Benchmark not found: "@ + s@,
        OrchestratorError::HarnessError(s) => "Harness error: "@ + s@,
        OrchestratorError::InvalidUrl(s) => "Invalid URL: "@ + s@,
        OrchestratorError::ClaimError(s) => "Failed to claim harness: "@ + s@,
    }
}

/// Append the message rendering of a string list.
fn list_msg_into(out: &mut String, items: &Vec<String>, i: usize)
    requires
        i <= items@.len(),
    ensures
        final(out)@ == old(out)@ + spec_list_msg(strs_view(items@).skip(i as int)),
    decreases items@.len() - i,
{
    let ghost l = strs_view(items@).skip(i as int);
    if i >= items.len() {
        proof {
            assert(old(out)@ + spec_list_msg(l) =~= old(out)@);
        }
        return;
    }
    out.push('"');
    out.append(items[i].as_str());
    out.push('"');
    if i + 1 < items.len() {
        out.append(", ");
        list_msg_into(out, items, i + 1);
        proof {
            let tail = strs_view(items@).skip(i + 1);
            assert(l[0] == items@[i as int]@);
            assert(l.skip(1) =~= tail);
            assert(l.len() > 1);
            assert(old(out)@ + spec_list_msg(l) =~= (((old(out)@.push('"')) + items@[i as int]@
                ).push('"')) + ", "@ + spec_list_msg(tail));
        }
    } else {
        proof {
            assert(l[0] == items@[i as int]@);
            assert(l.len() == 1);
            assert(old(out)@ + spec_list_msg(l) =~= ((old(out)@.push('"')) + items@[i as int]@
                ).push('"'));
        }
    }
}

impl OrchestratorError {
    /// The human-readable message for this error, naming its kind and the
    /// specific context.
    pub fn message(&self) -> (r: String)
        ensures
            r@ == spec_message(*self),
    {
        let mut out = String::new();
        match self {
            OrchestratorError::SpawnError(s) => {
                out.append("Failed to spawn harness: ");
                out.append(s.as_str());
            },
            OrchestratorError::TimeoutError { url, timeout_secs, last_error } => {
                out.append("Harness at ");
                out.append(url.as_str());
                out.append(" not ready after ");
                crate::json::enc_u64_into(&mut out, *timeout_secs);
                out.append("s timeout. Last error: ");
                out.append(last_error.as_str());
            },
            OrchestratorError::Transport(s) => {
                out.append("HTTP request failed: ");
                out.append(s.as_str());
            },
            OrchestratorError::BenchmarkMismatch { baseline, candidate } => {
                out.append("Benchmark mismatch: baseline has [");
                proof {
                    assert(strs_view(baseline@).skip(0) =~= strs_view(baseline@));
                    assert(strs_view(candidate@).skip(0) =~= strs_view(candidate@));
                }
                list_msg_into(&mut out, baseline, 0);
                out.append("], candidate has [");
                list_msg_into(&mut out, candidate, 0);
                out.append("]");
            },
            OrchestratorError::BenchmarkNotFound(s) => {
                out.append("Benchmark not found: ");
                out.append(s.as_str());
            },
            OrchestratorError::HarnessError(s) => {
                out.append("Harness error: ");
                out.append(s.as_str());
            },
            OrchestratorError::InvalidUrl(s) => {
                out.append("Invalid URL: ");
                out.append(s.as_str());
            },
            OrchestratorError::ClaimError(s) => {
                out.append("Failed to claim harness: ");
                out.append(s.as_str());
            },
        }
        proof {
            assert(out@ =~= spec_message(*self));
        }
        out
    }
}

/// Collected benchmark samples for a single benchmark: one ordered vector
/// per side, durations in nanoseconds.
#[derive(Debug, Clone)]
pub struct BenchmarkSamples {
    /// Name of the benchmark.
    pub name: String,
    /// Samples collected from the baseline.
    pub baseline_samples: Vec<u64>,
    /// Samples collected from the candidate.
    pub candidate_samples: Vec<u64>,
}

impl BenchmarkSamples {
    /// Create a new empty sample collection.
    pub fn new(name: String) -> (r: BenchmarkSamples)
        ensures
            r.name == name,
            r.baseline_samples@ =~= Seq::<u64>::empty(),
            r.candidate_samples@ =~= Seq::<u64>::empty(),
    {
        BenchmarkSamples { name, baseline_samples: Vec::new(), candidate_samples: Vec::new() }
    }

    /// Add a baseline sample.
    pub fn add_baseline(&mut self, duration_ns: u64)
        ensures
            final(self).name == old(self).name,
            final(self).baseline_samples@ == old(self).baseline_samples@.push(duration_ns),
            final(self).candidate_samples == old(self).candidate_samples,
    {
        self.baseline_samples.push(duration_ns);
    }

    /// Add a candidate sample.
    pub fn add_candidate(&mut self, duration_ns: u64)
        ensures
            final(self).name == old(self).name,
            final(self).baseline_samples == old(self).baseline_samples,
            final(self).candidate_samples@ == old(self).candidate_samples@.push(duration_ns),
    {
        self.candidate_samples.push(duration_ns);
    }
}

/// Where the sampling schedule stands: which side runs next, and whether
/// its measurement is kept.
#[derive(Debug, Clone, Copy, PartialEq, Eq)]
pub enum SamplePhase {
    /// Run the baseline; discard the measurement.
    WarmupBaseline,
    /// Run the candidate; discard the measurement.
    WarmupCandidate,
    /// Run the baseline; keep the measurement.
    MeasureBaseline,
    /// Run the candidate; keep the measurement.
    MeasureCandidate,
    /// Sampling for this benchmark is complete.
    Done,
}

/// The sampling schedule for one benchmark: first `warmup_remaining`
/// discarded rounds, then `sample_size` measured rounds, each round
/// strictly baseline first, then candidate.
pub struct SamplingState {
    /// The samples collected so far.
    pub samples: BenchmarkSamples,
    /// Warmup rounds still to run, counting the current one.
    pub warmup_remaining: u32,
    /// Measured rounds to collect in total.
    pub sample_size: u32,
    /// What happens next.
    pub phase: SamplePhase,
}

impl SamplingState {
    /// The schedule invariant: the two vectors grow in lock step, the
    /// baseline sample of a round always ahead of the candidate's, and a
    /// finished schedule holds exactly `sample_size` samples per side.
    pub open spec fn wf(&self) -> bool {
        let b = self.samples.baseline_samples@.len();
        let c = self.samples.candidate_samples@.len();
        match self.phase {
            SamplePhase::WarmupBaseline => b == 0 && c == 0 && self.warmup_remaining > 0,
            SamplePhase::WarmupCandidate => b == 0 && c == 0 && self.warmup_remaining > 0,
            SamplePhase::MeasureBaseline => b == c && b < self.sample_size,
            SamplePhase::MeasureCandidate => b == c + 1 && b <= self.sample_size,
            SamplePhase::Done => b == c && b == self.sample_size,
        }
    }

    /// Start the schedule for one benchmark.
    pub fn new(name: String, warmup_iterations: u32, sample_size: u32) -> (r: SamplingState)
        ensures
            r.wf(),
            r.samples.name == name,
            r.samples.baseline_samples@ =~= Seq::<u64>::empty(),
            r.samples.candidate_samples@ =~= Seq::<u64>::empty(),
            r.sample_size == sample_size,
            r.warmup_remaining == warmup_iterations,
    {
        let phase = if warmup_iterations > 0 {
            SamplePhase::WarmupBaseline
        } else if sample_size > 0 {
            SamplePhase::MeasureBaseline
        } else {
            SamplePhase::Done
        };
        SamplingState {
            samples: BenchmarkSamples::new(name),
            warmup_remaining: warmup_iterations,
            sample_size,
            phase,
        }
    }

    /// The side to run next, or `None` once the schedule is complete.
    pub fn next_side(&self) -> (r: Option<Side>)
        ensures
            match self.phase {
                SamplePhase::WarmupBaseline | SamplePhase::MeasureBaseline => r == Some(
                    Side::Baseline,
                ),
                SamplePhase::WarmupCandidate | SamplePhase::MeasureCandidate => r == Some(
                    Side::Candidate,
                ),
                SamplePhase::Done => r is None,
            },
    {
        match self.phase {
            SamplePhase::WarmupBaseline | SamplePhase::MeasureBaseline => Some(Side::Baseline),
            SamplePhase::WarmupCandidate | SamplePhase::MeasureCandidate => Some(Side::Candidate),
            SamplePhase::Done => None,
        }
    }

    /// Record the result of the run the schedule asked for.  Warmup
    /// measurements are discarded; measured ones are appended to the
    /// vector of the side that ran.
    pub fn record(&mut self, duration_ns: u64)
        requires
            old(self).wf(),
            old(self).phase != SamplePhase::Done,
        ensures
            final(self).wf(),
            final(self).sample_size == old(self).sample_size,
            final(self).samples.name == old(self).samples.name,
            match old(self).phase {
                SamplePhase::WarmupBaseline => {
                    &&& final(self).phase == SamplePhase::WarmupCandidate
                    &&& final(self).samples.baseline_samples == old(self).samples.baseline_samples
                    &&& final(self).samples.candidate_samples
                        == old(self).samples.candidate_samples
                },
                SamplePhase::WarmupCandidate => {
                    &&& final(self).samples.baseline_samples == old(self).samples.baseline_samples
                    &&& final(self).samples.candidate_samples
                        == old(self).samples.candidate_samples
                    &&& final(self).warmup_remaining == old(self).warmup_remaining - 1
                },
                SamplePhase::MeasureBaseline => {
                    &&& final(self).phase == SamplePhase::MeasureCandidate
                    &&& final(self).samples.baseline_samples@
                        == old(self).samples.baseline_samples@.push(duration_ns)
                    &&& final(self).samples.candidate_samples
                        == old(self).samples.candidate_samples
                },
                SamplePhase::MeasureCandidate => {
                    &&& final(self).samples.candidate_samples@
                        == old(self).samples.candidate_samples@.push(duration_ns)
                    &&& final(self).samples.baseline_samples
                        == old(self).samples.baseline_samples
                },
                SamplePhase::Done => false,
            },
    {
        match self.phase {
            SamplePhase::WarmupBaseline => {
                self.phase = SamplePhase::WarmupCandidate;
            },
            SamplePhase::WarmupCandidate => {
                self.warmup_remaining = self.warmup_remaining - 1;
                self.phase = if self.warmup_remaining > 0 {
                    SamplePhase::WarmupBaseline
                } else if self.sample_size > 0 {
                    SamplePhase::MeasureBaseline
                } else {
                    SamplePhase::Done
                };
            },
            SamplePhase::MeasureBaseline => {
                self.samples.add_baseline(duration_ns);
                self.phase = SamplePhase::MeasureCandidate;
            },
            SamplePhase::MeasureCandidate => {
                self.samples.add_candidate(duration_ns);
                self.phase = if self.samples.candidate_samples.len() < (self.sample_size as usize) {
                    SamplePhase::MeasureBaseline
                } else {
                    SamplePhase::Done
                };
            },
            SamplePhase::Done => {
                proof {
                    assert(false);
                }
            },
        }
    }

    /// Whether the schedule is complete.
    pub fn is_done(&self) -> (r: bool)
        ensures
            r == (self.phase == SamplePhase::Done),
    {
        match self.phase {
            SamplePhase::Done => true,
            _ => false,
        }
    }

    /// Hand out the collected samples.
    pub fn into_samples(self) -> (r: BenchmarkSamples)
        ensures
            r == self.samples,
    {
        self.samples
    }
}

/// A completed schedule holds exactly the configured number of samples on
/// each side.
pub proof fn lemma_sampling_complete(st: SamplingState)
    requires
        st.wf(),
        st.phase == SamplePhase::Done,
    ensures
        st.samples.baseline_samples@.len() == st.sample_size,
        st.samples.candidate_samples@.len() == st.sample_size,
{
}

/// The baseline leads throughout the schedule: at every state the
/// baseline vector holds the candidate's length or one more, so the k-th
/// baseline sample is always recorded before the k-th candidate sample.
pub proof fn lemma_baseline_leads(st: SamplingState)
    requires
        st.wf(),
    ensures
        st.samples.candidate_samples@.len() <= st.samples.baseline_samples@.len()
            <= st.samples.candidate_samples@.len() + 1,
{
}

/// The teardown action to perform next on one harness handle.
#[derive(Debug, Clone, Copy, PartialEq, Eq)]
pub enum TeardownAction {
    /// Release the claim.
    Release,
    /// Ask the harness to shut down.
    Shutdown,
    /// Force-terminate the child process.
    Kill,
}

/// Where the teardown of one handle stands.
#[derive(Debug, Clone, Copy, PartialEq, Eq)]
pub enum TeardownPhase {
    ReleaseClaim,
    ShutdownHarness,
    KillProcess,
    Finished,
}

/// The teardown schedule for one harness handle.  It fixes the order —
/// release first, then shutdown, then the forced kill — and offers the
/// shutdown and kill steps only for managed handles: a remote harness
/// outlives the orchestrator and only has its claim released.
pub struct TeardownPlan {
    /// Whether the handle owns a spawned child process.
    pub managed: bool,
    /// The next step.
    pub phase: TeardownPhase,
}

impl TeardownPlan {
    /// A managed handle goes through the whole sequence; a remote handle
    /// only releases its claim.
    pub open spec fn wf(&self) -> bool {
        !self.managed ==> (self.phase == TeardownPhase::ReleaseClaim || self.phase
            == TeardownPhase::Finished)
    }

    /// Start the teardown of one handle.
    pub fn new(managed: bool) -> (r: TeardownPlan)
        ensures
            r.wf(),
            r.managed == managed,
            r.phase == TeardownPhase::ReleaseClaim,
    {
        TeardownPlan { managed, phase: TeardownPhase::ReleaseClaim }
    }

    /// The next action, or `None` when the handle is fully torn down.
    pub fn next_action(&self) -> (r: Option<TeardownAction>)
        requires
            self.wf(),
        ensures
            match self.phase {
                TeardownPhase::ReleaseClaim => r == Some(TeardownAction::Release),
                TeardownPhase::ShutdownHarness => r == Some(TeardownAction::Shutdown),
                TeardownPhase::KillProcess => r == Some(TeardownAction::Kill),
                TeardownPhase::Finished => r is None,
            },
            r == Some(TeardownAction::Shutdown) || r == Some(TeardownAction::Kill)
                ==> self.managed,
    {
        match self.phase {
            TeardownPhase::ReleaseClaim => Some(TeardownAction::Release),
            TeardownPhase::ShutdownHarness => Some(TeardownAction::Shutdown),
            TeardownPhase::KillProcess => Some(TeardownAction::Kill),
            TeardownPhase::Finished => None,
        }
    }

    /// Record that the offered action was attempted.  Teardown is
    /// best-effort, so there is no failure path: the schedule advances
    /// whatever the action's outcome was.
    pub fn advance(&mut self)
        requires
            old(self).wf(),
            old(self).phase != TeardownPhase::Finished,
        ensures
            final(self).wf(),
            final(self).managed == old(self).managed,
            match old(self).phase {
                TeardownPhase::ReleaseClaim => final(self).phase == (if old(self).managed {
                    TeardownPhase::ShutdownHarness
                } else {
                    TeardownPhase::Finished
                }),
                TeardownPhase::ShutdownHarness => final(self).phase == TeardownPhase::KillProcess,
                TeardownPhase::KillProcess => final(self).phase == TeardownPhase::Finished,
                TeardownPhase::Finished => false,
            },
    {
        self.phase = match self.phase {
            TeardownPhase::ReleaseClaim => if self.managed {
                TeardownPhase::ShutdownHarness
            } else {
                TeardownPhase::Finished
            },
            TeardownPhase::ShutdownHarness => TeardownPhase::KillProcess,
            TeardownPhase::KillProcess => TeardownPhase::Finished,
            TeardownPhase::Finished => TeardownPhase::Finished,
        };
    }
}

/// The number of occurrences of a string among a list.
pub open spec fn occurrences(l: Seq<Seq<char>>, x: Seq<char>) -> int
    decreases l.len(),
{
    if l.len() == 0 {
        0
    } else {
        occurrences(l.drop_last(), x) + if l.last() == x {
            1int
        } else {
            0int
        }
    }
}

/// The occurrence count is the multiset count.
proof fn lemma_occurrences_multiset(l: Seq<Seq<char>>, x: Seq<char>)
    ensures
        l.to_multiset().count(x) == occurrences(l, x),
    decreases l.len(),
{
    broadcast use vstd::seq_lib::group_to_multiset_ensures;
    broadcast use vstd::multiset::group_multiset_axioms;

    if l.len() == 0 {
        assert(l.to_multiset() =~= Multiset::<Seq<char>>::empty());
    } else {
        lemma_occurrences_multiset(l.drop_last(), x);
        assert(l =~= l.drop_last().push(l.last()));
        assert(l.drop_last().push(l.last()).to_multiset() =~= l.drop_last().to_multiset().insert(
            l.last(),
        ));
    }
}

/// Count how often a string occurs in a list.
fn count_occurrences(v: &Vec<String>, x: &String) -> (r: usize)
    ensures
        r == occurrences(strs_view(v@), x@),
{
    let mut count: usize = 0;
    let mut i: usize = 0;
    proof {
        assert(strs_view(v@).subrange(0, 0) =~= Seq::<Seq<char>>::empty());
    }
    while i < v.len()
        invariant
            0 <= i <= v@.len(),
            count <= i,
            count == occurrences(strs_view(v@).subrange(0, i as int), x@),
        decreases v@.len() - i,
    {
        proof {
            assert(strs_view(v@).subrange(0, i + 1).drop_last() =~= strs_view(v@).subrange(
                0,
                i as int,
            ));
            assert(strs_view(v@).subrange(0, i + 1).last() == v@[i as int]@);
        }
        if v[i] == *x {
            count = count + 1;
        }
        i = i + 1;
    }
    proof {
        assert(strs_view(v@).subrange(0, v@.len() as int) =~= strs_view(v@));
    }
    count
}

/// Validate that the two sides expose the same benchmark set: the two
/// identifier lists must be equal up to order (and multiplicity).  On a
/// mismatch the error carries both raw lists.
pub fn validate_benchmark_sets(baseline: &Vec<String>, candidate: &Vec<String>) -> (r: Result<
    (),
    OrchestratorError,
>)
    ensures
        r is Ok <==> strs_view(baseline@).to_multiset() == strs_view(candidate@).to_multiset(),
        r matches Err(e) ==> ({
            &&& e matches OrchestratorError::BenchmarkMismatch { baseline: eb, candidate: ec }
            &&& eb@ == baseline@
            &&& ec@ == candidate@
        }),
{
    broadcast use vstd::seq_lib::group_to_multiset_ensures;

    let ghost bv = strs_view(baseline@);
    let ghost cv = strs_view(candidate@);
    let mut i: usize = 0;
    while i < baseline.len()
        invariant
            0 <= i <= baseline@.len(),
            bv == strs_view(baseline@),
            cv == strs_view(candidate@),
            forall|j: int| 0 <= j < i ==> occurrences(bv, #[trigger] bv[j]) == occurrences(
                cv,
                bv[j],
            ),
        decreases baseline@.len() - i,
    {
        let b_count = count_occurrences(baseline, &baseline[i]);
        let c_count = count_occurrences(candidate, &baseline[i]);
        if b_count != c_count {
            proof {
                lemma_occurrences_multiset(bv, bv[i as int]);
                lemma_occurrences_multiset(cv, bv[i as int]);
                assert(bv.to_multiset().count(bv[i as int]) != cv.to_multiset().count(
                    bv[i as int],
                ));
            }
            let eb = baseline.clone();
            let ec = candidate.clone();
            proof {
                assert(eb@ =~= baseline@);
                assert(ec@ =~= candidate@);
            }
            return Err(OrchestratorError::BenchmarkMismatch { baseline: eb, candidate: ec });
        }
        i = i + 1;
    }
    let mut j: usize = 0;
    while j < candidate.len()
        invariant
            0 <= j <= candidate@.len(),
            bv == strs_view(baseline@),
            cv == strs_view(candidate@),
            forall|k: int| 0 <= k < bv.len() ==> occurrences(bv, #[trigger] bv[k]) == occurrences(
                cv,
                bv[k],
            ),
            forall|k: int| 0 <= k < j ==> occurrences(bv, #[trigger] cv[k]) == occurrences(
                cv,
                cv[k],
            ),
        decreases candidate@.len() - j,
    {
        let b_count = count_occurrences(baseline, &candidate[j]);
        let c_count = count_occurrences(candidate, &candidate[j]);
        if b_count != c_count {
            proof {
                lemma_occurrences_multiset(bv, cv[j as int]);
                lemma_occurrences_multiset(cv, cv[j as int]);
            }
            let eb = baseline.clone();
            let ec = candidate.clone();
            proof {
                assert(eb@ =~= baseline@);
                assert(ec@ =~= candidate@);
            }
            return Err(OrchestratorError::BenchmarkMismatch { baseline: eb, candidate: ec });
        }
        j = j + 1;
    }
    proof {
        assert forall|x: Seq<char>| bv.to_multiset().count(x) == cv.to_multiset().count(x) by {
            lemma_occurrences_multiset(bv, x);
            lemma_occurrences_multiset(cv, x);
            if bv.contains(x) {
                let k = choose|k: int| 0 <= k < bv.len() && bv[k] == x;
                assert(occurrences(bv, bv[k]) == occurrences(cv, bv[k]));
            } else if cv.contains(x) {
                let k = choose|k: int| 0 <= k < cv.len() && cv[k] == x;
                assert(occurrences(bv, cv[k]) == occurrences(cv, cv[k]));
            } else {
                assert(bv.to_multiset().count(x) == 0);
                assert(cv.to_multiset().count(x) == 0);
            }
        }
        assert(bv.to_multiset() =~= cv.to_multiset());
    }
    Ok(())
}

/// A sequence starts with the given prefix.
pub open spec fn starts_with(s: Seq<char>, prefix: Seq<char>) -> bool {
    prefix.len() <= s.len() && s.take(prefix.len() as int) == prefix
}

/// The sequence with all trailing slashes removed.
pub open spec fn strip_trailing_slashes(s: Seq<char>) -> Seq<char>
    decreases s.len(),
{
    if s.len() > 0 && s.last() == '/' {
        strip_trailing_slashes(s.drop_last())
    } else {
        s
    }
}

/// Validate and normalize a harness base URL: it must start with
/// `http://` or `https://`, and trailing slashes are removed.
pub fn normalize_base_url(url: &str) -> (r: Result<String, OrchestratorError>)
    ensures
        match r {
            Ok(u) => (starts_with(url@, "http://"@) || starts_with(url@, "https://"@)) && u@
                == strip_trailing_slashes(url@),
            Err(e) => {
                &&& !starts_with(url@, "http://"@)
                &&& !starts_with(url@, "https://"@)
                &&& e matches OrchestratorError::InvalidUrl(_)
            },
        },
{
    let v = crate::json::str_to_chars(url);
    proof {
        assert(v@.skip(0) =~= url@);
    }
    let http = crate::json::match_lit(&v, 0, "http://");
    let https = crate::json::match_lit(&v, 0, "https://");
    let valid = match (http, https) {
        (None, None) => false,
        _ => true,
    };
    if !valid {
        let mut msg = String::new();
        msg.append("URL must start with http:// or https://: ");
        msg.append(url);
        return Err(OrchestratorError::InvalidUrl(msg));
    }
    let mut end = v.len();
    while end > 0 && v[end - 1] == '/'
        invariant
            0 <= end <= v@.len(),
            strip_trailing_slashes(v@) == strip_trailing_slashes(v@.take(end as int)),
        decreases end,
    {
        proof {
            assert(v@.take(end as int).last() == v@[end - 1]);
            assert(v@.take(end as int).drop_last() =~= v@.take(end - 1));
        }
        end = end - 1;
    }
    proof {
        if end > 0 {
            assert(v@.take(end as int).last() == v@[end - 1]);
        }
        assert(strip_trailing_slashes(v@.take(end as int)) == v@.take(end as int));
    }
    let mut out = String::new();
    let mut i: usize = 0;
    proof {
        assert(out@ =~= v@.take(0));
    }
    while i < end
        invariant
            0 <= i <= end <= v@.len(),
            out@ == v@.take(i as int),
        decreases end - i,
    {
        proof {
            assert(v@.take(i + 1) =~= v@.take(i as int).push(v@[i as int]));
        }
        out.push(v[i]);
        i = i + 1;
    }
    Ok(out)
}

/// Judge a health response: the harness is ready exactly when it reports
/// a healthy status.
pub fn health_decision(resp: &HealthResponse) -> (r: Result<(), OrchestratorError>)
    ensures
        r is Ok <==> resp.status@ == "healthy"@,
        r matches Err(e) ==> e matches OrchestratorError::HarnessError(_),
{
    let expected = "healthy".to_owned();
    if resp.status == expected {
        Ok(())
    } else {
        let mut msg = String::new();
        msg.append("Unhealthy status: ");
        msg.append(resp.status.as_str());
        Err(OrchestratorError::HarnessError(msg))
    }
}

/// Judge a claim response: success stores nothing; a refusal is a claim
/// conflict carrying the harness's reason, or a fixed message when the
/// harness gave none.
pub fn claim_decision(resp: &ClaimResponse) -> (r: Result<(), OrchestratorError>)
    ensures
        r is Ok <==> resp.success,
        r matches Err(e) ==> e matches OrchestratorError::ClaimError(m) && m@ == (
        match resp.error {
            Some(ref reason) => reason@,
            None => "Unknown claim error"@,
        }),
{
    if resp.success {
        Ok(())
    } else {
        match &resp.error {
            Some(reason) => Err(OrchestratorError::ClaimError(reason.clone())),
            None => Err(OrchestratorError::ClaimError("Unknown claim error".to_owned())),
        }
    }
}

/// Judge a run response: a successful iteration yields its duration; a
/// failed one surfaces the harness's message, or a fixed message when the
/// harness gave none.
pub fn run_response_decision(resp: &RunIterationResponse) -> (r: Result<u64, OrchestratorError>)
    ensures
        resp.success ==> r == Ok::<u64, OrchestratorError>(resp.duration_ns),
        !resp.success ==> (r matches Err(e) && e matches OrchestratorError::HarnessError(m) && m@
            == (match resp.error {
            Some(ref reason) => reason@,
            None => "Unknown error"@,
        })),
{
    if resp.success {
        Ok(resp.duration_ns)
    } else {
        match &resp.error {
            Some(reason) => Err(OrchestratorError::HarnessError(reason.clone())),
            None => Err(OrchestratorError::HarnessError("Unknown error".to_owned())),
        }
    }
}

/// The interval between readiness polls, in milliseconds.
pub const HEALTH_RETRY_INTERVAL_MS: u64 = 100;

/// What the readiness loop should do next.
#[derive(Debug, Clone, Copy, PartialEq, Eq)]
pub enum PollOutcome {
    /// The harness answered healthy: proceed.
    Ready,
    /// Not healthy yet and time remains: sleep one retry interval and
    /// poll again.
    Retry,
    /// The timeout has elapsed without a healthy answer.
    TimedOut,
}

/// One step of the readiness loop: ready on a healthy answer, retry while
/// time remains, and a timeout once the window has elapsed.
pub fn readiness_step(healthy: bool, elapsed_ms: u64, timeout_ms: u64) -> (r: PollOutcome)
    ensures
        healthy ==> r == PollOutcome::Ready,
        !healthy && elapsed_ms < timeout_ms ==> r == PollOutcome::Retry,
        !healthy && elapsed_ms >= timeout_ms ==> r == PollOutcome::TimedOut,
{
    if healthy {
        PollOutcome::Ready
    } else if elapsed_ms < timeout_ms {
        PollOutcome::Retry
    } else {
        PollOutcome::TimedOut
    }
}

/// Configuration of one benchmark comparison run: where the two builds
/// are, how to reach them, and the sampling discipline.
pub struct Orchestrator {
    /// Path to the baseline harness binary.
    pub baseline_binary: String,
    /// Path to the candidate harness binary.
    pub candidate_binary: String,
    /// Base port: the baseline listens here, the candidate one above.
    pub base_port: u16,
    /// How long to wait for each harness to become ready, in
    /// milliseconds.
    pub timeout_ms: u64,
    /// Number of warmup rounds to discard per benchmark.
    pub warmup_iterations: u32,
    /// Number of measured rounds to collect per benchmark.
    pub sample_size: u32,
    /// Pause between interleaved runs, in milliseconds.
    pub interleave_interval_ms: u64,
    /// Whether to surface harness stdout and stderr.
    pub show_output: bool,
}

impl Orchestrator {
    /// Create a new orchestrator configuration.
    pub fn new(
        baseline_binary: String,
        candidate_binary: String,
        base_port: u16,
        timeout_ms: u64,
        warmup_iterations: u32,
        sample_size: u32,
        interleave_interval_ms: u64,
        show_output: bool,
    ) -> (r: Orchestrator)
        ensures
            r == (Orchestrator {
                baseline_binary,
                candidate_binary,
                base_port,
                timeout_ms,
                warmup_iterations,
                sample_size,
                interleave_interval_ms,
                show_output,
            }),
    {
        Orchestrator {
            baseline_binary,
            candidate_binary,
            base_port,
            timeout_ms,
            warmup_iterations,
            sample_size,
            interleave_interval_ms,
            show_output,
        }
    }

    /// The port the candidate harness listens on: one above the base
    /// port.
    pub fn candidate_port(&self) -> (r: u16)
        requires
            self.base_port < u16::MAX,
        ensures
            r == self.base_port + 1,
    {
        self.base_port + 1
    }
}

/// Relies on `uuid::Uuid::new_v4` and the `Display` form of `Uuid`: a
/// fresh random version-4 UUID, rendered in the 36-character hyphenated
/// form.  The value is random, so nothing is promised beyond its length.
#[verifier::external_body]
fn fresh_nonce() -> (r: String)
    ensures
        r@.len() == 36,
{
    uuid::Uuid::new_v4().to_string()
}

/// Build the claim request for one handle: a fresh nonce per claim.  Two
/// calls may yield different nonces.
pub fn make_claim_request() -> (r: ClaimRequest)
    ensures
        r.nonce@.len() == 36,
{
    ClaimRequest::new(fresh_nonce())
}

} // verus!
