//! The search: the state that the workers share, the step that one candidate takes
//! through it, and the loop of a worker.
//!
//! A step is taken with exclusive access to the state, and it appends a match, counts
//! it and tells the workers to stop all at once. So the workers have been told to
//! stop exactly when the count has reached the target. Workers look at that only
//! before they draw a candidate: one that was already drawing takes its candidate
//! through all the same, and a search may end with more results than were asked for.

use vstd::prelude::*;
use crate::error::ValidationError;
use crate::keypair::{fresh_keypair, Keypair, KeypairView, KEYPAIR_LENGTH};
use crate::laws::{lemma_rejection, lemma_run_monotone};
use crate::num_cpus::get;
use crate::pattern::{text_of, validated, Pattern, VanityMatcher};

verus! {

/// The state of a search, as a mathematical value.
pub struct SearchState {
    /// The pattern that results must match.
    pub pattern: Pattern,
    /// The number of results asked for.
    pub target_count: nat,
    /// Whether the workers have been told to stop.
    pub terminated: bool,
    /// The number of candidates tried, counted in 64 bits.
    pub attempts: nat,
    /// The number of results found.
    pub found_count: nat,
    /// The results, in the order in which they were found.
    pub results: Seq<KeypairView>,
}

impl SearchState {
    /// The invariant of a search: at least one result is asked for; the count of
    /// results is the length of the results; the workers have been told to stop
    /// exactly when the count has reached the target; and the pattern accepts the
    /// identifier of every result.
    pub open spec fn well_formed(self) -> bool {
        &&& self.pattern.well_formed()
        &&& self.target_count >= 1
        &&& self.attempts <= u64::MAX
        &&& self.found_count == self.results.len()
        &&& self.terminated <==> self.found_count >= self.target_count
        &&& forall|i: int|
            0 <= i < self.results.len() ==> self.pattern.accepts(
                (#[trigger] self.results[i]).public_identifier,
            )
    }

    /// The state in which a search starts.
    pub open spec fn initial(pattern: Pattern, target_count: nat) -> SearchState {
        SearchState {
            pattern,
            target_count,
            terminated: false,
            attempts: 0,
            found_count: 0,
            results: Seq::empty(),
        }
    }

    /// The state after one more candidate was counted. The counter has 64 bits and
    /// starts again at zero after its greatest value.
    pub open spec fn count_attempt(self) -> SearchState {
        SearchState {
            attempts: if self.attempts >= u64::MAX {
                0
            } else {
                self.attempts + 1
            },
            ..self
        }
    }

    /// The state after `found` was appended to the results and counted, and the
    /// workers were told to stop if the count has reached the target.
    pub open spec fn report(self, found: KeypairView) -> SearchState {
        SearchState {
            results: self.results.push(found),
            found_count: self.found_count + 1,
            terminated: self.terminated || self.found_count + 1 >= self.target_count,
            ..self
        }
    }

    /// The state after the candidate `candidate` went through: it is counted, and
    /// reported if the pattern accepts its identifier. Whether the workers were
    /// already told to stop makes no difference to this.
    pub open spec fn step(self, candidate: KeypairView) -> SearchState {
        if self.pattern.accepts(candidate.public_identifier) {
            self.count_attempt().report(candidate)
        } else {
            self.count_attempt()
        }
    }

    /// The state after the candidates `candidates` went through, one after the other.
    pub open spec fn run(self, candidates: Seq<KeypairView>) -> SearchState
        decreases candidates.len(),
    {
        if candidates.len() == 0 {
            self
        } else {
            self.run(candidates.drop_last()).step(candidates.last())
        }
    }
}

/// The views of the key pairs `pairs`, in order.
pub open spec fn views_of(pairs: Seq<Keypair>) -> Seq<KeypairView> {
    Seq::new(pairs.len(), |i: int| pairs[i]@)
}

/// What a finished search reports besides its results.
#[derive(Clone, Copy, Debug, PartialEq, Eq)]
pub struct SearchStats {
    /// The number of candidates tried.
    pub total_attempts: u64,
    /// The time the search took, in nanoseconds.
    pub elapsed_nanos: u128,
    /// The number of results found.
    pub results_found: usize,
}

/// The part of a search that changes while it runs.
struct Progress {
    terminated: bool,
    attempts: u64,
    found_count: usize,
    results: Vec<Keypair>,
}

impl Progress {
    spec fn state(&self, pattern: Pattern, target_count: nat) -> SearchState {
        SearchState {
            pattern,
            target_count,
            terminated: self.terminated,
            attempts: self.attempts as nat,
            found_count: self.found_count as nat,
            results: views_of(self.results@),
        }
    }

    /// The progress of a search that has tried nothing yet.
    fn fresh() -> (r: Progress)
        ensures
            !r.terminated,
            r.attempts == 0,
            r.found_count == 0,
            r.results@.len() == 0,
            forall|pattern: Pattern, target_count: nat| #[trigger]
                r.state(pattern, target_count) == SearchState::initial(pattern, target_count),
    {
        let r = Progress { terminated: false, attempts: 0, found_count: 0, results: Vec::new() };
        assert(views_of(r.results@) =~= Seq::<KeypairView>::empty());
        r
    }

    fn step(&mut self, matcher: &VanityMatcher, target_count: usize, candidate: Keypair)
        requires
            old(self).state(matcher@, target_count as nat).well_formed(),
        ensures
            final(self).state(matcher@, target_count as nat) == old(self).state(
                matcher@,
                target_count as nat,
            ).step(candidate@),
            final(self).state(matcher@, target_count as nat).well_formed(),
    {
        let ghost before = self.state(matcher@, target_count as nat);
        self.attempts = if self.attempts == u64::MAX {
            0
        } else {
            self.attempts + 1
        };
        if matcher.matches(candidate.public_identifier.as_str()) {
            let ghost found = candidate@;
            self.results.push(candidate);
            assert(self.results.len() == self.results@.len());
            self.found_count = self.found_count + 1;
            if self.found_count >= target_count {
                self.terminated = true;
            }
            assert(views_of(self.results@) =~= before.results.push(found));
        }
    }
}

/// A search in progress: the pattern, the number of results asked for, and what has
/// been tried and found so far.
pub struct Coordinator {
    matcher: VanityMatcher,
    target_count: usize,
    progress: Progress,
}

impl View for Coordinator {
    type V = SearchState;

    closed spec fn view(&self) -> SearchState {
        self.progress.state(self.matcher@, self.target_count as nat)
    }
}

impl Coordinator {
    #[verifier::type_invariant]
    spec fn valid(&self) -> bool {
        self@.well_formed()
    }

    /// Starts a search for `target_count` results that `matcher` accepts. A target of
    /// zero is refused.
    pub fn new(matcher: VanityMatcher, target_count: usize) -> (r: Result<
        Coordinator,
        ValidationError,
    >)
        ensures
            target_count == 0 ==> r == Err::<Coordinator, ValidationError>(
                ValidationError::InvalidTargetCount,
            ),
            target_count > 0 ==> r is Ok && r->Ok_0@ == SearchState::initial(
                matcher@,
                target_count as nat,
            ) && r->Ok_0@.well_formed(),
    {
        if target_count == 0 {
            return Err(ValidationError::InvalidTargetCount);
        }
        proof {
            use_type_invariant(&matcher);
        }
        let progress = Progress::fresh();
        Ok(Coordinator { matcher, target_count, progress })
    }

    /// Validates a whole configuration and starts the search for it. A target of zero
    /// is reported before any fault of the pattern.
    pub fn configure(
        prefix: Option<String>,
        suffix: Option<String>,
        case_sensitive: bool,
        target_count: usize,
    ) -> (r: Result<Coordinator, ValidationError>)
        ensures
            r == Err::<Coordinator, ValidationError>(ValidationError::InvalidTargetCount)
                <==> target_count == 0,
            target_count > 0 ==> match validated(text_of(prefix), text_of(suffix), case_sensitive) {
                Ok(pattern) => r is Ok && r->Ok_0@ == SearchState::initial(
                    pattern,
                    target_count as nat,
                ) && r->Ok_0@.well_formed(),
                Err(e) => r == Err::<Coordinator, ValidationError>(e),
            },
    {
        if target_count == 0 {
            return Err(ValidationError::InvalidTargetCount);
        }
        match VanityMatcher::new(prefix, suffix, case_sensitive) {
            Ok(matcher) => Coordinator::new(matcher, target_count),
            Err(e) => {
                proof {
                    lemma_rejection(text_of(prefix), text_of(suffix), case_sensitive);
                }
                Err(e)
            },
        }
    }

    /// Takes one candidate through the search: counts it, and where the pattern
    /// accepts its identifier appends it to the results and tells the workers to
    /// stop once the target is reached.
    pub fn step(&mut self, candidate: Keypair)
        ensures
            final(self)@ == old(self)@.step(candidate@),
            final(self)@.well_formed(),
    {
        proof {
            use_type_invariant(&*self);
        }
        let mut progress = Progress::fresh();
        core::mem::swap(&mut self.progress, &mut progress);
        progress.step(&self.matcher, self.target_count, candidate);
        self.progress = progress;
    }

    /// The matcher that results must satisfy.
    pub fn matcher(&self) -> (r: &VanityMatcher)
        ensures
            r@ == self@.pattern,
    {
        &self.matcher
    }

    /// The number of results asked for.
    pub fn target_count(&self) -> (r: usize)
        ensures
            r == self@.target_count,
    {
        self.target_count
    }

    /// Whether the workers have been told to stop.
    pub fn is_terminated(&self) -> (r: bool)
        ensures
            r == self@.terminated,
    {
        self.progress.terminated
    }

    /// The number of candidates tried so far.
    pub fn attempts(&self) -> (r: u64)
        ensures
            r == self@.attempts,
    {
        self.progress.attempts
    }

    /// The number of results found so far.
    pub fn found_count(&self) -> (r: usize)
        ensures
            r == self@.found_count,
    {
        self.progress.found_count
    }

    /// The results found so far, in the order in which they were found.
    pub fn results(&self) -> (r: &Vec<Keypair>)
        ensures
            views_of(r@) == self@.results,
    {
        &self.progress.results
    }

    /// The statistics of the search as it stands, for a run that took
    /// `elapsed_nanos` nanoseconds.
    pub fn stats(&self, elapsed_nanos: u128) -> (r: SearchStats)
        ensures
            r.total_attempts == self@.attempts,
            r.elapsed_nanos == elapsed_nanos,
            r.results_found == self@.found_count,
            r.results_found == self@.results.len(),
    {
        proof {
            use_type_invariant(self);
        }
        SearchStats {
            total_attempts: self.progress.attempts,
            elapsed_nanos,
            results_found: self.progress.found_count,
        }
    }

    /// Ends the search and hands out its results with the statistics of a run that
    /// took `elapsed_nanos` nanoseconds.
    pub fn finish(self, elapsed_nanos: u128) -> (r: (Vec<Keypair>, SearchStats))
        ensures
            views_of(r.0@) == self@.results,
            r.1.total_attempts == self@.attempts,
            r.1.elapsed_nanos == elapsed_nanos,
            r.1.results_found == r.0@.len(),
            self@.terminated ==> r.0@.len() >= self@.target_count,
    {
        proof {
            use_type_invariant(&self);
        }
        let stats = self.stats(elapsed_nanos);
        (self.progress.results, stats)
    }
}

/// The loop of one worker: as long as the workers have not been told to stop, and
/// for at most `budget` candidates, draws a key pair at random and takes it through
/// the search. Returns the number of candidates drawn.
pub fn generate_vanity_address(coordinator: &mut Coordinator, budget: u64) -> (spent: u64)
    ensures
        spent <= budget,
        final(coordinator)@.terminated || spent == budget,
        old(coordinator)@.terminated ==> spent == 0,
        final(coordinator)@.well_formed(),
        final(coordinator)@.pattern == old(coordinator)@.pattern,
        final(coordinator)@.target_count == old(coordinator)@.target_count,
        old(coordinator)@.results.is_prefix_of(final(coordinator)@.results),
        final(coordinator)@.found_count >= old(coordinator)@.found_count,
        old(coordinator)@.attempts + spent <= u64::MAX ==> final(coordinator)@.attempts == old(
            coordinator,
        )@.attempts + spent,
        exists|candidates: Seq<KeypairView>|
            {
                &&& candidates.len() == spent
                &&& #[trigger] old(coordinator)@.run(candidates) == final(coordinator)@
                &&& forall|i: int|
                    0 <= i < spent ==> (#[trigger] candidates[i]).private_material.len()
                        == KEYPAIR_LENGTH
                &&& forall|n: int|
                    0 <= n < spent ==> !(#[trigger] old(coordinator)@.run(
                        candidates.take(n),
                    )).terminated
            },
{
    proof {
        use_type_invariant(&*coordinator);
    }
    let mut spent: u64 = 0;
    let ghost mut drawn: Seq<KeypairView> = Seq::empty();
    while spent < budget && !coordinator.is_terminated()
        invariant
            spent <= budget,
            drawn.len() == spent,
            coordinator@.well_formed(),
            old(coordinator)@.run(drawn) == coordinator@,
            forall|i: int|
                0 <= i < spent ==> (#[trigger] drawn[i]).private_material.len() == KEYPAIR_LENGTH,
            forall|n: int|
                0 <= n < spent ==> !(#[trigger] old(coordinator)@.run(drawn.take(n))).terminated,
        decreases budget - spent,
    {
        let candidate = fresh_keypair();
        proof {
            let longer = drawn.push(candidate@);
            assert(longer.drop_last() =~= drawn);
            assert(longer.take(spent as int) =~= drawn);
            assert forall|n: int| 0 <= n < spent + 1 implies !(#[trigger] old(coordinator)@.run(
                longer.take(n),
            )).terminated by {
                if n < spent {
                    assert(longer.take(n) =~= drawn.take(n));
                }
            }
            drawn = longer;
        }
        coordinator.step(candidate);
        spent = spent + 1;
    }
    proof {
        lemma_run_monotone(old(coordinator)@, drawn);
        if old(coordinator)@.terminated && spent > 0 {
            assert(drawn.take(0) =~= Seq::<KeypairView>::empty());
            assert(!old(coordinator)@.run(drawn.take(0)).terminated);
        }
    }
    spent
}

/// The number of workers to run: the number asked for, or else the number of
/// execution units that the host offers, or else one.
pub fn worker_count(requested: Option<usize>, available: Option<usize>) -> (r: usize)
    ensures
        r == match (requested, available) {
            (Some(n), _) => n,
            (None, Some(n)) => n,
            (None, None) => 1,
        },
{
    match requested {
        Some(n) => n,
        None => get(available),
    }
}

} // verus!
