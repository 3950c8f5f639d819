//! What holds of validation and matching for every pattern and identifier, and of a
//! search for every sequence of candidates.

use vstd::prelude::*;
use crate::alphabet::{all_legal, fold_ascii, is_legal};
use crate::error::ValidationError;
use crate::pattern::{
    anchor_fault, lemma_first_illegal, lemma_legal_is_ascii, shown, validated, Pattern,
};
use crate::keypair::KeypairView;
use crate::search::SearchState;
use crate::text::lowercase;

verus! {

/// Whether a raw anchor is one that validation refuses: it is empty or holds a
/// character outside the alphabet.
pub open spec fn is_faulty(raw: Seq<char>) -> bool {
    raw.len() == 0 || !all_legal(raw)
}

/// Validation fails exactly when neither anchor is given, or a given anchor is empty
/// or holds a character outside the alphabet.
pub proof fn lemma_rejection(
    prefix: Option<Seq<char>>,
    suffix: Option<Seq<char>>,
    case_sensitive: bool,
)
    ensures
        validated(prefix, suffix, case_sensitive) is Err <==> {
            ||| prefix is None && suffix is None
            ||| prefix matches Some(p) && is_faulty(p)
            ||| suffix matches Some(s) && is_faulty(s)
        },
        validated(prefix, suffix, case_sensitive) == Err::<Pattern, ValidationError>(
            ValidationError::NoPatternSpecified,
        ) <==> prefix is None && suffix is None,
        validated(prefix, suffix, case_sensitive) != Err::<Pattern, ValidationError>(
            ValidationError::InvalidTargetCount,
        ),
{
    if let Some(p) = prefix {
        lemma_first_illegal(p);
    }
    if let Some(s) = suffix {
        lemma_first_illegal(s);
    }
}

/// A pattern accepts an identifier exactly when the identifier, in compared form,
/// begins with the raw prefix in compared form and ends with the raw suffix in
/// compared form: where case does not count both sides are folded to lower case,
/// where it counts neither is.
pub proof fn lemma_matching_folds_both_sides(
    prefix: Option<Seq<char>>,
    suffix: Option<Seq<char>>,
    case_sensitive: bool,
    identifier: Seq<char>,
)
    requires
        validated(prefix, suffix, case_sensitive) is Ok,
    ensures
        validated(prefix, suffix, case_sensitive)->Ok_0.accepts(identifier) <==> {
            &&& prefix matches Some(p) ==> shown(p, case_sensitive).is_prefix_of(
                shown(identifier, case_sensitive),
            )
            &&& suffix matches Some(s) ==> shown(s, case_sensitive).is_suffix_of(
                shown(identifier, case_sensitive),
            )
        },
        case_sensitive ==> (validated(prefix, suffix, case_sensitive)->Ok_0.accepts(identifier) <==> {
            &&& prefix matches Some(p) ==> p.is_prefix_of(identifier)
            &&& suffix matches Some(s) ==> s.is_suffix_of(identifier)
        }),
        !case_sensitive ==> (validated(prefix, suffix, case_sensitive)->Ok_0.accepts(identifier)
            <==> {
            &&& prefix matches Some(p) ==> lowercase(p).is_prefix_of(lowercase(identifier))
            &&& suffix matches Some(s) ==> lowercase(s).is_suffix_of(lowercase(identifier))
        }),
{
}

/// Folding to lower case a second time changes nothing.
pub proof fn lemma_fold_ascii_idempotent(s: Seq<char>)
    ensures
        fold_ascii(fold_ascii(s)) == fold_ascii(s),
{
    assert(fold_ascii(fold_ascii(s)) =~= fold_ascii(s));
}

/// Whether validating `raw` again after it was put into compared form can succeed:
/// where case counts, always; where it does not, unless `raw` holds an `L`, whose
/// lower-case form is not in the alphabet.
pub open spec fn survives_folding(raw: Option<Seq<char>>, case_sensitive: bool) -> bool {
    case_sensitive || match raw {
        Some(s) => !s.contains('L'),
        None => true,
    }
}

/// Validating the anchors of a validated pattern again gives the same pattern,
/// provided no anchor was folded out of the alphabet.
pub proof fn lemma_validation_idempotent(
    prefix: Option<Seq<char>>,
    suffix: Option<Seq<char>>,
    case_sensitive: bool,
)
    requires
        validated(prefix, suffix, case_sensitive) is Ok,
        survives_folding(prefix, case_sensitive),
        survives_folding(suffix, case_sensitive),
    ensures
        ({
            let pattern = validated(prefix, suffix, case_sensitive)->Ok_0;
            validated(pattern.prefix, pattern.suffix, case_sensitive) == Ok::<
                Pattern,
                ValidationError,
            >(pattern)
        }),
{
    if let Some(p) = prefix {
        lemma_refold(p, case_sensitive);
    }
    if let Some(s) = suffix {
        lemma_refold(s, case_sensitive);
    }
}

proof fn lemma_refold(raw: Seq<char>, case_sensitive: bool)
    requires
        anchor_fault(raw) is None,
        survives_folding(Some(raw), case_sensitive),
    ensures
        anchor_fault(shown(raw, case_sensitive)) is None,
        shown(shown(raw, case_sensitive), case_sensitive) == shown(raw, case_sensitive),
{
    lemma_first_illegal(raw);
    lemma_legal_is_ascii(raw);
    if !case_sensitive {
        let folded = fold_ascii(raw);
        assert forall|i: int| 0 <= i < folded.len() implies is_legal(#[trigger] folded[i]) by {
            assert(is_legal(raw[i]));
            assert(raw.contains(raw[i]));
        }
        lemma_first_illegal(folded);
        lemma_legal_is_ascii(folded);
        lemma_fold_ascii_idempotent(raw);
    }
}

/// An anchor with an `L` in it is kept, where case does not count, in a form that
/// validation refuses: for such patterns a second validation fails.
pub proof fn lemma_folded_l_is_refused(
    prefix: Option<Seq<char>>,
    suffix: Option<Seq<char>>,
    case_sensitive: bool,
)
    requires
        validated(prefix, suffix, case_sensitive) is Ok,
        !survives_folding(prefix, case_sensitive) || !survives_folding(suffix, case_sensitive),
    ensures
        ({
            let pattern = validated(prefix, suffix, case_sensitive)->Ok_0;
            validated(pattern.prefix, pattern.suffix, case_sensitive) is Err
        }),
{
    if let Some(p) = prefix {
        lemma_l_leaves_alphabet(p);
    }
    if let Some(s) = suffix {
        lemma_l_leaves_alphabet(s);
    }
}

proof fn lemma_l_leaves_alphabet(raw: Seq<char>)
    requires
        anchor_fault(raw) is None,
    ensures
        raw.contains('L') ==> anchor_fault(shown(raw, false)) is Some,
{
    lemma_first_illegal(raw);
    lemma_legal_is_ascii(raw);
    if raw.contains('L') {
        let folded = fold_ascii(raw);
        let i = choose|i: int| 0 <= i < raw.len() && raw[i] == 'L';
        assert(folded[i] == 'l');
        assert(!is_legal(folded[i]));
        lemma_first_illegal(folded);
    }
}

/// One step keeps the invariant of a search.
pub proof fn lemma_step_keeps_invariant(state: SearchState, candidate: KeypairView)
    requires
        state.well_formed(),
    ensures
        state.step(candidate).well_formed(),
{
    let next = state.step(candidate);
    if state.pattern.accepts(candidate.public_identifier) {
        assert forall|i: int| 0 <= i < next.results.len() implies next.pattern.accepts(
            (#[trigger] next.results[i]).public_identifier,
        ) by {
            if i < state.results.len() {
                assert(next.results[i] == state.results[i]);
            }
        }
    }
}

/// One step never takes anything back: the pattern and the target stay, the results
/// found before stay where they were, the count of results does not fall, and
/// workers once told to stop stay told. The count of attempts grows by one, unless
/// it stood at the greatest value of 64 bits.
pub proof fn lemma_step_monotone(state: SearchState, candidate: KeypairView)
    requires
        state.well_formed(),
    ensures
        state.step(candidate).pattern == state.pattern,
        state.step(candidate).target_count == state.target_count,
        state.results.is_prefix_of(state.step(candidate).results),
        state.step(candidate).found_count >= state.found_count,
        state.terminated ==> state.step(candidate).terminated,
        state.attempts < u64::MAX ==> state.step(candidate).attempts == state.attempts + 1,
{
}

/// Any number of steps keeps the invariant of a search.
pub proof fn lemma_run_keeps_invariant(state: SearchState, candidates: Seq<KeypairView>)
    requires
        state.well_formed(),
    ensures
        state.run(candidates).well_formed(),
    decreases candidates.len(),
{
    if candidates.len() > 0 {
        lemma_run_keeps_invariant(state, candidates.drop_last());
        lemma_step_keeps_invariant(state.run(candidates.drop_last()), candidates.last());
    }
}

/// For the whole of a run the counters do not fall and the workers, once told to
/// stop, stay told: this holds between the state before any candidates and the
/// state after them. The count of attempts is the number of candidates tried, as
/// long as that fits in 64 bits.
pub proof fn lemma_run_monotone(state: SearchState, candidates: Seq<KeypairView>)
    requires
        state.well_formed(),
    ensures
        state.run(candidates).pattern == state.pattern,
        state.run(candidates).target_count == state.target_count,
        state.results.is_prefix_of(state.run(candidates).results),
        state.run(candidates).found_count >= state.found_count,
        state.run(candidates).found_count <= state.found_count + candidates.len(),
        state.terminated ==> state.run(candidates).terminated,
        state.attempts + candidates.len() <= u64::MAX ==> state.run(candidates).attempts
            == state.attempts + candidates.len(),
    decreases candidates.len(),
{
    if candidates.len() > 0 {
        let before = state.run(candidates.drop_last());
        lemma_run_monotone(state, candidates.drop_last());
        lemma_run_keeps_invariant(state, candidates.drop_last());
        lemma_step_monotone(before, candidates.last());
    }
}

/// A run in two parts is the run of the first part followed by the run of the
/// second.
pub proof fn lemma_run_in_parts(
    state: SearchState,
    first: Seq<KeypairView>,
    second: Seq<KeypairView>,
)
    ensures
        state.run(first + second) == state.run(first).run(second),
    decreases second.len(),
{
    if second.len() == 0 {
        assert(first + second =~= first);
    } else {
        assert((first + second).drop_last() =~= first + second.drop_last());
        assert((first + second).last() == second.last());
        lemma_run_in_parts(state, first, second.drop_last());
    }
}

/// Workers are told to stop only when enough was found: a search that has been told
/// to stop holds at least as many results as were asked for. It may hold more.
pub proof fn lemma_stopped_search_has_enough(
    pattern: Pattern,
    target_count: nat,
    candidates: Seq<KeypairView>,
)
    requires
        pattern.well_formed(),
        target_count >= 1,
    ensures
        ({
            let end = SearchState::initial(pattern, target_count).run(candidates);
            &&& end.well_formed()
            &&& end.terminated <==> end.results.len() >= target_count
        }),
{
    lemma_run_keeps_invariant(SearchState::initial(pattern, target_count), candidates);
    lemma_run_monotone(SearchState::initial(pattern, target_count), candidates);
}

/// A match that arrives after the workers were told to stop is recorded all the
/// same, so a search may end with more results than were asked for.
pub proof fn lemma_late_match_is_kept(state: SearchState, candidate: KeypairView)
    requires
        state.well_formed(),
        state.terminated,
        state.pattern.accepts(candidate.public_identifier),
    ensures
        state.step(candidate).results == state.results.push(candidate),
        state.step(candidate).results.len() > state.target_count,
        state.step(candidate).terminated,
{
}

/// In a search that started from nothing, no more was found than was tried, as long
/// as the number of candidates fits in 64 bits.
pub proof fn lemma_attempts_cover_found(
    pattern: Pattern,
    target_count: nat,
    candidates: Seq<KeypairView>,
)
    requires
        pattern.well_formed(),
        target_count >= 1,
        candidates.len() <= u64::MAX,
    ensures
        ({
            let end = SearchState::initial(pattern, target_count).run(candidates);
            &&& end.attempts == candidates.len()
            &&& end.found_count <= end.attempts
        }),
{
    lemma_run_monotone(SearchState::initial(pattern, target_count), candidates);
}

/// Every result of a search is accepted by its pattern.
pub proof fn lemma_results_match(state: SearchState, i: int)
    requires
        state.well_formed(),
        0 <= i < state.results.len(),
    ensures
        state.pattern.accepts(state.results[i].public_identifier),
{
}

} // verus!
