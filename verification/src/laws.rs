//! Laws of the contract: what holds of the operations' models for every
//! store, address and puzzle.

use vstd::prelude::*;

use crate::error::CallError;
use crate::logic::{mask_char, mask_word, spec_challenge, spec_get_puzzle_info, spec_guess,
    spec_set_puzzle};
use crate::puzzle::{PuzzleInfoView, PuzzleView};
use crate::router::{spec_dispatch_state, spec_resolve, Operation};
use crate::text::{eq_ignore_ascii_case, spec_upper_char};

verus! {

/// After an owner stores a puzzle, looking that owner up returns the
/// puzzle's hint and the character-length of its word.
pub proof fn lemma_set_then_info(m: Map<Seq<u8>, PuzzleView>, a: Seq<u8>, p: PuzzleView)
    ensures
        spec_get_puzzle_info(spec_set_puzzle(m, a, p), a) == Ok::<PuzzleInfoView, CallError>(
            PuzzleInfoView { hint: p.hint, size: p.word.len() },
        ),
{
}

/// At an address where no puzzle was ever stored, lookup, challenge and
/// guess all fail with `NotFound`.
pub proof fn lemma_absent_address(m: Map<Seq<u8>, PuzzleView>, a: Seq<u8>, c: char, w: Seq<char>)
    requires
        !m.contains_key(a),
    ensures
        spec_get_puzzle_info(m, a) == Err::<PuzzleInfoView, CallError>(CallError::NotFound),
        spec_challenge(m, a, Some(c)) == Err::<Seq<char>, CallError>(CallError::NotFound),
        spec_guess(m, a, Some(w)) == Err::<Seq<char>, CallError>(CallError::NotFound),
{
}

/// A challenge's output is as long as the stored word; every position that
/// carries the challenged letter, case-insensitively, keeps its stored
/// character, and every other position shows the mask character.
pub proof fn lemma_challenge_mask(m: Map<Seq<u8>, PuzzleView>, a: Seq<u8>, c: char)
    requires
        m.contains_key(a),
    ensures
        spec_challenge(m, a, Some(c)) is Ok,
        spec_challenge(m, a, Some(c))->Ok_0.len() == m[a].word.len(),
        forall|i: int|
            0 <= i < m[a].word.len() ==> #[trigger] spec_challenge(m, a, Some(c))->Ok_0[i] == (
            if spec_upper_char(m[a].word[i]) == spec_upper_char(c) {
                m[a].word[i]
            } else {
                mask_char()
            }),
{
    assert(spec_challenge(m, a, Some(c))->Ok_0 == mask_word(m[a].word, c));
}

/// A guess succeeds exactly when it matches the stored word
/// case-insensitively; success pays the reward verbatim, a mismatch fails
/// with `WrongGuess`.
pub proof fn lemma_guess_iff(m: Map<Seq<u8>, PuzzleView>, a: Seq<u8>, w: Seq<char>)
    requires
        m.contains_key(a),
    ensures
        (spec_guess(m, a, Some(w)) is Ok) <==> eq_ignore_ascii_case(w, m[a].word),
        spec_guess(m, a, Some(w)) is Ok ==> spec_guess(m, a, Some(w))->Ok_0 == m[a].reward,
        !eq_ignore_ascii_case(w, m[a].word) ==> spec_guess(m, a, Some(w)) == Err::<
            Seq<char>,
            CallError,
        >(CallError::WrongGuess),
{
}

/// Without an intervening store mutation, repeated lookups of the same
/// address return identical results.
pub proof fn lemma_info_idempotent(
    m: Map<Seq<u8>, PuzzleView>,
    a: Seq<u8>,
    r1: Result<PuzzleInfoView, CallError>,
    r2: Result<PuzzleInfoView, CallError>,
)
    requires
        r1 == spec_get_puzzle_info(m, a),
        r2 == spec_get_puzzle_info(m, a),
    ensures
        r1 == r2,
{
}

/// A routed call whose selector is not `set_puzzle` leaves the store as it
/// was.
pub proof fn lemma_reads_leave_state(
    m: Map<Seq<u8>, PuzzleView>,
    caller: Seq<u8>,
    selector: u32,
    payload: Seq<u8>,
)
    requires
        spec_resolve(selector) != Some(Operation::SetPuzzle),
    ensures
        spec_dispatch_state(m, caller, selector, payload) == m,
{
}

/// Storing twice at the same owner leaves only the second puzzle visible:
/// no history is kept.
pub proof fn lemma_overwrite(
    m: Map<Seq<u8>, PuzzleView>,
    a: Seq<u8>,
    p1: PuzzleView,
    p2: PuzzleView,
)
    ensures
        spec_set_puzzle(spec_set_puzzle(m, a, p1), a, p2) == spec_set_puzzle(m, a, p2),
        spec_get_puzzle_info(spec_set_puzzle(spec_set_puzzle(m, a, p1), a, p2), a)
            == spec_get_puzzle_info(spec_set_puzzle(m, a, p2), a),
{
    assert(spec_set_puzzle(spec_set_puzzle(m, a, p1), a, p2) =~= spec_set_puzzle(m, a, p2));
}

} // verus!
