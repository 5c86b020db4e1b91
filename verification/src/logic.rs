//! The four contract operations.
//!
//! Each operation is a pure step over the store's state: it takes the state
//! loaded at call start, acts, and leaves committing to the caller. Every
//! operation has a spec-level model over the store's map, and the executable
//! form returns exactly what the model says.

use vstd::prelude::*;

use crate::error::CallError;
use crate::puzzle::{Puzzle, PuzzleInfo, PuzzleInfoView, PuzzleView, spec_info_of};
use crate::store::{Address, PuzzleStore};
use crate::text::{copy_chars, eq_ignore_ascii_case, matches_ignore_ascii_case, spec_upper_char,
    upper_char};

verus! {

/// The character a letter challenge writes at every position of the word
/// that does not carry the challenged letter.
pub open spec fn mask_char() -> char {
    '-'
}

/// The masked word a letter challenge reveals: positions whose character
/// equals the challenged letter case-insensitively keep their stored
/// character, every other position shows the mask character.
pub open spec fn mask_word(word: Seq<char>, c: char) -> Seq<char> {
    Seq::new(
        word.len(),
        |i: int|
            if spec_upper_char(word[i]) == spec_upper_char(c) {
                word[i]
            } else {
                mask_char()
            },
    )
}

/// Model of `set_puzzle`: the caller's own identity keys the upsert.
pub open spec fn spec_set_puzzle(
    m: Map<Seq<u8>, PuzzleView>,
    caller: Seq<u8>,
    puzzle: PuzzleView,
) -> Map<Seq<u8>, PuzzleView> {
    m.insert(caller, puzzle)
}

/// Model of `get_puzzle_info`: the projection of the puzzle at `a`, or
/// `NotFound` when no puzzle is stored there.
pub open spec fn spec_get_puzzle_info(m: Map<Seq<u8>, PuzzleView>, a: Seq<u8>) -> Result<
    PuzzleInfoView,
    CallError,
> {
    if m.contains_key(a) {
        Ok(spec_info_of(m[a]))
    } else {
        Err(CallError::NotFound)
    }
}

/// Model of `challenge`: an absent letter is `MissingInput`, an unknown
/// address `NotFound`, otherwise the masked word.
pub open spec fn spec_challenge(
    m: Map<Seq<u8>, PuzzleView>,
    a: Seq<u8>,
    letter: Option<char>,
) -> Result<Seq<char>, CallError> {
    match letter {
        Option::None => Err(CallError::MissingInput),
        Option::Some(c) => if m.contains_key(a) {
            Ok(mask_word(m[a].word, c))
        } else {
            Err(CallError::NotFound)
        },
    }
}

/// Model of `guess`: an absent attempt is `MissingInput`, an unknown address
/// `NotFound`; a case-insensitive match pays the reward verbatim, a mismatch
/// is `WrongGuess`.
pub open spec fn spec_guess(
    m: Map<Seq<u8>, PuzzleView>,
    a: Seq<u8>,
    attempt: Option<Seq<char>>,
) -> Result<Seq<char>, CallError> {
    match attempt {
        Option::None => Err(CallError::MissingInput),
        Option::Some(w) => if m.contains_key(a) {
            if eq_ignore_ascii_case(w, m[a].word) {
                Ok(m[a].reward)
            } else {
                Err(CallError::WrongGuess)
            }
        } else {
            Err(CallError::NotFound)
        },
    }
}

/// The value of a lookup result, field by field.
pub open spec fn info_result_view(r: Result<PuzzleInfo, CallError>) -> Result<
    PuzzleInfoView,
    CallError,
> {
    match r {
        Ok(info) => Ok(info@),
        Err(e) => Err(e),
    }
}

/// The value of a text-returning result.
pub open spec fn text_result_view(r: Result<Vec<char>, CallError>) -> Result<
    Seq<char>,
    CallError,
> {
    match r {
        Ok(t) => Ok(t@),
        Err(e) => Err(e),
    }
}

/// The value of an optional text input.
pub open spec fn opt_text_view(o: Option<Vec<char>>) -> Option<Seq<char>> {
    match o {
        Option::Some(t) => Option::Some(t@),
        Option::None => Option::None,
    }
}

/// Allocates the empty puzzle collection; runs exactly once, at deployment.
pub fn initialize() -> (s: PuzzleStore)
    ensures
        s.wf(),
        s@ == Map::<Seq<u8>, PuzzleView>::empty(),
{
    PuzzleStore::new()
}

/// Stores the caller's puzzle under the caller's own identity, overwriting
/// any prior puzzle there; the setter cannot set a puzzle for another
/// identity.
pub fn set_puzzle(store: &mut PuzzleStore, caller: &Address, puzzle: Puzzle)
    requires
        old(store).wf(),
        caller.wf(),
        puzzle.wf(),
    ensures
        final(store).wf(),
        final(store)@ == spec_set_puzzle(old(store)@, caller@, puzzle@),
{
    store.set(caller, puzzle);
}

/// Returns the hint and the word's character-length for the puzzle at
/// `address`, or `NotFound` when no puzzle is stored there.
pub fn get_puzzle_info(store: &PuzzleStore, address: &Address) -> (r: Result<
    PuzzleInfo,
    CallError,
>)
    requires
        store.wf(),
    ensures
        info_result_view(r) == spec_get_puzzle_info(store@, address@),
{
    match store.get(address) {
        Option::Some(p) => Ok(PuzzleInfo { hint: copy_chars(&p.hint), size: p.word.len() }),
        Option::None => Err(CallError::NotFound),
    }
}

/// Reveals where the challenged letter stands in the word at `address`:
/// matching positions keep their stored character, all others are masked.
pub fn challenge(store: &PuzzleStore, address: &Address, letter: Option<char>) -> (r: Result<
    Vec<char>,
    CallError,
>)
    requires
        store.wf(),
    ensures
        text_result_view(r) == spec_challenge(store@, address@, letter),
{
    let c = match letter {
        Option::Some(c) => c,
        Option::None => {
            return Err(CallError::MissingInput);
        },
    };
    match store.get(address) {
        Option::Some(p) => {
            let upper_c = upper_char(c);
            let mut out: Vec<char> = Vec::new();
            let mut i: usize = 0;
            while i < p.word.len()
                invariant
                    i <= p.word@.len(),
                    upper_c == spec_upper_char(c),
                    out@.len() == i,
                    forall|j: int| 0 <= j < i ==> out@[j] == mask_word(p.word@, c)[j],
                decreases p.word@.len() - i,
            {
                let wc = p.word[i];
                if upper_char(wc) == upper_c {
                    out.push(wc);
                } else {
                    out.push('-');
                }
                i = i + 1;
            }
            proof {
                assert(out@ =~= mask_word(p.word@, c));
            }
            Ok(out)
        },
        Option::None => Err(CallError::NotFound),
    }
}

/// Pays out the reward verbatim when the attempt matches the word at
/// `address` case-insensitively; a mismatch is `WrongGuess`.
pub fn guess(store: &PuzzleStore, address: &Address, attempt: Option<Vec<char>>) -> (r: Result<
    Vec<char>,
    CallError,
>)
    requires
        store.wf(),
    ensures
        text_result_view(r) == spec_guess(store@, address@, opt_text_view(attempt)),
{
    let w = match attempt {
        Option::Some(w) => w,
        Option::None => {
            return Err(CallError::MissingInput);
        },
    };
    match store.get(address) {
        Option::Some(p) => {
            if matches_ignore_ascii_case(&w, &p.word) {
                Ok(copy_chars(&p.reward))
            } else {
                Err(CallError::WrongGuess)
            }
        },
        Option::None => Err(CallError::NotFound),
    }
}

} // verus!
