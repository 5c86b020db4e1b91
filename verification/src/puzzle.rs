//! The puzzle record and its read-only projection.
//!
//! A `Puzzle` holds a public hint, the secret word, and the reward handed to
//! a successful guesser. A `PuzzleInfo` is the projection shown to callers:
//! the hint together with the character-length of the word, never the word
//! itself.

use vstd::prelude::*;

verus! {

/// The mathematical value of a [`Puzzle`]: its three texts as sequences.
pub ghost struct PuzzleView {
    pub hint: Seq<char>,
    pub word: Seq<char>,
    pub reward: Seq<char>,
}

/// One stored puzzle: a public hint, the secret word, and the reward.
pub struct Puzzle {
    pub hint: Vec<char>,
    pub word: Vec<char>,
    pub reward: Vec<char>,
}

impl View for Puzzle {
    type V = PuzzleView;

    open spec fn view(&self) -> PuzzleView {
        PuzzleView { hint: self.hint@, word: self.word@, reward: self.reward@ }
    }
}

impl Puzzle {
    /// A puzzle is well formed when its secret word is non-empty.
    pub open spec fn wf(&self) -> bool {
        self.word@.len() > 0
    }
}

/// The mathematical value of a [`PuzzleInfo`].
pub ghost struct PuzzleInfoView {
    pub hint: Seq<char>,
    pub size: nat,
}

/// The projection of a puzzle that lookups return: the hint and the
/// character-length of the secret word.
pub struct PuzzleInfo {
    pub hint: Vec<char>,
    pub size: usize,
}

impl View for PuzzleInfo {
    type V = PuzzleInfoView;

    open spec fn view(&self) -> PuzzleInfoView {
        PuzzleInfoView { hint: self.hint@, size: self.size as nat }
    }
}

/// The projection of a puzzle view: hint kept, size is the word's length.
pub open spec fn spec_info_of(p: PuzzleView) -> PuzzleInfoView {
    PuzzleInfoView { hint: p.hint, size: p.word.len() }
}

impl vstd::std_specs::convert::FromSpecImpl<Puzzle> for PuzzleInfo {
    open spec fn obeys_from_spec() -> bool {
        true
    }

    open spec fn from_spec(puzzle: Puzzle) -> PuzzleInfo {
        PuzzleInfo { hint: puzzle.hint, size: puzzle.word@.len() as usize }
    }
}

impl core::convert::From<Puzzle> for PuzzleInfo {
    fn from(puzzle: Puzzle) -> (r: PuzzleInfo) {
        let Puzzle { hint, word, .. } = puzzle;
        PuzzleInfo { hint, size: word.len() }
    }
}

} // verus!
