//! A minimal puzzle-game contract core: owners store a secret word with a
//! public hint and a reward; callers may query the hint, probe single
//! letters, or guess the whole word to claim the reward.

pub mod error;
pub mod laws;
pub mod logic;
pub mod puzzle;
pub mod router;
pub mod store;
pub mod text;
