//! A memory-matching card game: the rules that decide how a round of cards
//! evolves as the player turns them over, how a pair is judged, when a round
//! is complete, and how a fresh round is dealt.

pub mod api;
pub mod models;
pub mod laws;
pub mod sprite;
