//! A content-based game recommendation engine.
//!
//! The engine turns the categorical attributes of games (genres, themes,
//! player perspectives) into indicator rows over a fixed feature vocabulary,
//! derives a weighted preference profile from a user's rated games, and
//! scores and ranks candidate games against that profile. All scores are
//! exact rationals: a candidate's score is `score_num / score_den`, where
//! the denominator is the total signal of the profile.

use vstd::prelude::*;

pub mod cb_filtering;
pub mod enums;
pub mod game_rec;
pub mod igdb;
pub mod numeric;
pub mod util;
pub mod vocab;

verus! {

/// The error conditions of the recommendation pipeline.
#[derive(Debug, Clone, Copy, PartialEq, Eq, Structural)]
pub enum RecError {
    /// The rated-game set carries no usable signal: it is empty, or the
    /// weighted feature sum over the vocabulary is zero.
    UnderdeterminedProfile,
    /// A candidate matrix and a preference profile disagree on the number
    /// of feature columns.
    DimensionMismatch,
}

} // verus!
