//! Game rules, bidding, trick taking and scoring for Nomination Whist,
//! stated as contracts and proved with Verus.

use vstd::prelude::*;

pub mod ai;
pub mod auth;
pub mod bidding;
pub mod cards;
pub mod comparison;
pub mod game;
pub mod play;
pub mod progress;
pub mod rules;
pub mod scoring;
pub mod summary;
pub mod tricks;

verus! {

/// Identifies a player (or user) by the 128 bits of its UUID.
pub type PlayerId = u128;

/// Identifies a game by the 128 bits of its UUID.
pub type GameId = u128;

/// Identifies a user by the 128 bits of its UUID.
pub type UserId = u128;

} // verus!
