//! The rules engine of a two-player, turn-based trading-card game.
//!
//! `cards` holds the catalog of card types, `card_type` the card types and the
//! interpreter of their effects, `state` one player's zones with the legal moves
//! and their application, `board` the two-sided table with its front and back
//! rows, and `laws` what holds of the state machine in every state.

pub mod board;
pub mod card_type;
pub mod cards;
pub mod laws;
pub mod state;
