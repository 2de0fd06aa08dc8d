//! Core of a chat spam-filter service: a persistent table of keyword rules,
//! a per-sender reputation ledger, and a scripted message scorer.
//!
//! Scores are represented throughout as fixed-point integers in milli-units
//! (a score of `5.0` is the integer `5000`), so that all score arithmetic
//! and the spam threshold comparison are exact integer operations.

pub mod eval;
pub mod laws;
pub mod moderation;
pub mod rules;
pub mod score;
pub mod store;
