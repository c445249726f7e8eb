//! Economic-incentive and accountability core of a proof-of-stake validator
//! set: time-weighted stake accounting shared by validators and their
//! backers, proportional session-reward distribution with round-based
//! halving and a team cut, dividend claims out of per-validator reward
//! pots, a session/era lifecycle state machine, offence buffering with
//! immediate pot-capped slashing, and the round-robin skip-punishment
//! allocator.

pub mod assets;
pub mod aura;
pub mod claims;
pub mod reward;
pub mod session;
pub mod slashing;
pub mod state;
pub mod types;
pub mod weight;
