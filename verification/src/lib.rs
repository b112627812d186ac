//! Settlement and ledger core of a binary-outcome prediction market.
//!
//! Participants stake on whether an observed price will be at or above a
//! target when a deadline passes. A market is opened, takes stakes into two
//! pools until its deadline, is resolved once with the closing price, and
//! then pays each winning bet its share of both pools, less a fee.
//!
//! The clock, the movement of funds and the storage of records belong to the
//! caller: every operation takes the current time as an argument, works on
//! the records it is handed, and says what is to be paid.
//!
//! - [`market`]: the market record, opening, staking and resolution;
//! - [`settlement`]: the payout formula and the one-time payout of a bet;
//! - [`ledger`]: sums over bets, and the bound on what settlement pays;
//! - [`history`]: what holds of a market after any sequence of calls;
//! - [`error`]: the refusals.

pub mod error;
pub mod history;
pub mod ledger;
pub mod market;
pub mod settlement;

pub use error::ErrorCode;
pub use market::{initialize_market, place_bet, resolve_market, Bet, Market};
pub use settlement::{claim, payout, BASIS_POINTS, FEE_BASIS_POINTS};
