//! The ways in which an operation on a market or a bet is refused.

use vstd::prelude::*;

verus! {

/// Why an operation was refused. A refused operation changes nothing.
#[derive(Debug, Clone, Copy, PartialEq, Eq, Structural)]
pub enum ErrorCode {
    /// A stake was submitted at or after the market's deadline.
    MarketClosed,
    /// Resolution was attempted before the market's deadline.
    MarketNotEnded,
    /// Resolution was attempted on a market that is already resolved.
    MarketAlreadyResolved,
    /// Settlement was attempted before the market was resolved.
    MarketNotResolved,
    /// Settlement was attempted on a bet that has already been paid out.
    AlreadyClaimed,
    /// Settlement was attempted on a bet that backed the losing side.
    LostBet,
    /// An amount does not fit its integer type, or the winning pool is empty.
    MathError,
}

} // verus!
