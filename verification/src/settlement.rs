//! Settlement: what a winning bet is paid, and the one-time payout of a bet.
//!
//! A winning bet receives its share of both pools, less the fee, in
//! proportion to its part of the winning pool. Products are formed before
//! quotients, in 128 bits, and every quotient is rounded down.

use crate::error::ErrorCode;
use crate::market::{Bet, Market};
use vstd::prelude::*;

verus! {

/// The fee kept from the pools, in basis points: two percent.
pub const FEE_BASIS_POINTS: u64 = 200;

/// The number of basis points in the whole.
pub const BASIS_POINTS: u64 = 10000;

/// What is left of `total_pool` for the winners once the fee is taken.
pub open spec fn pool_after_fee(total_pool: int) -> int {
    total_pool * (BASIS_POINTS - FEE_BASIS_POINTS) / (BASIS_POINTS as int)
}

/// The part of the pools, less the fee, that falls to a winning stake of
/// `amount`, where `winner_pool` is the sum of the winning stakes and
/// `total_pool` the sum of all stakes.
pub open spec fn share(amount: int, winner_pool: int, total_pool: int) -> int {
    amount * pool_after_fee(total_pool) / winner_pool
}

/// Whether a winning stake can be paid: the winning pool is not empty, and
/// both the sum of the pools and the share fit in 64 bits.
pub open spec fn payable(amount: int, winner_pool: int, total_pool: int) -> bool {
    &&& winner_pool > 0
    &&& total_pool <= u64::MAX
    &&& share(amount, winner_pool, total_pool) <= u64::MAX
}

impl Market {
    /// The sum of both pools.
    pub open spec fn total_pool(&self) -> int {
        self.total_up_pool + self.total_down_pool
    }

    /// The pool of the side that won; zero while no outcome is recorded.
    pub open spec fn winner_pool(&self) -> int {
        match self.outcome {
            Some(up) => self.pool(up) as int,
            None => 0,
        }
    }

    /// Why settling `bet` is refused, or `None` if it is paid.
    pub open spec fn claim_refusal(&self, bet: Bet) -> Option<ErrorCode> {
        if !self.resolved {
            Some(ErrorCode::MarketNotResolved)
        } else if bet.claimed {
            Some(ErrorCode::AlreadyClaimed)
        } else if self.outcome != Some(bet.direction) {
            Some(ErrorCode::LostBet)
        } else if !payable(bet.amount as int, self.winner_pool(), self.total_pool()) {
            Some(ErrorCode::MathError)
        } else {
            None
        }
    }

    /// The bet after its settlement was attempted: marked as claimed if it
    /// was paid, unchanged if settlement was refused.
    pub open spec fn after_claim(&self, bet: Bet) -> Bet {
        if self.claim_refusal(bet) is None {
            Bet { claimed: true, ..bet }
        } else {
            bet
        }
    }

    /// What settling `bet` pays: its share, or nothing if it is refused.
    pub open spec fn payout_of(&self, bet: Bet) -> int {
        if self.claim_refusal(bet) is None {
            share(bet.amount as int, self.winner_pool(), self.total_pool())
        } else {
            0
        }
    }
}

/// Computes the payout of a winning stake of `amount`, given the pool of the
/// winning side and the pool of the losing side.
///
/// The result is `amount * (total * 9800 / 10000) / winner_pool`, with
/// `total` the sum of the two pools. `MathError` is returned when the
/// winning pool is empty, when the sum of the pools does not fit in 64 bits,
/// or when the payout does not.
pub fn payout(amount: u64, winner_pool: u64, loser_pool: u64) -> (result: Result<u64, ErrorCode>)
    ensures
        match result {
            Ok(paid) => {
                &&& payable(amount as int, winner_pool as int, winner_pool + loser_pool)
                &&& paid == share(amount as int, winner_pool as int, winner_pool + loser_pool)
            },
            Err(e) => {
                &&& e == ErrorCode::MathError
                &&& !payable(amount as int, winner_pool as int, winner_pool + loser_pool)
            },
        },
{
    if winner_pool == 0 {
        return Err(ErrorCode::MathError);
    }
    let total_pool: u64 = match winner_pool.checked_add(loser_pool) {
        Some(total) => total,
        None => {
            return Err(ErrorCode::MathError);
        },
    };
    let net: u64 = BASIS_POINTS - FEE_BASIS_POINTS;
    assert(total_pool * net == total_pool * 9800 <= u128::MAX) by (nonlinear_arith)
        requires
            total_pool <= u64::MAX,
            net == 9800,
    ;
    let after_fee: u128 = (total_pool as u128) * (net as u128) / (BASIS_POINTS as u128);
    assert(after_fee == pool_after_fee(total_pool as int));
    assert(amount * after_fee <= u128::MAX) by (nonlinear_arith)
        requires
            amount <= u64::MAX,
            after_fee <= u64::MAX,
    ;
    let gross: u128 = (amount as u128) * after_fee / (winner_pool as u128);
    if gross > u64::MAX as u128 {
        return Err(ErrorCode::MathError);
    }
    Ok(gross as u64)
}

/// Settles `bet` against `market`, once.
///
/// Settlement is refused with `MarketNotResolved` while the market is
/// unresolved, else with `AlreadyClaimed` if the bet has been paid, else
/// with `LostBet` if the bet backed the losing side, else with `MathError`
/// if its payout cannot be computed. A refusal leaves the bet as it was.
/// Otherwise the bet is marked as claimed and its payout is returned: the
/// amount to move from the market's vault to the bet's owner.
///
/// The bet is borrowed for the whole of the call, so that two settlements
/// of one bet never overlap: the second sees the mark that the first left.
pub fn claim(market: &Market, bet: &mut Bet) -> (result: Result<u64, ErrorCode>)
    requires
        market.wf(),
    ensures
        match result {
            Ok(paid) => {
                &&& market.claim_refusal(*old(bet)) is None
                &&& paid == share(old(bet).amount as int, market.winner_pool(), market.total_pool())
                &&& paid == market.payout_of(*old(bet))
                &&& *final(bet) == (Bet { claimed: true, ..*old(bet) })
            },
            Err(e) => {
                &&& market.claim_refusal(*old(bet)) == Some(e)
                &&& *final(bet) == *old(bet)
            },
        },
        *final(bet) == market.after_claim(*old(bet)),
{
    if !market.resolved {
        return Err(ErrorCode::MarketNotResolved);
    }
    if bet.claimed {
        return Err(ErrorCode::AlreadyClaimed);
    }
    let outcome = market.outcome.unwrap();
    if bet.direction != outcome {
        return Err(ErrorCode::LostBet);
    }
    let paid = if outcome {
        payout(bet.amount, market.total_up_pool, market.total_down_pool)
    } else {
        payout(bet.amount, market.total_down_pool, market.total_up_pool)
    };
    match paid {
        Ok(amount) => {
            bet.claimed = true;
            Ok(amount)
        },
        Err(e) => Err(e),
    }
}

/// A bet is paid at most once. Once a bet has been settled, every further
/// settlement of it against the same market is refused with
/// `AlreadyClaimed`, pays nothing and leaves the bet marked as claimed.
pub proof fn claim_happens_once(market: Market, bet: Bet)
    requires
        market.wf(),
        market.claim_refusal(bet) is None,
    ensures
        ({
            let settled = market.after_claim(bet);
            &&& settled.claimed
            &&& market.claim_refusal(settled) == Some(ErrorCode::AlreadyClaimed)
            &&& market.payout_of(settled) == 0
            &&& market.after_claim(settled) == settled
        }),
{
}

} // verus!
