//! The ledger of a market: sums over the bets placed on it, and the bound
//! that settlement keeps on what leaves the pools.

use crate::market::{Bet, Market};
use crate::settlement::{payable, pool_after_fee, share, BASIS_POINTS, FEE_BASIS_POINTS};
use vstd::prelude::*;

verus! {

/// The sum of the amounts of those of `bets` that back `direction`.
pub open spec fn staked(bets: Seq<Bet>, direction: bool) -> int
    decreases bets.len(),
{
    if bets.len() == 0 {
        0
    } else {
        staked(bets.drop_last(), direction) + if bets.last().direction == direction {
            bets.last().amount as int
        } else {
            0
        }
    }
}

/// The sum of what settling each of `bets` once against `market` pays.
pub open spec fn paid_out(market: Market, bets: Seq<Bet>) -> int
    decreases bets.len(),
{
    if bets.len() == 0 {
        0
    } else {
        paid_out(market, bets.drop_last()) + market.payout_of(bets.last())
    }
}

/// Rounding down never gains: the quotients of two amounts add up to no more
/// than the quotient of their sum.
proof fn lemma_quotients_add_up(x: int, y: int, d: int)
    by (nonlinear_arith)
    requires
        0 <= x,
        0 <= y,
        0 < d,
    ensures
        x / d + y / d <= (x + y) / d,
{
    assert(x == d * (x / d) + x % d && 0 <= x % d < d);
    assert(y == d * (y / d) + y % d && 0 <= y % d < d);
    assert(x + y == d * (x / d + y / d) + (x % d + y % d));
    let q = (x + y) / d;
    assert(x + y == d * q + (x + y) % d && 0 <= (x + y) % d < d);
    if q < x / d + y / d {
        assert(d * (q + 1) <= d * (x / d + y / d));
    }
}

/// A larger stake has no smaller share of the same pool.
proof fn lemma_share_grows(small: int, large: int, pool: int, d: int)
    by (nonlinear_arith)
    requires
        0 <= small <= large,
        0 <= pool,
        0 < d,
    ensures
        small * pool / d <= large * pool / d,
        0 <= small * pool / d,
{
    assert(small * pool <= large * pool);
    assert(0 <= small * pool);
    let a = small * pool;
    let b = large * pool;
    assert(a == d * (a / d) + a % d && 0 <= a % d < d);
    assert(b == d * (b / d) + b % d && 0 <= b % d < d);
    if b / d < a / d {
        assert(d * (b / d + 1) <= d * (a / d));
    }
}

/// The whole of the winning pool is owed the whole of what is left after
/// the fee, and what is left is at most 98 hundredths of the pools.
proof fn lemma_whole_share(winner_pool: int, total_pool: int)
    requires
        0 < winner_pool,
        0 <= total_pool,
    ensures
        share(winner_pool, winner_pool, total_pool) == pool_after_fee(total_pool),
        0 <= pool_after_fee(total_pool),
        BASIS_POINTS * pool_after_fee(total_pool) <= (BASIS_POINTS - FEE_BASIS_POINTS)
            * total_pool,
{
    let left = pool_after_fee(total_pool);
    assert(winner_pool * left / winner_pool == left) by (nonlinear_arith)
        requires
            0 < winner_pool,
    ;
}

/// What is staked on a side is never negative.
proof fn lemma_staked_nonnegative(bets: Seq<Bet>, direction: bool)
    ensures
        0 <= staked(bets, direction),
    decreases bets.len(),
{
    if bets.len() > 0 {
        lemma_staked_nonnegative(bets.drop_last(), direction);
    }
}

/// What settling `bets` pays is at most the share of their winning stakes.
proof fn lemma_paid_out_within_share(market: Market, bets: Seq<Bet>, up: bool)
    requires
        market.outcome == Some(up),
        market.winner_pool() > 0,
    ensures
        0 <= paid_out(market, bets) <= share(
            staked(bets, up),
            market.winner_pool(),
            market.total_pool(),
        ),
    decreases bets.len(),
{
    let winners = market.winner_pool();
    let left = pool_after_fee(market.total_pool());
    lemma_whole_share(winners, market.total_pool());
    lemma_staked_nonnegative(bets, up);
    if bets.len() == 0 {
        lemma_share_grows(0, 0, left, winners);
    } else {
        let before = bets.drop_last();
        let bet = bets.last();
        lemma_paid_out_within_share(market, before, up);
        lemma_staked_nonnegative(before, up);
        if market.claim_refusal(bet) is None {
            let amount = bet.amount as int;
            let earlier = staked(before, up);
            assert((earlier + amount) * left == earlier * left + amount * left && 0 <= earlier
                * left && 0 <= amount * left) by (nonlinear_arith)
                requires
                    0 <= earlier,
                    0 <= amount,
                    0 <= left,
            ;
            lemma_quotients_add_up(earlier * left, amount * left, winners);
        } else {
            lemma_share_grows(staked(before, up), staked(bets, up), left, winners);
        }
    }
}

/// Nothing is paid against a market whose winning pool is empty.
proof fn lemma_nothing_paid_without_winners(market: Market, bets: Seq<Bet>)
    requires
        market.winner_pool() <= 0,
    ensures
        paid_out(market, bets) == 0,
    decreases bets.len(),
{
    if bets.len() > 0 {
        lemma_nothing_paid_without_winners(market, bets.drop_last());
    }
}

/// Each bet is part of what is staked on its side.
pub proof fn bet_is_part_of_the_stakes(bets: Seq<Bet>, k: int)
    requires
        0 <= k < bets.len(),
    ensures
        bets[k].amount <= staked(bets, bets[k].direction),
    decreases bets.len(),
{
    let before = bets.drop_last();
    lemma_staked_nonnegative(before, bets[k].direction);
    if k < bets.len() - 1 {
        bet_is_part_of_the_stakes(before, k);
        assert(before[k] == bets[k]);
    }
}

/// A stake that is part of the winning pool can be paid whenever the two
/// pools together fit in 64 bits, and is paid no more than what is left of
/// the pools after the fee.
pub proof fn stake_within_pool_is_payable(amount: int, winner_pool: int, total_pool: int)
    requires
        0 <= amount <= winner_pool,
        0 < winner_pool,
        0 <= total_pool <= u64::MAX,
    ensures
        payable(amount, winner_pool, total_pool),
        0 <= share(amount, winner_pool, total_pool) <= pool_after_fee(total_pool) <= total_pool,
{
    lemma_whole_share(winner_pool, total_pool);
    lemma_share_grows(amount, winner_pool, pool_after_fee(total_pool), winner_pool);
}

/// Settlement conserves the pools. If the winning bets among `bets` stake no
/// more than the market's winning pool holds, as is the case for any bets
/// that the market accepted, then settling each of them once pays, all
/// together, no more than what is left of both pools after the fee. What is
/// left after the fee, and so the payouts together with whatever rounding
/// down has kept back from them, is no more than 98 hundredths of both
/// pools.
pub proof fn payouts_never_exceed_pool(market: Market, bets: Seq<Bet>)
    requires
        market.wf(),
        market.resolved,
        staked(bets, market.outcome.unwrap()) <= market.winner_pool(),
    ensures
        0 <= paid_out(market, bets) <= pool_after_fee(market.total_pool()),
        BASIS_POINTS * pool_after_fee(market.total_pool()) <= (BASIS_POINTS - FEE_BASIS_POINTS)
            * market.total_pool(),
        BASIS_POINTS * paid_out(market, bets) <= (BASIS_POINTS - FEE_BASIS_POINTS)
            * market.total_pool(),
{
    let up = market.outcome.unwrap();
    let winners = market.winner_pool();
    let left = pool_after_fee(market.total_pool());
    if winners > 0 {
        lemma_whole_share(winners, market.total_pool());
        lemma_paid_out_within_share(market, bets, up);
        lemma_staked_nonnegative(bets, up);
        lemma_share_grows(staked(bets, up), winners, left, winners);
    } else {
        lemma_nothing_paid_without_winners(market, bets);
    }
}

} // verus!
