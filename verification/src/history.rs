//! Histories: what a market has become after any sequence of calls, and the
//! bets it has taken on the way.

use crate::ledger::{
    bet_is_part_of_the_stakes, paid_out, payouts_never_exceed_pool, stake_within_pool_is_payable,
    staked,
};
use crate::market::{resolved_market_is_frozen, Bet, Market};
use crate::settlement::{pool_after_fee, share, BASIS_POINTS, FEE_BASIS_POINTS};
use vstd::prelude::*;

verus! {

/// One call made on a market, with the time at which it was made.
pub enum Call {
    /// A stake submitted through `place_bet`.
    Stake { user: [u8; 32], market_key: [u8; 32], now: i64, direction: bool, amount: u64 },
    /// A resolution attempted through `resolve_market`.
    Resolve { now: i64, final_price: i64 },
}

impl Call {
    /// The time at which the call was made.
    pub open spec fn time(self) -> i64 {
        match self {
            Call::Stake { now, .. } => now,
            Call::Resolve { now, .. } => now,
        }
    }

    /// The bet that `market` hands back for this call: `Some` exactly for a
    /// stake that `market` accepts.
    pub open spec fn bet_taken_by(self, market: Market) -> Option<Bet> {
        match self {
            Call::Stake { user, market_key, now, direction, amount } => {
                if market.stake_refusal(direction, amount, now) is None {
                    Some(Bet { user, market: market_key, amount, direction, claimed: false })
                } else {
                    None
                }
            },
            Call::Resolve { .. } => None,
        }
    }
}

impl Market {
    /// The market after `call` was made on it, accepted or refused.
    pub open spec fn after_call(self, call: Call) -> Market {
        match call {
            Call::Stake { now, direction, amount, .. } => self.after_stake(direction, amount, now),
            Call::Resolve { now, final_price } => self.after_resolution(now, final_price),
        }
    }

    /// The market after each of `calls` was made on it, in order.
    pub open spec fn after_calls(self, calls: Seq<Call>) -> Market
        decreases calls.len(),
    {
        if calls.len() == 0 {
            self
        } else {
            self.after_calls(calls.drop_last()).after_call(calls.last())
        }
    }

    /// The bets that the market has taken in the course of `calls`, in the
    /// order in which they were placed.
    pub open spec fn bets_taken(self, calls: Seq<Call>) -> Seq<Bet>
        decreases calls.len(),
    {
        if calls.len() == 0 {
            Seq::empty()
        } else {
            let earlier = self.bets_taken(calls.drop_last());
            match calls.last().bet_taken_by(self.after_calls(calls.drop_last())) {
                Some(bet) => earlier.push(bet),
                None => earlier,
            }
        }
    }

    /// What no call changes: everything but the pools and the resolution.
    pub open spec fn same_terms(self, other: Market) -> bool {
        &&& self.admin == other.admin
        &&& self.question == other.question
        &&& self.asset_symbol == other.asset_symbol
        &&& self.feed_id == other.feed_id
        &&& self.target_price == other.target_price
        &&& self.start_price == other.start_price
        &&& self.price_conf == other.price_conf
        &&& self.start_time == other.start_time
        &&& self.end_time == other.end_time
        &&& self.vault_bump == other.vault_bump
    }
}

/// The calls were made by a clock that never runs backwards.
pub open spec fn clock_ordered(calls: Seq<Call>) -> bool {
    forall|i: int, j: int| 0 <= i <= j < calls.len() ==> calls[i].time() <= calls[j].time()
}

/// The pools hold exactly what was staked. After any sequence of calls, each
/// pool has grown by the sum of the amounts of the bets taken on its side,
/// the market's terms are what they were, and a well-formed market is still
/// well-formed.
pub proof fn pools_hold_the_stakes(market: Market, calls: Seq<Call>)
    ensures
        ({
            let after = market.after_calls(calls);
            let bets = market.bets_taken(calls);
            &&& after.total_up_pool == market.total_up_pool + staked(bets, true)
            &&& after.total_down_pool == market.total_down_pool + staked(bets, false)
            &&& after.same_terms(market)
            &&& market.wf() ==> after.wf()
        }),
    decreases calls.len(),
{
    if calls.len() > 0 {
        let before = calls.drop_last();
        pools_hold_the_stakes(market, before);
        let earlier = market.bets_taken(before);
        match calls.last().bet_taken_by(market.after_calls(before)) {
            Some(bet) => {
                assert(earlier.push(bet).drop_last() == earlier);
                assert(earlier.push(bet).last() == bet);
            },
            None => {},
        }
    }
}

/// A stake submitted at the deadline or later counts for nothing: the call
/// leaves the market as it was and adds no bet to those taken.
pub proof fn late_stake_changes_nothing(market: Market, calls: Seq<Call>, i: int)
    requires
        0 <= i < calls.len(),
        calls[i] is Stake,
        calls[i].time() >= market.end_time,
    ensures
        market.after_calls(calls.take(i + 1)) == market.after_calls(calls.take(i)),
        market.bets_taken(calls.take(i + 1)) == market.bets_taken(calls.take(i)),
{
    pools_hold_the_stakes(market, calls.take(i));
    assert(calls.take(i + 1).drop_last() == calls.take(i));
    assert(calls.take(i + 1).last() == calls[i]);
}

/// A market that was open at first and is resolved after `calls` saw its
/// deadline pass no later than the last of them.
proof fn lemma_resolved_after_deadline(market: Market, calls: Seq<Call>)
    requires
        !market.resolved,
        clock_ordered(calls),
        market.after_calls(calls).resolved,
    ensures
        calls.len() > 0,
        calls.last().time() >= market.end_time,
    decreases calls.len(),
{
    if calls.len() > 0 {
        let before = calls.drop_last();
        pools_hold_the_stakes(market, before);
        if market.after_calls(before).resolved {
            assert forall|i: int, j: int| 0 <= i <= j < before.len() implies before[i].time()
                <= before[j].time() by {
                assert(before[i] == calls[i] && before[j] == calls[j]);
            }
            lemma_resolved_after_deadline(market, before);
            assert(before.last() == calls[calls.len() - 2]);
        }
    }
}

/// The pools change only while the market is open. Under a clock that never
/// runs backwards, a market that was open at first and has been resolved in
/// the course of the calls is changed by no later call, and takes no later
/// bet.
pub proof fn resolution_closes_the_books(market: Market, calls: Seq<Call>, i: int)
    requires
        !market.resolved,
        clock_ordered(calls),
        0 <= i < calls.len(),
        market.after_calls(calls.take(i)).resolved,
    ensures
        market.after_calls(calls.take(i + 1)) == market.after_calls(calls.take(i)),
        market.bets_taken(calls.take(i + 1)) == market.bets_taken(calls.take(i)),
{
    let before = calls.take(i);
    assert forall|a: int, b: int| 0 <= a <= b < before.len() implies before[a].time()
        <= before[b].time() by {
        assert(before[a] == calls[a] && before[b] == calls[b]);
    }
    lemma_resolved_after_deadline(market, before);
    pools_hold_the_stakes(market, before);
    assert(before.last() == calls[i - 1]);
    assert(calls.take(i + 1).drop_last() == before);
    assert(calls.take(i + 1).last() == calls[i]);
    let state = market.after_calls(before);
    match calls[i] {
        Call::Stake { now, direction, amount, .. } => {
            resolved_market_is_frozen(state, now, direction, amount, 0);
        },
        Call::Resolve { now, final_price } => {
            resolved_market_is_frozen(state, now, true, 0, final_price);
        },
    }
}

/// No bet is handed out as claimed.
proof fn lemma_taken_bets_are_unclaimed(market: Market, calls: Seq<Call>, k: int)
    requires
        0 <= k < market.bets_taken(calls).len(),
    ensures
        !market.bets_taken(calls)[k].claimed,
    decreases calls.len(),
{
    if calls.len() > 0 {
        let before = calls.drop_last();
        if k < market.bets_taken(before).len() {
            lemma_taken_bets_are_unclaimed(market, before, k);
        }
    }
}

/// Every winning bet can be paid. Take a market whose pools are empty, as a
/// newly opened one's are, and any calls that leave it resolved with pools
/// that together fit in 64 bits. Then each bet it has taken that backed the
/// winning side with a stake above zero is settled with its share, and that
/// share is no more than what is left of the pools after the fee.
pub proof fn winning_bets_can_be_paid(market: Market, calls: Seq<Call>, k: int)
    requires
        market.wf(),
        market.total_up_pool == 0,
        market.total_down_pool == 0,
        market.after_calls(calls).resolved,
        market.after_calls(calls).total_pool() <= u64::MAX,
        0 <= k < market.bets_taken(calls).len(),
        market.after_calls(calls).outcome == Some(market.bets_taken(calls)[k].direction),
        market.bets_taken(calls)[k].amount > 0,
    ensures
        ({
            let closed = market.after_calls(calls);
            let bet = market.bets_taken(calls)[k];
            &&& closed.claim_refusal(bet) is None
            &&& closed.payout_of(bet) == share(
                bet.amount as int,
                closed.winner_pool(),
                closed.total_pool(),
            )
            &&& closed.payout_of(bet) <= pool_after_fee(closed.total_pool())
        }),
{
    let closed = market.after_calls(calls);
    let bets = market.bets_taken(calls);
    pools_hold_the_stakes(market, calls);
    lemma_taken_bets_are_unclaimed(market, calls, k);
    bet_is_part_of_the_stakes(bets, k);
    stake_within_pool_is_payable(
        bets[k].amount as int,
        closed.winner_pool(),
        closed.total_pool(),
    );
}

/// From opening to settlement, nothing is paid that was not staked. Take a
/// market whose pools are empty, as a newly opened one's are, and any calls
/// that leave it resolved. Settling once each of the bets it has taken pays,
/// all together, no more than what is left of its pools after the fee: at
/// most 98 hundredths of all that was staked.
pub proof fn settlement_conserves_the_stakes(market: Market, calls: Seq<Call>)
    requires
        market.wf(),
        market.total_up_pool == 0,
        market.total_down_pool == 0,
        market.after_calls(calls).resolved,
    ensures
        ({
            let closed = market.after_calls(calls);
            let bets = market.bets_taken(calls);
            let total = staked(bets, true) + staked(bets, false);
            &&& closed.total_pool() == total
            &&& 0 <= paid_out(closed, bets) <= pool_after_fee(total)
            &&& BASIS_POINTS * paid_out(closed, bets) <= (BASIS_POINTS - FEE_BASIS_POINTS) * total
        }),
{
    pools_hold_the_stakes(market, calls);
    payouts_never_exceed_pool(market.after_calls(calls), market.bets_taken(calls));
}

} // verus!
