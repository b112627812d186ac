//! The market record and the operations of its life cycle: opening it,
//! taking stakes while it is open, and resolving it once at its deadline.

use crate::error::ErrorCode;
use vstd::prelude::*;

verus! {

/// One market: the question, the price levels that decide it, its time
/// window, the two pools of stakes, and the outcome once it is fixed.
#[derive(Debug, Clone, PartialEq, Eq)]
pub struct Market {
    /// Address of the account that opened the market.
    pub admin: [u8; 32],
    /// The question being wagered on.
    pub question: String,
    /// Symbol of the asset whose price decides the market.
    pub asset_symbol: String,
    /// Identifier of the price feed the observations come from.
    pub feed_id: [u8; 32],
    /// The price that must be reached for the "up" side to win.
    pub target_price: i64,
    /// The price observed when the market was opened.
    pub start_price: i64,
    /// The closing price; zero until the market is resolved.
    pub end_price: i64,
    /// Confidence interval of the opening price.
    pub price_conf: u64,
    /// When the market was opened.
    pub start_time: i64,
    /// The deadline: stakes are taken strictly before it, resolution is
    /// possible from it on.
    pub end_time: i64,
    /// Sum of the stakes on "up".
    pub total_up_pool: u64,
    /// Sum of the stakes on "down".
    pub total_down_pool: u64,
    /// Whether the outcome has been fixed.
    pub resolved: bool,
    /// The outcome, `Some(true)` when "up" won; `None` until resolution.
    pub outcome: Option<bool>,
    /// Bump seed of the vault that holds the market's funds.
    pub vault_bump: u8,
}

/// One stake placed by one participant on one side of one market.
#[derive(Debug, Clone, Copy, PartialEq, Eq)]
pub struct Bet {
    /// Address of the participant who placed the stake.
    pub user: [u8; 32],
    /// Address of the market the stake was placed on.
    pub market: [u8; 32],
    /// The amount staked.
    pub amount: u64,
    /// The side backed: `true` for "up".
    pub direction: bool,
    /// Whether the bet has been paid out.
    pub claimed: bool,
}

impl Market {
    /// An outcome is recorded exactly when the market is resolved.
    pub open spec fn wf(&self) -> bool {
        self.resolved == self.outcome.is_some()
    }

    /// The pool that collects the stakes on `direction`.
    pub open spec fn pool(&self, direction: bool) -> u64 {
        if direction {
            self.total_up_pool
        } else {
            self.total_down_pool
        }
    }

    /// Why a stake of `amount` on `direction` at time `now` is refused, or
    /// `None` if it is accepted.
    pub open spec fn stake_refusal(&self, direction: bool, amount: u64, now: i64) -> Option<
        ErrorCode,
    > {
        if now >= self.end_time {
            Some(ErrorCode::MarketClosed)
        } else if self.pool(direction) + amount > u64::MAX {
            Some(ErrorCode::MathError)
        } else {
            None
        }
    }

    /// The market with `amount` added to the pool of `direction`.
    pub open spec fn with_stake(self, direction: bool, amount: u64) -> Market {
        if direction {
            Market { total_up_pool: (self.total_up_pool + amount) as u64, ..self }
        } else {
            Market { total_down_pool: (self.total_down_pool + amount) as u64, ..self }
        }
    }

    /// The market after a stake of `amount` on `direction` was submitted at
    /// time `now`: with the stake in its pool if it was accepted, unchanged
    /// if it was refused.
    pub open spec fn after_stake(self, direction: bool, amount: u64, now: i64) -> Market {
        if self.stake_refusal(direction, amount, now) is None {
            self.with_stake(direction, amount)
        } else {
            self
        }
    }

    /// Why resolution at time `now` is refused, or `None` if it goes ahead.
    pub open spec fn resolution_refusal(&self, now: i64) -> Option<ErrorCode> {
        if now < self.end_time {
            Some(ErrorCode::MarketNotEnded)
        } else if self.resolved {
            Some(ErrorCode::MarketAlreadyResolved)
        } else {
            None
        }
    }

    /// The outcome that a closing price of `final_price` decides: "up" wins
    /// when the target is reached, a tie included.
    pub open spec fn outcome_for(&self, final_price: i64) -> bool {
        final_price >= self.target_price
    }

    /// The market resolved with a closing price of `final_price`.
    pub open spec fn with_resolution(self, final_price: i64) -> Market {
        Market {
            outcome: Some(self.outcome_for(final_price)),
            resolved: true,
            end_price: final_price,
            ..self
        }
    }

    /// The market after resolution with `final_price` was attempted at time
    /// `now`: resolved if the attempt went ahead, unchanged if it was
    /// refused.
    pub open spec fn after_resolution(self, now: i64, final_price: i64) -> Market {
        if self.resolution_refusal(now) is None {
            self.with_resolution(final_price)
        } else {
            self
        }
    }
}

impl Market {
    /// Tells whether the record is well-formed: whether an outcome is
    /// recorded exactly when the market is marked as resolved.
    pub fn is_well_formed(&self) -> (ok: bool)
        ensures
            ok == self.wf(),
    {
        self.resolved == self.outcome.is_some()
    }
}

/// Opens a market at time `now` that closes `duration` later.
///
/// The new market is unresolved and both of its pools are empty.
pub fn initialize_market(
    admin: [u8; 32],
    vault_bump: u8,
    now: i64,
    question: String,
    asset: String,
    duration: i64,
    feed_id: [u8; 32],
    initial_price: i64,
    price_conf: u64,
    target_price: i64,
) -> (market: Market)
    requires
        duration > 0,
        now + duration <= i64::MAX,
    ensures
        market == (Market {
            admin,
            question,
            asset_symbol: asset,
            feed_id,
            target_price,
            start_price: initial_price,
            end_price: 0,
            price_conf,
            start_time: now,
            end_time: (now + duration) as i64,
            total_up_pool: 0,
            total_down_pool: 0,
            resolved: false,
            outcome: None,
            vault_bump,
        }),
        market.end_time == market.start_time + duration,
        market.total_up_pool == 0 && market.total_down_pool == 0,
        market.wf(),
{
    Market {
        admin,
        question,
        asset_symbol: asset,
        feed_id,
        target_price,
        start_price: initial_price,
        end_price: 0,
        price_conf,
        start_time: now,
        end_time: now + duration,
        total_up_pool: 0,
        total_down_pool: 0,
        resolved: false,
        outcome: None,
        vault_bump,
    }
}

/// Takes a stake of `amount` on `direction` at time `now`, placed by `user`
/// on the market stored at `market_key`.
///
/// The stake is refused with `MarketClosed` from the deadline on, and with
/// `MathError` if the pool would no longer fit in 64 bits. A refused stake
/// leaves the market as it was. An accepted stake is added to its pool and
/// the record of the bet is returned. A stake of zero is accepted.
pub fn place_bet(
    market: &mut Market,
    user: [u8; 32],
    market_key: [u8; 32],
    now: i64,
    direction: bool,
    amount: u64,
) -> (result: Result<Bet, ErrorCode>)
    ensures
        match result {
            Ok(bet) => {
                &&& old(market).stake_refusal(direction, amount, now) is None
                &&& bet == (Bet { user, market: market_key, amount, direction, claimed: false })
                &&& final(market).pool(direction) == old(market).pool(direction) + amount
                &&& final(market).pool(!direction) == old(market).pool(!direction)
            },
            Err(e) => {
                &&& old(market).stake_refusal(direction, amount, now) == Some(e)
                &&& *final(market) == *old(market)
            },
        },
        *final(market) == old(market).after_stake(direction, amount, now),
        old(market).wf() ==> final(market).wf(),
{
    if now >= market.end_time {
        return Err(ErrorCode::MarketClosed);
    }
    if direction {
        match market.total_up_pool.checked_add(amount) {
            Some(total) => {
                market.total_up_pool = total;
            },
            None => {
                return Err(ErrorCode::MathError);
            },
        }
    } else {
        match market.total_down_pool.checked_add(amount) {
            Some(total) => {
                market.total_down_pool = total;
            },
            None => {
                return Err(ErrorCode::MathError);
            },
        }
    }
    Ok(Bet { user, market: market_key, amount, direction, claimed: false })
}

/// Resolves the market at time `now` with the closing price `final_price`.
///
/// Resolution is refused with `MarketNotEnded` before the deadline and with
/// `MarketAlreadyResolved` on a market that is resolved already; a refusal
/// leaves the market as it was. Otherwise the closing price and the outcome
/// are recorded, and the outcome is returned: `true`, "up", exactly when the
/// closing price is at or above the target.
pub fn resolve_market(market: &mut Market, now: i64, final_price: i64) -> (result: Result<
    bool,
    ErrorCode,
>)
    ensures
        match result {
            Ok(outcome) => {
                &&& old(market).resolution_refusal(now) is None
                &&& outcome == (final_price >= old(market).target_price)
                &&& final(market).resolved
                &&& final(market).outcome == Some(outcome)
                &&& final(market).end_price == final_price
            },
            Err(e) => {
                &&& old(market).resolution_refusal(now) == Some(e)
                &&& *final(market) == *old(market)
            },
        },
        *final(market) == old(market).after_resolution(now, final_price),
        old(market).wf() ==> final(market).wf(),
{
    if now < market.end_time {
        return Err(ErrorCode::MarketNotEnded);
    }
    if market.resolved {
        return Err(ErrorCode::MarketAlreadyResolved);
    }
    let outcome = final_price >= market.target_price;
    market.outcome = Some(outcome);
    market.resolved = true;
    market.end_price = final_price;
    Ok(outcome)
}

/// A market is resolved at most once. Once a resolution has gone ahead,
/// every attempt made at that time or later is refused with
/// `MarketAlreadyResolved`, whatever closing price it brings, and the market
/// keeps the outcome and the closing price of the first resolution.
pub proof fn resolution_happens_once(
    market: Market,
    now: i64,
    final_price: i64,
    later: i64,
    other_price: i64,
)
    requires
        market.resolution_refusal(now) is None,
        now <= later,
    ensures
        ({
            let resolved = market.after_resolution(now, final_price);
            let again = resolved.after_resolution(later, other_price);
            &&& resolved.resolution_refusal(later) == Some(ErrorCode::MarketAlreadyResolved)
            &&& again == resolved
            &&& again.outcome == Some(final_price >= market.target_price)
            &&& again.end_price == final_price
        }),
{
}

/// A tie goes to "up": a market resolved with a closing price equal to its
/// target has the outcome `true`.
pub proof fn tie_resolves_up(market: Market, now: i64)
    requires
        market.resolution_refusal(now) is None,
    ensures
        market.outcome_for(market.target_price),
        market.after_resolution(now, market.target_price).outcome == Some(true),
{
}

/// A resolved market is frozen. From its deadline on, a resolved market
/// refuses every stake and every resolution, and stays as it is.
pub proof fn resolved_market_is_frozen(
    market: Market,
    now: i64,
    direction: bool,
    amount: u64,
    final_price: i64,
)
    requires
        market.resolved,
        market.end_time <= now,
    ensures
        market.stake_refusal(direction, amount, now) == Some(ErrorCode::MarketClosed),
        market.after_stake(direction, amount, now) == market,
        market.resolution_refusal(now) == Some(ErrorCode::MarketAlreadyResolved),
        market.after_resolution(now, final_price) == market,
{
}

} // verus!
