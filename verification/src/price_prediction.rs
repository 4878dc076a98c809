//! The price prediction contract.
//!
//! A pari-mutuel prediction market where players wager on whether an
//! asset's price will go up or down within a time window.
//!
//! # Game flow
//! 1. The admin opens a market: the oracle's opening price and the
//!    current time are handed in, and the round is stored.
//! 2. Players place predictions before `close_time`; their wagers move
//!    into the contract's escrow account on the token ledger.
//! 3. After `close_time`, anyone settles the round with the oracle's
//!    closing price: the outcome is classified, push rounds are voided,
//!    and the fee-adjusted net pool is frozen.
//! 4. Winners claim their proportional share of the net pool; in a push
//!    round every player reclaims exactly the original wager.
//!
//! # Pari-mutuel settlement
//! - Total pool = sum of all wagers from both sides.
//! - House fee = `total_pool * house_edge_bps / 10_000`, rounded down.
//! - Net pool = `total_pool - fee`.
//! - Each winner receives `net_pool * wager / winning_total`, rounded
//!   down.
//!
//! # Push rules
//! A round is a push (all bets refunded) when the close price equals
//! the open price, no bets were placed, or only one side has bets.
//!
//! The host environment supplies the current ledger time, the oracle's
//! prices and the authenticated caller identities as plain values, and
//! holds the token book as an [`Accounts`] ledger.

use vstd::prelude::*;

use crate::accounts::Accounts;
use crate::table::{lemma_seq_sum_push, lemma_seq_sum_split, lemma_seq_sum_update, seq_sum, Table};

verus! {

pub const DIRECTION_UP: u32 = 0;

pub const DIRECTION_DOWN: u32 = 1;

pub const OUTCOME_UP: u32 = 0;

pub const OUTCOME_DOWN: u32 = 1;

pub const OUTCOME_FLAT: u32 = 2;

/// Basis points divisor: 10 000 = 100%.
pub const BASIS_POINTS_DIVISOR: i128 = 10_000;

/// Every way a price prediction operation can fail.
#[derive(Copy, Clone, Debug, Eq, PartialEq, Structural)]
pub enum Error {
    AlreadyInitialized,
    NotInitialized,
    NotAuthorized,
    InvalidAmount,
    InvalidDirection,
    RoundAlreadyExists,
    RoundNotFound,
    AlreadySettled,
    NotSettled,
    RoundNotClosed,
    RoundClosed,
    BetAlreadyPlaced,
    BetNotFound,
    AlreadyClaimed,
    NoPayout,
    WagerTooLow,
    WagerTooHigh,
    Overflow,
    InvalidCloseTime,
    InvalidPrice,
    /// The funds-transfer adapter refused the movement; the operation
    /// as a whole fails with no effect, as the host would fail the
    /// enclosing transaction.
    InsufficientBalance,
}

/// One prediction market window.
#[derive(Copy, Clone, Debug, Eq, PartialEq, Structural)]
pub struct RoundData {
    pub asset: u64,
    pub open_price: i128,
    pub close_price: i128,
    pub close_time: u64,
    pub total_up: i128,
    pub total_down: i128,
    pub settled: bool,
    pub outcome: u32,
    pub is_push: bool,
    pub net_pool: i128,
    pub winning_total: i128,
}

/// One player's wager in one round.
#[derive(Copy, Clone, Debug, Eq, PartialEq, Structural)]
pub struct BetData {
    pub direction: u32,
    pub wager: i128,
    pub claimed: bool,
}

/// The frozen result of settling a round.
#[derive(Copy, Clone, Debug, Eq, PartialEq, Structural)]
pub struct Settlement {
    pub outcome: u32,
    pub is_push: bool,
    pub net_pool: i128,
    pub winning_total: i128,
}

/// The immutable configuration written once by `init`.
#[derive(Copy, Clone, Debug, Eq, PartialEq, Structural)]
pub struct Config {
    pub admin: u64,
    pub oracle: u64,
    pub token: u64,
    pub min_wager: i128,
    pub max_wager: i128,
    pub house_edge_bps: i128,
}

/// Notification: a market was opened.
#[derive(Copy, Clone, Debug, Eq, PartialEq, Structural)]
pub struct MarketOpened {
    pub round_id: u64,
    pub asset: u64,
    pub open_price: i128,
    pub close_time: u64,
}

/// Notification: a prediction was placed.
#[derive(Copy, Clone, Debug, Eq, PartialEq, Structural)]
pub struct PredictionPlaced {
    pub round_id: u64,
    pub player: u64,
    pub direction: u32,
    pub wager: i128,
}

/// Notification: a round was settled.
#[derive(Copy, Clone, Debug, Eq, PartialEq, Structural)]
pub struct RoundSettled {
    pub round_id: u64,
    pub close_price: i128,
    pub outcome: u32,
    pub is_push: bool,
    pub net_pool: i128,
}

/// Notification: a pay-out was claimed.
#[derive(Copy, Clone, Debug, Eq, PartialEq, Structural)]
pub struct Claimed {
    pub round_id: u64,
    pub player: u64,
    pub payout: i128,
}

/// One entry of the append-only notification log, recorded after the
/// corresponding state change has committed; the host forwards them
/// to external observers.
#[derive(Copy, Clone, Debug, Eq, PartialEq, Structural)]
pub enum Event {
    Opened(MarketOpened),
    Placed(PredictionPlaced),
    Settled(RoundSettled),
    Paid(Claimed),
}

/// One stored round together with its bets, keyed by player.
struct RoundEntry {
    data: RoundData,
    bets: Table<BetData>,
}

/// The price prediction contract state: configuration, the round
/// store, and the append-only notification log.  `contract` is the
/// contract's own account on the token ledger, where wagers are
/// escrowed.
pub struct PricePrediction {
    contract: u64,
    config: Option<Config>,
    rounds: Table<RoundEntry>,
    events: Vec<Event>,
}

/// Whether `direction` names one of the two sides.
pub open spec fn valid_direction(direction: u32) -> bool {
    direction == DIRECTION_UP || direction == DIRECTION_DOWN
}

/// The weight assigning every bet its wager.
pub open spec fn wager_weight() -> spec_fn((u128, BetData)) -> int {
    |p: (u128, BetData)| p.1.wager as int
}

/// The weight assigning a bet its wager if it backs `direction`, and
/// zero otherwise.
pub open spec fn side_weight(direction: u32) -> spec_fn((u128, BetData)) -> int {
    |p: (u128, BetData)|
        if p.1.direction == direction {
            p.1.wager as int
        } else {
            0
        }
}

/// The outcome classification: up if the price rose, down if it fell,
/// flat otherwise.
pub open spec fn spec_outcome(open_price: i128, close_price: i128) -> u32 {
    if close_price > open_price {
        OUTCOME_UP
    } else if close_price < open_price {
        OUTCOME_DOWN
    } else {
        OUTCOME_FLAT
    }
}

/// A round is voided when the market was flat, had no wagers at all, or
/// had wagers on only one side.
pub open spec fn spec_is_push(outcome: u32, total_up: i128, total_down: i128) -> bool {
    ||| outcome == OUTCOME_FLAT
    ||| total_up + total_down == 0
    ||| total_up == 0
    ||| total_down == 0
}

/// What settling computes, as a pure function of the open price, the
/// close price, the two side totals and the house edge: the outcome,
/// the push flag, the fee-adjusted net pool and the winning side's
/// total.  Fails with `Overflow` exactly when a checked step would.
pub open spec fn spec_settle(
    open_price: i128,
    close_price: i128,
    total_up: i128,
    total_down: i128,
    house_edge_bps: i128,
) -> Result<Settlement, Error> {
    if total_up + total_down > i128::MAX {
        Err(Error::Overflow)
    } else {
        let outcome = spec_outcome(open_price, close_price);
        if spec_is_push(outcome, total_up, total_down) {
            Ok(Settlement { outcome, is_push: true, net_pool: 0, winning_total: 0 })
        } else {
            let total_pool = total_up + total_down;
            if total_pool * house_edge_bps > i128::MAX {
                Err(Error::Overflow)
            } else {
                let fee = total_pool * house_edge_bps / (BASIS_POINTS_DIVISOR as int);
                Ok(
                    Settlement {
                        outcome,
                        is_push: false,
                        net_pool: (total_pool - fee) as i128,
                        winning_total: if outcome == OUTCOME_UP {
                            total_up
                        } else {
                            total_down
                        },
                    },
                )
            }
        }
    }
}

/// What claiming pays for one bet of a settled round: the wager itself
/// in a push round, the proportional share of the net pool for a
/// winning bet, and nothing — `NoPayout` — for a losing one.  A bet
/// already claimed always fails with `AlreadyClaimed`.
pub open spec fn spec_claim_payout(round: RoundData, bet: BetData) -> Result<i128, Error> {
    if !round.settled {
        Err(Error::NotSettled)
    } else if bet.claimed {
        Err(Error::AlreadyClaimed)
    } else if round.is_push {
        if bet.wager == 0 {
            Err(Error::NoPayout)
        } else {
            Ok(bet.wager)
        }
    } else if bet.direction == round.outcome {
        if round.net_pool * bet.wager > i128::MAX {
            Err(Error::Overflow)
        } else if round.winning_total == 0 {
            Err(Error::Overflow)
        } else {
            let share = round.net_pool * bet.wager / (round.winning_total as int);
            if share == 0 {
                Err(Error::NoPayout)
            } else {
                Ok(share as i128)
            }
        }
    } else {
        Err(Error::NoPayout)
    }
}

/// Computes a settlement with checked arithmetic: the executable form
/// of [`spec_settle`], shared by `settle_round` and by hosts that need
/// to preview a settlement.
pub fn compute_settlement(
    open_price: i128,
    close_price: i128,
    total_up: i128,
    total_down: i128,
    house_edge_bps: i128,
) -> (r: Result<Settlement, Error>)
    requires
        0 <= total_up,
        0 <= total_down,
        0 <= house_edge_bps <= 10000,
    ensures
        r == spec_settle(open_price, close_price, total_up, total_down, house_edge_bps),
{
    let total_pool = match total_up.checked_add(total_down) {
        Some(p) => p,
        None => {
            return Err(Error::Overflow);
        },
    };
    let outcome: u32 = if close_price > open_price {
        OUTCOME_UP
    } else if close_price < open_price {
        OUTCOME_DOWN
    } else {
        OUTCOME_FLAT
    };
    let is_push = outcome == OUTCOME_FLAT || total_pool == 0 || total_up == 0 || total_down == 0;
    if is_push {
        return Ok(Settlement { outcome, is_push: true, net_pool: 0, winning_total: 0 });
    }
    let product = match total_pool.checked_mul(house_edge_bps) {
        Some(v) => v,
        None => {
            return Err(Error::Overflow);
        },
    };
    proof {
        let p = total_pool as int;
        let b = house_edge_bps as int;
        let d = BASIS_POINTS_DIVISOR as int;
        vstd::arithmetic::mul::lemma_mul_nonnegative(p, b);
        vstd::arithmetic::mul::lemma_mul_is_commutative(p, b);
        vstd::arithmetic::mul::lemma_mul_inequality(b, d, p);
        vstd::arithmetic::mul::lemma_mul_is_commutative(d, p);
        vstd::arithmetic::div_mod::lemma_div_pos_is_pos(p * b, d);
        vstd::arithmetic::div_mod::lemma_div_is_ordered(p * b, p * d, d);
        vstd::arithmetic::div_mod::lemma_div_multiples_vanish(p, d);
        assert((p * d) / d == p) by {
            vstd::arithmetic::mul::lemma_mul_is_commutative(p, d);
        }
    }
    let fee = match product.checked_div(BASIS_POINTS_DIVISOR) {
        Some(v) => v,
        None => {
            proof {
                assert(false);
            }
            return Err(Error::Overflow);
        },
    };
    let net_pool = match total_pool.checked_sub(fee) {
        Some(v) => v,
        None => {
            proof {
                assert(false);
            }
            return Err(Error::Overflow);
        },
    };
    let winning_total = if outcome == OUTCOME_UP {
        total_up
    } else {
        total_down
    };
    Ok(Settlement { outcome, is_push: false, net_pool, winning_total })
}

/// Settlement is a pure function of the opening price, the closing
/// price, the two side totals and the house edge: two rounds that
/// agree on those five inputs settle to the identical outcome, push
/// flag, net pool and winning total.
pub proof fn lemma_settlement_deterministic(
    a: RoundData,
    b: RoundData,
    close_a: i128,
    close_b: i128,
    house_edge_bps: i128,
)
    requires
        a.open_price == b.open_price,
        close_a == close_b,
        a.total_up == b.total_up,
        a.total_down == b.total_down,
    ensures
        spec_settle(a.open_price, close_a, a.total_up, a.total_down, house_edge_bps)
            == spec_settle(b.open_price, close_b, b.total_up, b.total_down, house_edge_bps),
{
}

/// Every bet record of a live round is on a real side, wagers a
/// positive amount, and is unclaimed until the round settles.
spec fn bet_wf(bet: BetData, settled: bool) -> bool {
    &&& valid_direction(bet.direction)
    &&& bet.wager > 0
    &&& !settled ==> !bet.claimed
}

/// The invariant of one stored round: positive opening price, side
/// totals that are exactly the sums of the recorded wagers, and — once
/// settled — frozen settlement fields that agree with `spec_settle`.
spec fn entry_wf(e: RoundEntry, house_edge_bps: i128) -> bool {
    &&& e.bets.wf()
    &&& e.data.open_price > 0
    &&& 0 <= e.data.total_up
    &&& 0 <= e.data.total_down
    &&& e.data.total_up == seq_sum(e.bets.entries(), side_weight(DIRECTION_UP))
    &&& e.data.total_down == seq_sum(e.bets.entries(), side_weight(DIRECTION_DOWN))
    &&& forall|i: int|
        0 <= i < e.bets.entries().len() ==> bet_wf(
            (#[trigger] e.bets.entries()[i]).1,
            e.data.settled,
        )
    &&& e.data.settled ==> spec_settle(
        e.data.open_price,
        e.data.close_price,
        e.data.total_up,
        e.data.total_down,
        house_edge_bps,
    ) == Ok::<Settlement, Error>(
        Settlement {
            outcome: e.data.outcome,
            is_push: e.data.is_push,
            net_pool: e.data.net_pool,
            winning_total: e.data.winning_total,
        },
    )
    &&& !e.data.settled ==> {
        &&& e.data.close_price == 0
        &&& e.data.outcome == 0
        &&& !e.data.is_push
        &&& e.data.net_pool == 0
        &&& e.data.winning_total == 0
    }
}

/// Computes one bet's pay-out with checked arithmetic: the executable
/// form of [`spec_claim_payout`], shared by `claim` and by hosts that
/// need to preview a pay-out.
pub fn compute_claim_payout(round: &RoundData, bet: &BetData) -> (r: Result<i128, Error>)
    requires
        round.net_pool >= 0,
        round.winning_total >= 0,
        bet.wager >= 0,
    ensures
        r == spec_claim_payout(*round, *bet),
{
    if !round.settled {
        return Err(Error::NotSettled);
    }
    if bet.claimed {
        return Err(Error::AlreadyClaimed);
    }
    let payout: i128 = if round.is_push {
        bet.wager
    } else if bet.direction == round.outcome {
        let product = match round.net_pool.checked_mul(bet.wager) {
            Some(v) => v,
            None => {
                proof {
                    vstd::arithmetic::mul::lemma_mul_nonnegative(
                        round.net_pool as int,
                        bet.wager as int,
                    );
                }
                return Err(Error::Overflow);
            },
        };
        match product.checked_div(round.winning_total) {
            Some(v) => {
                proof {
                    vstd::arithmetic::div_mod::lemma_div_pos_is_pos(
                        product as int,
                        round.winning_total as int,
                    );
                }
                v
            },
            None => {
                return Err(Error::Overflow);
            },
        }
    } else {
        0
    };
    if payout == 0 {
        return Err(Error::NoPayout);
    }
    Ok(payout)
}

/// The weight assigning a bet on the winning side its floored
/// proportional share of the net pool, and every other bet zero.
pub open spec fn share_weight(outcome: u32, net_pool: i128, winning_total: i128) -> spec_fn(
    (u128, BetData),
) -> int {
    |p: (u128, BetData)|
        if p.1.direction == outcome {
            net_pool * p.1.wager / (winning_total as int)
        } else {
            0
        }
}

/// For a positive divisor, dividing two addends separately never
/// exceeds dividing their sum: `a / d + b / d <= (a + b) / d`.
proof fn lemma_div_sum_le(a: int, b: int, d: int)
    requires
        d > 0,
    ensures
        a / d + b / d <= (a + b) / d,
{
    vstd::arithmetic::div_mod::lemma_fundamental_div_mod(a, d);
    vstd::arithmetic::div_mod::lemma_fundamental_div_mod(b, d);
    vstd::arithmetic::div_mod::lemma_mod_division_less_than_divisor(a, d);
    vstd::arithmetic::div_mod::lemma_mod_division_less_than_divisor(b, d);
    let q1 = a / d;
    let r1 = a % d;
    let q2 = b / d;
    let r2 = b % d;
    assert((q1 + q2) * d == q1 * d + q2 * d) by {
        vstd::arithmetic::mul::lemma_mul_is_distributive_add_other_way(d, q1, q2);
    }
    assert(q1 * d == d * q1) by {
        vstd::arithmetic::mul::lemma_mul_is_commutative(q1, d);
    }
    assert(q2 * d == d * q2) by {
        vstd::arithmetic::mul::lemma_mul_is_commutative(q2, d);
    }
    if r1 + r2 < d {
        vstd::arithmetic::div_mod::lemma_fundamental_div_mod_converse(
            a + b,
            d,
            q1 + q2,
            r1 + r2,
        );
    } else {
        assert((q1 + q2 + 1) * d == (q1 + q2) * d + 1 * d) by {
            vstd::arithmetic::mul::lemma_mul_is_distributive_add_other_way(d, q1 + q2, 1);
        }
        vstd::arithmetic::div_mod::lemma_fundamental_div_mod_converse(
            a + b,
            d,
            q1 + q2 + 1,
            r1 + r2 - d,
        );
    }
}

/// The share sum over a sequence of bets is non-negative and bounded
/// by `net_pool` times the winning-side total, divided by
/// `winning_total`.
proof fn lemma_share_sum_bounded(
    s: Seq<(u128, BetData)>,
    outcome: u32,
    net_pool: i128,
    winning_total: i128,
)
    requires
        net_pool >= 0,
        winning_total > 0,
        forall|i: int| 0 <= i < s.len() ==> (#[trigger] s[i]).1.wager >= 0,
    ensures
        0 <= seq_sum(s, share_weight(outcome, net_pool, winning_total)),
        seq_sum(s, share_weight(outcome, net_pool, winning_total)) <= net_pool * seq_sum(
            s,
            side_weight(outcome),
        ) / (winning_total as int),
    decreases s.len(),
{
    let w_share = share_weight(outcome, net_pool, winning_total);
    let w_side = side_weight(outcome);
    let net = net_pool as int;
    let wt = winning_total as int;
    if s.len() == 0 {
        assert(net * 0 == 0) by {
            vstd::arithmetic::mul::lemma_mul_basics(net);
        }
    } else {
        let t = s.drop_first();
        assert forall|i: int| 0 <= i < t.len() implies (#[trigger] t[i]).1.wager >= 0 by {
            assert(t[i] == s[i + 1]);
        }
        lemma_share_sum_bounded(t, outcome, net_pool, winning_total);
        let head = s[0];
        let head_wager = w_side(head);
        let tail_wagers = seq_sum(t, w_side);
        vstd::arithmetic::mul::lemma_mul_nonnegative(net, head_wager);
        vstd::arithmetic::div_mod::lemma_div_pos_is_pos(net * head_wager, wt);
        if head.1.direction == outcome {
            assert(w_share(head) == net * head_wager / wt);
        } else {
            assert(w_share(head) == 0);
            assert(net * 0 == 0) by {
                vstd::arithmetic::mul::lemma_mul_basics(net);
            }
            assert(net * head_wager / wt == 0) by {
                vstd::arithmetic::div_mod::lemma_div_of0(wt);
            }
        }
        lemma_div_sum_le(net * head_wager, net * tail_wagers, wt);
        assert(net * head_wager + net * tail_wagers == net * (head_wager + tail_wagers)) by {
            vstd::arithmetic::mul::lemma_mul_is_distributive_add(net, head_wager, tail_wagers);
        }
        assert(seq_sum(t, w_share) <= net * tail_wagers / wt);
        assert(seq_sum(s, w_share) == w_share(head) + seq_sum(t, w_share));
        assert(seq_sum(s, w_side) == head_wager + tail_wagers);
    }
}

/// Facts about the frozen fields of a settled round that follow from
/// the settlement equation: a push round owes only refunds, while a
/// decisive round has a decisive outcome, a positive winning side, and
/// a net pool that is the fee-reduced total pool.
proof fn lemma_settled_round_bounds(data: RoundData, house_edge_bps: i128)
    requires
        0 <= house_edge_bps <= 10000,
        0 <= data.total_up,
        0 <= data.total_down,
        data.settled,
        spec_settle(
            data.open_price,
            data.close_price,
            data.total_up,
            data.total_down,
            house_edge_bps,
        ) == Ok::<Settlement, Error>(
            Settlement {
                outcome: data.outcome,
                is_push: data.is_push,
                net_pool: data.net_pool,
                winning_total: data.winning_total,
            },
        ),
    ensures
        data.is_push ==> data.net_pool == 0 && data.winning_total == 0,
        !data.is_push ==> {
            &&& data.outcome == OUTCOME_UP || data.outcome == OUTCOME_DOWN
            &&& data.winning_total == (if data.outcome == OUTCOME_UP {
                data.total_up
            } else {
                data.total_down
            })
            &&& data.winning_total > 0
            &&& 0 <= data.net_pool <= data.total_up + data.total_down
            &&& data.net_pool == data.total_up + data.total_down - (data.total_up
                + data.total_down) * house_edge_bps / (BASIS_POINTS_DIVISOR as int)
        },
{
    if !data.is_push {
        let p = data.total_up + data.total_down;
        let b = house_edge_bps as int;
        let d = BASIS_POINTS_DIVISOR as int;
        vstd::arithmetic::mul::lemma_mul_nonnegative(p, b);
        vstd::arithmetic::mul::lemma_mul_is_commutative(p, b);
        vstd::arithmetic::mul::lemma_mul_inequality(b, d, p);
        vstd::arithmetic::mul::lemma_mul_is_commutative(d, p);
        vstd::arithmetic::div_mod::lemma_div_pos_is_pos(p * b, d);
        vstd::arithmetic::div_mod::lemma_div_is_ordered(p * b, p * d, d);
        vstd::arithmetic::div_mod::lemma_div_multiples_vanish(p, d);
        assert((p * d) / d == p) by {
            vstd::arithmetic::mul::lemma_mul_is_commutative(p, d);
        }
    }
}

/// The recorded bet of `player` in a well-formed round entry satisfies
/// the per-bet invariant.
proof fn lemma_bet_facts(e: RoundEntry, player: u64, house_edge_bps: i128)
    requires
        entry_wf(e, house_edge_bps),
        e.bets.spec_get(player as u128) is Some,
    ensures
        bet_wf(e.bets.spec_get(player as u128)->Some_0, e.data.settled),
{
    e.bets.lemma_get_entries(player as u128);
    let s = e.bets.entries();
    assert(!(forall|i: int| 0 <= i < s.len() ==> s[i].0 != player as u128));
    let j = choose|j: int| 0 <= j < s.len() && (#[trigger] s[j]).0 == player as u128;
    assert(e.bets.spec_get(player as u128) == Some(s[j].1));
    assert(bet_wf(s[j].1, e.data.settled));
}

impl PricePrediction {
    /// The contract's own escrow account on the token ledger.
    pub closed spec fn spec_contract(self) -> u64 {
        self.contract
    }

    /// The configuration, present once `init` has run.
    pub closed spec fn spec_config(self) -> Option<Config> {
        self.config
    }

    /// The house edge currently configured, zero before `init`.
    pub open spec fn spec_house_edge_bps(self) -> i128 {
        match self.spec_config() {
            Some(c) => c.house_edge_bps,
            None => 0,
        }
    }

    /// The notification log so far, oldest first.
    pub closed spec fn spec_events(self) -> Seq<Event> {
        self.events@
    }

    /// The stored state of round `round_id`.
    pub closed spec fn spec_round(self, round_id: u64) -> Option<RoundData> {
        match self.rounds.spec_get(round_id as u128) {
            Some(e) => Some(e.data),
            None => None,
        }
    }

    /// The stored bet of `player` in round `round_id`.
    pub closed spec fn spec_bet(self, round_id: u64, player: u64) -> Option<BetData> {
        match self.rounds.spec_get(round_id as u128) {
            Some(e) => e.bets.spec_get(player as u128),
            None => None,
        }
    }

    /// The sum of all wagers successfully placed on round `round_id`.
    pub closed spec fn spec_wager_sum(self, round_id: u64) -> int {
        match self.rounds.spec_get(round_id as u128) {
            Some(e) => seq_sum(e.bets.entries(), wager_weight()),
            None => 0,
        }
    }

    /// The state invariant: unique round ids, a house edge within
    /// [0, 10000], no rounds before initialization, and every round
    /// well formed.
    pub closed spec fn wf(self) -> bool {
        &&& self.rounds.wf()
        &&& (self.config matches Some(c) ==> 0 <= c.house_edge_bps <= 10000)
        &&& (self.config is None ==> forall|k: u128| self.rounds.spec_get(k) is None)
        &&& forall|k: u128|
            (#[trigger] self.rounds.spec_get(k)) matches Some(e) ==> entry_wf(
                e,
                self.spec_house_edge_bps(),
            )
    }

    /// A fresh, uninitialized contract whose escrow lives in account
    /// `contract` of the token ledger.
    pub fn new(contract: u64) -> (s: PricePrediction)
        ensures
            s.wf(),
            s.spec_contract() == contract,
            s.spec_config() is None,
            forall|id: u64| s.spec_round(id) is None,
            forall|id: u64, p: u64| s.spec_bet(id, p) is None,
            s.spec_events() == Seq::<Event>::empty(),
    {
        PricePrediction { contract, config: None, rounds: Table::new(), events: Vec::new() }
    }

    /// Initialize the price prediction game.  `house_edge_bps` is the
    /// house edge in basis points (e.g., 500 = 5%); the configuration
    /// contract bounds it by 100%.  Fails with `AlreadyInitialized` —
    /// and changes nothing — exactly when a configuration exists.
    pub fn init(
        &mut self,
        admin: u64,
        oracle_contract: u64,
        token: u64,
        min_wager: i128,
        max_wager: i128,
        house_edge_bps: i128,
    ) -> (r: Result<(), Error>)
        requires
            old(self).wf(),
            0 <= house_edge_bps <= 10000,
        ensures
            final(self).wf(),
            final(self).spec_contract() == old(self).spec_contract(),
            match r {
                Ok(()) => {
                    &&& old(self).spec_config() is None
                    &&& final(self).spec_config() == Some(
                        Config {
                            admin,
                            oracle: oracle_contract,
                            token,
                            min_wager,
                            max_wager,
                            house_edge_bps,
                        },
                    )
                    &&& forall|id: u64| final(self).spec_round(id) == old(self).spec_round(id)
                    &&& forall|id: u64, p: u64|
                        final(self).spec_bet(id, p) == old(self).spec_bet(id, p)
                    &&& final(self).spec_events() == old(self).spec_events()
                },
                Err(e) => {
                    &&& e == Error::AlreadyInitialized
                    &&& old(self).spec_config() is Some
                    &&& *final(self) == *old(self)
                },
            },
    {
        if self.config.is_some() {
            return Err(Error::AlreadyInitialized);
        }
        self.config = Some(
            Config { admin, oracle: oracle_contract, token, min_wager, max_wager, house_edge_bps },
        );
        Ok(())
    }

    /// The errors `open_market` can raise, in the order it checks for
    /// them: only the admin may open, the deadline must lie strictly in
    /// the future, the round id must be fresh, and the oracle's opening
    /// price must be strictly positive.
    pub open spec fn spec_open_check(
        self,
        caller: u64,
        round_id: u64,
        close_time: u64,
        now: u64,
        open_price: i128,
    ) -> Result<(), Error> {
        if self.spec_config() is None {
            Err(Error::NotInitialized)
        } else if caller != self.spec_config()->Some_0.admin {
            Err(Error::NotAuthorized)
        } else if close_time <= now {
            Err(Error::InvalidCloseTime)
        } else if self.spec_round(round_id) is Some {
            Err(Error::RoundAlreadyExists)
        } else if open_price <= 0 {
            Err(Error::InvalidPrice)
        } else {
            Ok(())
        }
    }

    /// Open a new prediction market round.  Admin only; the host
    /// authenticates `caller` and queries the oracle for `open_price`.
    /// On success the round starts with empty sides and is open for
    /// wagers until `close_time`.
    pub fn open_market(
        &mut self,
        caller: u64,
        round_id: u64,
        asset: u64,
        close_time: u64,
        now: u64,
        open_price: i128,
    ) -> (r: Result<(), Error>)
        requires
            old(self).wf(),
        ensures
            final(self).wf(),
            final(self).spec_contract() == old(self).spec_contract(),
            final(self).spec_config() == old(self).spec_config(),
            match r {
                Err(e) => {
                    &&& *final(self) == *old(self)
                    &&& Err::<(), Error>(e) == old(self).spec_open_check(
                        caller,
                        round_id,
                        close_time,
                        now,
                        open_price,
                    )
                },
                Ok(()) => {
                    &&& old(self).spec_open_check(caller, round_id, close_time, now, open_price)
                        is Ok
                    &&& final(self).spec_round(round_id) == Some(
                        RoundData {
                            asset,
                            open_price,
                            close_price: 0,
                            close_time,
                            total_up: 0,
                            total_down: 0,
                            settled: false,
                            outcome: 0,
                            is_push: false,
                            net_pool: 0,
                            winning_total: 0,
                        },
                    )
                    &&& forall|id: u64|
                        id != round_id ==> final(self).spec_round(id) == old(self).spec_round(id)
                    &&& forall|id: u64, p: u64|
                        id != round_id ==> final(self).spec_bet(id, p) == old(self).spec_bet(id, p)
                    &&& forall|p: u64| final(self).spec_bet(round_id, p) is None
                    &&& final(self).spec_events() == old(self).spec_events().push(
                        Event::Opened(MarketOpened { round_id, asset, open_price, close_time }),
                    )
                },
            },
    {
        let c = match &self.config {
            None => {
                return Err(Error::NotInitialized);
            },
            Some(c) => *c,
        };
        if caller != c.admin {
            return Err(Error::NotAuthorized);
        }
        if close_time <= now {
            return Err(Error::InvalidCloseTime);
        }
        if self.rounds.contains(round_id as u128) {
            return Err(Error::RoundAlreadyExists);
        }
        if open_price <= 0 {
            return Err(Error::InvalidPrice);
        }
        let data = RoundData {
            asset,
            open_price,
            close_price: 0,
            close_time,
            total_up: 0,
            total_down: 0,
            settled: false,
            outcome: 0,
            is_push: false,
            net_pool: 0,
            winning_total: 0,
        };
        let entry = RoundEntry { data, bets: Table::new() };
        self.rounds.put(round_id as u128, entry);
        self.events.push(Event::Opened(MarketOpened { round_id, asset, open_price, close_time }));
        proof {
            assert forall|k: u128| (#[trigger] self.rounds.spec_get(k)) is Some implies entry_wf(
                self.rounds.spec_get(k)->Some_0,
                self.spec_house_edge_bps(),
            ) by {
                if k != round_id as u128 {
                    assert(self.rounds.spec_get(k) == old(self).rounds.spec_get(k));
                }
            }
            assert forall|id: u64| id != round_id implies final(self).spec_round(id) == old(
                self,
            ).spec_round(id) by {
                assert(id as u128 != round_id as u128);
            }
            assert forall|id: u64, p: u64| id != round_id implies final(self).spec_bet(id, p)
                == old(self).spec_bet(id, p) by {
                assert(id as u128 != round_id as u128);
            }
        }
        Ok(())
    }

    /// The errors `place_prediction` can raise, in the order it checks
    /// for them: the wager must name a side, be positive and lie within
    /// the configured bounds; the round must exist, be unsettled and
    /// still open; the player must not have bet before; the side total
    /// must still fit; and the player must be able to cover the wager.
    pub open spec fn spec_place_check(
        self,
        token: Accounts,
        player: u64,
        round_id: u64,
        direction: u32,
        wager: i128,
        now: u64,
    ) -> Result<(), Error> {
        if self.spec_config() is None {
            Err(Error::NotInitialized)
        } else if !valid_direction(direction) {
            Err(Error::InvalidDirection)
        } else if wager <= 0 {
            Err(Error::InvalidAmount)
        } else if wager < self.spec_config()->Some_0.min_wager {
            Err(Error::WagerTooLow)
        } else if wager > self.spec_config()->Some_0.max_wager {
            Err(Error::WagerTooHigh)
        } else if self.spec_round(round_id) is None {
            Err(Error::RoundNotFound)
        } else if self.spec_round(round_id)->Some_0.settled {
            Err(Error::AlreadySettled)
        } else if now >= self.spec_round(round_id)->Some_0.close_time {
            Err(Error::RoundClosed)
        } else if self.spec_bet(round_id, player) is Some {
            Err(Error::BetAlreadyPlaced)
        } else if (if direction == DIRECTION_UP {
            self.spec_round(round_id)->Some_0.total_up
        } else {
            self.spec_round(round_id)->Some_0.total_down
        }) + wager > i128::MAX {
            Err(Error::Overflow)
        } else if token.balance(player) < wager {
            Err(Error::InsufficientBalance)
        } else if player != self.spec_contract() && token.balance(self.spec_contract()) + wager
            > i128::MAX {
            Err(Error::Overflow)
        } else {
            Ok(())
        }
    }

    /// Player places a prediction on an open round.  `direction` is 0
    /// for up, 1 for down.  The host authenticates `player` and hands
    /// in the current ledger time; the wager moves from the player into
    /// the contract's escrow account on the token ledger.  Each player
    /// may bet at most once per round; every validation runs before any
    /// state or balance changes, so a failed call changes nothing.
    pub fn place_prediction(
        &mut self,
        token: &mut Accounts,
        player: u64,
        round_id: u64,
        direction: u32,
        wager: i128,
        now: u64,
    ) -> (r: Result<(), Error>)
        requires
            old(self).wf(),
            old(token).wf(),
        ensures
            final(self).wf(),
            final(token).wf(),
            final(self).spec_contract() == old(self).spec_contract(),
            final(self).spec_config() == old(self).spec_config(),
            match r {
                Err(e) => {
                    &&& *final(self) == *old(self)
                    &&& *final(token) == *old(token)
                    &&& Err::<(), Error>(e) == old(self).spec_place_check(
                        *old(token),
                        player,
                        round_id,
                        direction,
                        wager,
                        now,
                    )
                },
                Ok(()) => {
                    &&& old(self).spec_place_check(
                        *old(token),
                        player,
                        round_id,
                        direction,
                        wager,
                        now,
                    ) is Ok
                    &&& final(self).spec_bet(round_id, player) == Some(
                        BetData { direction, wager, claimed: false },
                    )
                    &&& (old(self).spec_round(round_id) matches Some(before) && {
                        let after = if direction == DIRECTION_UP {
                            RoundData { total_up: (before.total_up + wager) as i128, ..before }
                        } else {
                            RoundData { total_down: (before.total_down + wager) as i128, ..before }
                        };
                        final(self).spec_round(round_id) == Some(after)
                    })
                    &&& forall|id: u64|
                        id != round_id ==> final(self).spec_round(id) == old(self).spec_round(id)
                    &&& forall|id: u64, p: u64|
                        !(id == round_id && p == player) ==> final(self).spec_bet(id, p) == old(
                            self,
                        ).spec_bet(id, p)
                    &&& Accounts::transferred(
                        *old(token),
                        *final(token),
                        player,
                        old(self).spec_contract(),
                        wager,
                    )
                    &&& final(self).spec_events() == old(self).spec_events().push(
                        Event::Placed(PredictionPlaced { round_id, player, direction, wager }),
                    )
                },
            },
    {
        let c = match &self.config {
            None => {
                return Err(Error::NotInitialized);
            },
            Some(c) => *c,
        };
        if direction != DIRECTION_UP && direction != DIRECTION_DOWN {
            return Err(Error::InvalidDirection);
        }
        if wager <= 0 {
            return Err(Error::InvalidAmount);
        }
        if wager < c.min_wager {
            return Err(Error::WagerTooLow);
        }
        if wager > c.max_wager {
            return Err(Error::WagerTooHigh);
        }
        let side_total = match self.rounds.get(round_id as u128) {
            None => {
                return Err(Error::RoundNotFound);
            },
            Some(e) => {
                if e.data.settled {
                    return Err(Error::AlreadySettled);
                }
                if now >= e.data.close_time {
                    return Err(Error::RoundClosed);
                }
                proof {
                    assert(entry_wf(
                        self.rounds.spec_get(round_id as u128)->Some_0,
                        self.spec_house_edge_bps(),
                    ));
                }
                if e.bets.contains(player as u128) {
                    return Err(Error::BetAlreadyPlaced);
                }
                if direction == DIRECTION_UP {
                    e.data.total_up
                } else {
                    e.data.total_down
                }
            },
        };
        let updated_side = match side_total.checked_add(wager) {
            Some(v) => v,
            None => {
                return Err(Error::Overflow);
            },
        };
        // Every validation has passed; escrow the wager, then record
        // the bet and the new side total.
        match token.transfer(player, self.contract, wager) {
            Err(crate::shared::Error::InsufficientBalance) => {
                return Err(Error::InsufficientBalance);
            },
            Err(_) => {
                return Err(Error::Overflow);
            },
            Ok(()) => {},
        }
        let mut entry = match self.rounds.take(round_id as u128) {
            None => {
                proof {
                    assert(false);
                }
                return Err(Error::RoundNotFound);
            },
            Some(e) => e,
        };
        entry.bets.put(player as u128, BetData { direction, wager, claimed: false });
        if direction == DIRECTION_UP {
            entry.data.total_up = updated_side;
        } else {
            entry.data.total_down = updated_side;
        }
        self.rounds.put(round_id as u128, entry);
        self.events.push(Event::Placed(PredictionPlaced { round_id, player, direction, wager }));
        proof {
            let k = round_id as u128;
            let e0 = old(self).rounds.spec_get(k)->Some_0;
            let e1 = self.rounds.spec_get(k)->Some_0;
            let pair = (player as u128, BetData { direction, wager, claimed: false });
            assert(e1.bets.entries() == e0.bets.entries().push(pair));
            lemma_seq_sum_push(e0.bets.entries(), pair, side_weight(DIRECTION_UP));
            lemma_seq_sum_push(e0.bets.entries(), pair, side_weight(DIRECTION_DOWN));
            assert(entry_wf(e1, self.spec_house_edge_bps())) by {
                assert forall|i: int| 0 <= i < e1.bets.entries().len() implies bet_wf(
                    (#[trigger] e1.bets.entries()[i]).1,
                    e1.data.settled,
                ) by {
                    if i < e0.bets.entries().len() {
                        assert(e1.bets.entries()[i] == e0.bets.entries()[i]);
                        assert(bet_wf(e0.bets.entries()[i].1, e0.data.settled));
                    } else {
                        assert(e1.bets.entries()[i] == pair);
                    }
                }
            }
            assert forall|k2: u128| (#[trigger] self.rounds.spec_get(k2)) is Some implies entry_wf(
                self.rounds.spec_get(k2)->Some_0,
                self.spec_house_edge_bps(),
            ) by {
                if k2 != k {
                    assert(self.rounds.spec_get(k2) == old(self).rounds.spec_get(k2));
                    assert(entry_wf(
                        old(self).rounds.spec_get(k2)->Some_0,
                        old(self).spec_house_edge_bps(),
                    ));
                }
            }
            assert forall|id: u64| id != round_id implies final(self).spec_round(id) == old(
                self,
            ).spec_round(id) by {
                assert(id as u128 != round_id as u128);
            }
            assert forall|id: u64, p: u64| !(id == round_id && p == player) implies final(self)
                .spec_bet(id, p) == old(self).spec_bet(id, p) by {
                if id != round_id {
                    assert(id as u128 != round_id as u128);
                } else {
                    assert(p as u128 != player as u128);
                }
            }
            token.lemma_balance_bounds(old(self).spec_contract());
        }
        Ok(())
    }

    /// The errors `settle_round` can raise, in the order it checks for
    /// them: the round must exist, must not be settled yet, and its
    /// deadline must have passed; then the settlement arithmetic itself
    /// can overflow.
    pub open spec fn spec_settle_check(self, round_id: u64, now: u64, close_price: i128) -> Result<
        (),
        Error,
    > {
        if self.spec_config() is None {
            Err(Error::NotInitialized)
        } else if self.spec_round(round_id) is None {
            Err(Error::RoundNotFound)
        } else if self.spec_round(round_id)->Some_0.settled {
            Err(Error::AlreadySettled)
        } else if now < self.spec_round(round_id)->Some_0.close_time {
            Err(Error::RoundNotClosed)
        } else {
            let before = self.spec_round(round_id)->Some_0;
            match spec_settle(
                before.open_price,
                close_price,
                before.total_up,
                before.total_down,
                self.spec_house_edge_bps(),
            ) {
                Ok(_) => Ok(()),
                Err(e) => Err(e),
            }
        }
    }

    /// Settle a round after `close_time` has passed.  Anyone can call
    /// this — the outcome is deterministic from the oracle, whose
    /// closing price the host hands in.  On success the settlement
    /// fields of the round are frozen to exactly `spec_settle` of the
    /// opening price, the closing price, the two side totals and the
    /// house edge; the recorded bets are untouched.
    pub fn settle_round(&mut self, round_id: u64, now: u64, close_price: i128) -> (r: Result<
        (),
        Error,
    >)
        requires
            old(self).wf(),
        ensures
            final(self).wf(),
            final(self).spec_contract() == old(self).spec_contract(),
            final(self).spec_config() == old(self).spec_config(),
            match r {
                Err(e) => {
                    &&& *final(self) == *old(self)
                    &&& Err::<(), Error>(e) == old(self).spec_settle_check(
                        round_id,
                        now,
                        close_price,
                    )
                },
                Ok(()) => {
                    &&& old(self).spec_settle_check(round_id, now, close_price) is Ok
                    &&& (old(self).spec_round(round_id) matches Some(before) && {
                        let st = spec_settle(
                            before.open_price,
                            close_price,
                            before.total_up,
                            before.total_down,
                            old(self).spec_house_edge_bps(),
                        )->Ok_0;
                        final(self).spec_round(round_id) == Some(
                            RoundData {
                                close_price,
                                settled: true,
                                outcome: st.outcome,
                                is_push: st.is_push,
                                net_pool: st.net_pool,
                                winning_total: st.winning_total,
                                ..before
                            },
                        )
                    })
                    &&& forall|id: u64|
                        id != round_id ==> final(self).spec_round(id) == old(self).spec_round(id)
                    &&& forall|id: u64, p: u64|
                        final(self).spec_bet(id, p) == old(self).spec_bet(id, p)
                    &&& ({
                        let st = spec_settle(
                            old(self).spec_round(round_id)->Some_0.open_price,
                            close_price,
                            old(self).spec_round(round_id)->Some_0.total_up,
                            old(self).spec_round(round_id)->Some_0.total_down,
                            old(self).spec_house_edge_bps(),
                        )->Ok_0;
                        final(self).spec_events() == old(self).spec_events().push(
                            Event::Settled(
                                RoundSettled {
                                    round_id,
                                    close_price,
                                    outcome: st.outcome,
                                    is_push: st.is_push,
                                    net_pool: st.net_pool,
                                },
                            ),
                        )
                    })
                },
            },
    {
        let c = match &self.config {
            None => {
                return Err(Error::NotInitialized);
            },
            Some(c) => *c,
        };
        let (open_price, total_up, total_down) = match self.rounds.get(round_id as u128) {
            None => {
                return Err(Error::RoundNotFound);
            },
            Some(e) => {
                if e.data.settled {
                    return Err(Error::AlreadySettled);
                }
                if now < e.data.close_time {
                    return Err(Error::RoundNotClosed);
                }
                (e.data.open_price, e.data.total_up, e.data.total_down)
            },
        };
        proof {
            assert(entry_wf(
                self.rounds.spec_get(round_id as u128)->Some_0,
                self.spec_house_edge_bps(),
            ));
        }
        let st = match compute_settlement(open_price, close_price, total_up, total_down, c.house_edge_bps) {
            Err(e) => {
                return Err(e);
            },
            Ok(st) => st,
        };
        let mut entry = match self.rounds.take(round_id as u128) {
            None => {
                proof {
                    assert(false);
                }
                return Err(Error::RoundNotFound);
            },
            Some(e) => e,
        };
        entry.data.close_price = close_price;
        entry.data.settled = true;
        entry.data.outcome = st.outcome;
        entry.data.is_push = st.is_push;
        entry.data.net_pool = st.net_pool;
        entry.data.winning_total = st.winning_total;
        self.rounds.put(round_id as u128, entry);
        self.events.push(
            Event::Settled(
                RoundSettled {
                    round_id,
                    close_price,
                    outcome: st.outcome,
                    is_push: st.is_push,
                    net_pool: st.net_pool,
                },
            ),
        );
        proof {
            assert forall|k: u128| (#[trigger] self.rounds.spec_get(k)) is Some implies entry_wf(
                self.rounds.spec_get(k)->Some_0,
                self.spec_house_edge_bps(),
            ) by {
                if k != round_id as u128 {
                    assert(self.rounds.spec_get(k) == old(self).rounds.spec_get(k));
                    assert(entry_wf(
                        old(self).rounds.spec_get(k)->Some_0,
                        old(self).spec_house_edge_bps(),
                    ));
                }
            }
            assert forall|id: u64| id != round_id implies final(self).spec_round(id) == old(
                self,
            ).spec_round(id) by {
                assert(id as u128 != round_id as u128);
            }
            assert forall|id: u64, p: u64| final(self).spec_bet(id, p) == old(self).spec_bet(
                id,
                p,
            ) by {
                if id != round_id {
                    assert(id as u128 != round_id as u128);
                }
            }
        }
        Ok(())
    }

    /// The errors `claim` can raise, in the order it checks for them:
    /// the round must exist and be settled, the player must hold an
    /// unclaimed bet that is owed something, and the escrow must be
    /// able to pay it out.
    pub open spec fn spec_claim_check(self, token: Accounts, player: u64, round_id: u64) -> Result<
        i128,
        Error,
    > {
        if self.spec_config() is None {
            Err(Error::NotInitialized)
        } else if self.spec_round(round_id) is None {
            Err(Error::RoundNotFound)
        } else if !self.spec_round(round_id)->Some_0.settled {
            Err(Error::NotSettled)
        } else if self.spec_bet(round_id, player) is None {
            Err(Error::BetNotFound)
        } else {
            match spec_claim_payout(
                self.spec_round(round_id)->Some_0,
                self.spec_bet(round_id, player)->Some_0,
            ) {
                Err(e) => Err(e),
                Ok(payout) => {
                    if token.balance(self.spec_contract()) < payout {
                        Err(Error::InsufficientBalance)
                    } else if player != self.spec_contract() && token.balance(player) + payout
                        > i128::MAX {
                        Err(Error::Overflow)
                    } else {
                        Ok(payout)
                    }
                },
            }
        }
    }

    /// Claim winnings for a settled round.  Winners receive their
    /// proportional share of the net pool; in a push round every player
    /// receives a full refund of the wager.  Losers cannot claim
    /// (`NoPayout`), and a bet pays out at most once: the claim is
    /// recorded together with the escrow release in one atomic step,
    /// and any further claim fails with `AlreadyClaimed`.  A refused
    /// release fails the whole call with nothing recorded, so the bet
    /// stays claimable and can never pay twice.  The payout moves from
    /// the contract's escrow account to the player on the token
    /// ledger.
    pub fn claim(&mut self, token: &mut Accounts, player: u64, round_id: u64) -> (r: Result<
        (),
        Error,
    >)
        requires
            old(self).wf(),
            old(token).wf(),
        ensures
            final(self).wf(),
            final(token).wf(),
            final(self).spec_contract() == old(self).spec_contract(),
            final(self).spec_config() == old(self).spec_config(),
            match r {
                Err(e) => {
                    &&& *final(self) == *old(self)
                    &&& *final(token) == *old(token)
                    &&& Err::<i128, Error>(e) == old(self).spec_claim_check(
                        *old(token),
                        player,
                        round_id,
                    )
                },
                Ok(()) => {
                    &&& (old(self).spec_claim_check(*old(token), player, round_id) matches Ok(
                        payout,
                    ) && {
                        &&& Accounts::transferred(
                            *old(token),
                            *final(token),
                            old(self).spec_contract(),
                            player,
                            payout,
                        )
                        &&& (old(self).spec_bet(round_id, player) matches Some(b) && final(self)
                            .spec_bet(round_id, player) == Some(BetData { claimed: true, ..b }))
                        &&& final(self).spec_events() == old(self).spec_events().push(
                            Event::Paid(Claimed { round_id, player, payout }),
                        )
                    })
                    &&& forall|id: u64| final(self).spec_round(id) == old(self).spec_round(id)
                    &&& forall|id: u64, p: u64|
                        !(id == round_id && p == player) ==> final(self).spec_bet(id, p) == old(
                            self,
                        ).spec_bet(id, p)
                },
            },
    {
        let c = match &self.config {
            None => {
                return Err(Error::NotInitialized);
            },
            Some(c) => *c,
        };
        let (round_data, bet) = match self.rounds.get(round_id as u128) {
            None => {
                return Err(Error::RoundNotFound);
            },
            Some(e) => {
                if !e.data.settled {
                    return Err(Error::NotSettled);
                }
                proof {
                    assert(entry_wf(
                        self.rounds.spec_get(round_id as u128)->Some_0,
                        self.spec_house_edge_bps(),
                    ));
                }
                match e.bets.get(player as u128) {
                    None => {
                        return Err(Error::BetNotFound);
                    },
                    Some(b) => (e.data, *b),
                }
            },
        };
        if bet.claimed {
            return Err(Error::AlreadyClaimed);
        }
        proof {
            lemma_settled_round_bounds(round_data, c.house_edge_bps);
            lemma_bet_facts(
                old(self).rounds.spec_get(round_id as u128)->Some_0,
                player,
                c.house_edge_bps,
            );
        }
        let payout = match compute_claim_payout(&round_data, &bet) {
            Err(e) => {
                return Err(e);
            },
            Ok(p) => p,
        };
        // The pay-out is committed only after the escrow release
        // succeeds; a refused transfer leaves the bet claimable.
        match token.transfer(self.contract, player, payout) {
            Err(crate::shared::Error::InsufficientBalance) => {
                return Err(Error::InsufficientBalance);
            },
            Err(_) => {
                return Err(Error::Overflow);
            },
            Ok(()) => {},
        }
        let mut entry = match self.rounds.take(round_id as u128) {
            None => {
                proof {
                    assert(false);
                }
                return Err(Error::RoundNotFound);
            },
            Some(e) => e,
        };
        let mut updated = bet;
        updated.claimed = true;
        entry.bets.put(player as u128, updated);
        self.rounds.put(round_id as u128, entry);
        self.events.push(Event::Paid(Claimed { round_id, player, payout }));
        proof {
            let k = round_id as u128;
            let e0 = old(self).rounds.spec_get(k)->Some_0;
            let e1 = self.rounds.spec_get(k)->Some_0;
            let s0 = e0.bets.entries();
            let pair = (player as u128, updated);
            let i = choose|i: int|
                0 <= i < s0.len() && (#[trigger] s0[i]).0 == player as u128 && e1.bets.entries()
                    == s0.update(i, pair);
            e0.bets.lemma_get_entries(player as u128);
            assert(s0[i].1 == bet);
            lemma_seq_sum_update(s0, i, pair, side_weight(DIRECTION_UP));
            lemma_seq_sum_update(s0, i, pair, side_weight(DIRECTION_DOWN));
            assert(entry_wf(e1, self.spec_house_edge_bps())) by {
                assert forall|j: int| 0 <= j < e1.bets.entries().len() implies bet_wf(
                    (#[trigger] e1.bets.entries()[j]).1,
                    e1.data.settled,
                ) by {
                    if j != i {
                        assert(e1.bets.entries()[j] == s0[j]);
                        assert(bet_wf(s0[j].1, e0.data.settled));
                    } else {
                        assert(e1.bets.entries()[j] == pair);
                    }
                }
            }
            assert forall|k2: u128| (#[trigger] self.rounds.spec_get(k2)) is Some implies entry_wf(
                self.rounds.spec_get(k2)->Some_0,
                self.spec_house_edge_bps(),
            ) by {
                if k2 != k {
                    assert(self.rounds.spec_get(k2) == old(self).rounds.spec_get(k2));
                    assert(entry_wf(
                        old(self).rounds.spec_get(k2)->Some_0,
                        old(self).spec_house_edge_bps(),
                    ));
                }
            }
            assert forall|id: u64| final(self).spec_round(id) == old(self).spec_round(id) by {
                if id != round_id {
                    assert(id as u128 != round_id as u128);
                }
            }
            assert forall|id: u64, p: u64| !(id == round_id && p == player) implies final(self)
                .spec_bet(id, p) == old(self).spec_bet(id, p) by {
                if id != round_id {
                    assert(id as u128 != round_id as u128);
                } else {
                    assert(p as u128 != player as u128);
                }
            }
            token.lemma_balance_bounds(player);
        }
        Ok(())
    }

    /// The sum, over every bet of round `round_id` on the winning
    /// side, of the floored proportional share
    /// `net_pool * wager / winning_total` that `claim` pays out.
    pub closed spec fn spec_winner_share_sum(self, round_id: u64) -> int {
        match self.rounds.spec_get(round_id as u128) {
            Some(e) => seq_sum(
                e.bets.entries(),
                share_weight(e.data.outcome, e.data.net_pool, e.data.winning_total),
            ),
            None => 0,
        }
    }

    /// At any point in a round's life, `total_up + total_down` equals
    /// the sum of all wagers successfully placed on that round.
    pub proof fn lemma_pool_accounts_for_wagers(self, round_id: u64)
        requires
            self.wf(),
            self.spec_round(round_id) is Some,
        ensures
            self.spec_round(round_id)->Some_0.total_up + self.spec_round(round_id)->Some_0.total_down
                == self.spec_wager_sum(round_id),
    {
        let e = self.rounds.spec_get(round_id as u128)->Some_0;
        assert(entry_wf(e, self.spec_house_edge_bps()));
        let s = e.bets.entries();
        assert forall|i: int| 0 <= i < s.len() implies wager_weight()(#[trigger] s[i])
            == side_weight(DIRECTION_UP)(s[i]) + side_weight(DIRECTION_DOWN)(s[i]) by {
            assert(bet_wf(s[i].1, e.data.settled));
        }
        lemma_seq_sum_split(
            s,
            side_weight(DIRECTION_UP),
            side_weight(DIRECTION_DOWN),
            wager_weight(),
        );
    }

    /// In a push round, every recorded, unclaimed bet is owed exactly
    /// its original wager — no fee is withheld — and those refunds sum
    /// to exactly `total_up + total_down`.
    pub proof fn lemma_push_refunds_cover_pool(self, round_id: u64)
        requires
            self.wf(),
            self.spec_round(round_id) is Some,
            self.spec_round(round_id)->Some_0.settled,
            self.spec_round(round_id)->Some_0.is_push,
        ensures
            forall|p: u64|
                #[trigger] self.spec_bet(round_id, p) is Some && !self.spec_bet(
                    round_id,
                    p,
                )->Some_0.claimed ==> spec_claim_payout(
                    self.spec_round(round_id)->Some_0,
                    self.spec_bet(round_id, p)->Some_0,
                ) == Ok::<i128, Error>(self.spec_bet(round_id, p)->Some_0.wager),
            self.spec_wager_sum(round_id) == self.spec_round(round_id)->Some_0.total_up + self
                .spec_round(round_id)->Some_0.total_down,
    {
        let e = self.rounds.spec_get(round_id as u128)->Some_0;
        assert(entry_wf(e, self.spec_house_edge_bps()));
        assert forall|p: u64|
            #[trigger] self.spec_bet(round_id, p) is Some && !self.spec_bet(
                round_id,
                p,
            )->Some_0.claimed implies spec_claim_payout(
            self.spec_round(round_id)->Some_0,
            self.spec_bet(round_id, p)->Some_0,
        ) == Ok::<i128, Error>(self.spec_bet(round_id, p)->Some_0.wager) by {
            lemma_bet_facts(e, p, self.spec_house_edge_bps());
        }
        self.lemma_pool_accounts_for_wagers(round_id);
    }

    /// In a decisive round, the net pool is the total pool less the
    /// floored basis-point fee, and the floored shares owed to the
    /// winning side sum to at most the net pool and never to a
    /// negative amount: rounding dust is bounded and the engine can
    /// never owe more than it withheld.
    pub proof fn lemma_winner_payouts_bounded(self, round_id: u64)
        requires
            self.wf(),
            self.spec_round(round_id) is Some,
            self.spec_round(round_id)->Some_0.settled,
            !self.spec_round(round_id)->Some_0.is_push,
        ensures
            ({
                let round = self.spec_round(round_id)->Some_0;
                let total_pool = round.total_up + round.total_down;
                &&& round.net_pool == total_pool - total_pool * self.spec_house_edge_bps() / (
                BASIS_POINTS_DIVISOR as int)
                &&& 0 <= self.spec_winner_share_sum(round_id)
                &&& self.spec_winner_share_sum(round_id) <= round.net_pool
            }),
    {
        let e = self.rounds.spec_get(round_id as u128)->Some_0;
        assert(entry_wf(e, self.spec_house_edge_bps()));
        lemma_settled_round_bounds(e.data, self.spec_house_edge_bps() as i128);
        let s = e.bets.entries();
        assert forall|i: int| 0 <= i < s.len() implies (#[trigger] s[i]).1.wager >= 0 by {
            assert(bet_wf(s[i].1, e.data.settled));
        }
        lemma_share_sum_bounded(s, e.data.outcome, e.data.net_pool, e.data.winning_total);
        let net = e.data.net_pool as int;
        let wt = e.data.winning_total as int;
        assert(seq_sum(s, side_weight(e.data.outcome)) == wt);
        assert(net * wt / wt == net) by {
            vstd::arithmetic::div_mod::lemma_div_multiples_vanish(net, wt);
            vstd::arithmetic::mul::lemma_mul_is_commutative(net, wt);
        }
    }

    /// A second claim on the same round and participant always fails:
    /// in any state in which the bet is already recorded as claimed —
    /// as it is after every successful claim, by `claim`'s
    /// postcondition — claiming fails with `AlreadyClaimed`, and by
    /// `claim`'s error postcondition pays nothing and changes nothing.
    pub proof fn lemma_second_claim_fails(self, token: Accounts, player: u64, round_id: u64)
        requires
            self.spec_config() is Some,
            self.spec_round(round_id) matches Some(round) && round.settled,
            self.spec_bet(round_id, player) matches Some(bet) && bet.claimed,
        ensures
            self.spec_claim_check(token, player, round_id) == Err::<i128, Error>(
                Error::AlreadyClaimed,
            ),
    {
    }

    /// View a round's state.  Fails with `RoundNotFound` exactly when
    /// no round is stored under `round_id`.
    pub fn get_round(&self, round_id: u64) -> (r: Result<RoundData, Error>)
        requires
            self.wf(),
        ensures
            match r {
                Ok(data) => self.spec_round(round_id) == Some(data),
                Err(e) => e == Error::RoundNotFound && self.spec_round(round_id) is None,
            },
    {
        match self.rounds.get(round_id as u128) {
            Some(e) => Ok(e.data),
            None => Err(Error::RoundNotFound),
        }
    }

    /// The notification log so far, oldest first.
    pub fn events(&self) -> (r: &Vec<Event>)
        ensures
            r@ == self.spec_events(),
    {
        &self.events
    }

    /// View a player's bet in a round.  Fails with `BetNotFound`
    /// exactly when the player never wagered there.
    pub fn get_bet(&self, round_id: u64, player: u64) -> (r: Result<BetData, Error>)
        requires
            self.wf(),
        ensures
            match r {
                Ok(bet) => self.spec_bet(round_id, player) == Some(bet),
                Err(e) => e == Error::BetNotFound && self.spec_bet(round_id, player) is None,
            },
    {
        match self.rounds.get(round_id as u128) {
            Some(e) => {
                proof {
                    assert(entry_wf(
                        self.rounds.spec_get(round_id as u128)->Some_0,
                        self.spec_house_edge_bps(),
                    ));
                }
                match e.bets.get(player as u128) {
                    Some(bet) => Ok(*bet),
                    None => Err(Error::BetNotFound),
                }
            },
            None => Err(Error::BetNotFound),
        }
    }
}

} // verus!
