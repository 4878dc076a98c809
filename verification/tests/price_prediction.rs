//! Tests for the price prediction contract: round lifecycle, wagering,
//! pari-mutuel settlement and pull-based claims.

use stellarcade::accounts::Accounts;
use stellarcade::price_prediction::{
    compute_settlement, Claimed, Error, Event, MarketOpened, PredictionPlaced, PricePrediction,
    RoundSettled, Settlement, DIRECTION_DOWN, DIRECTION_UP, OUTCOME_DOWN, OUTCOME_FLAT,
    OUTCOME_UP,
};

const ADMIN: u64 = 1;
const ORACLE: u64 = 2;
const TOKEN: u64 = 3;
const CONTRACT: u64 = 9;
const BTC: u64 = 1001;
const ETH: u64 = 1002;

/// Mirrors the deployment: min = 10, max = 10 000, house edge 500 bps
/// (5%), the escrow funded for pay-outs, and the clock at 1000.
fn setup() -> (PricePrediction, Accounts) {
    let mut market = PricePrediction::new(CONTRACT);
    market
        .init(ADMIN, ORACLE, TOKEN, 10, 10_000, 500)
        .unwrap();
    let mut token = Accounts::new();
    token.set_balance(CONTRACT, 1_000_000);
    (market, token)
}

fn player(token: &mut Accounts, id: u64, balance: i128) -> u64 {
    token.set_balance(id, balance);
    id
}

#[test]
fn test_init_rejects_reinit() {
    let (mut market, _) = setup();
    let result = market.init(ADMIN, ORACLE, TOKEN, 10, 10_000, 500);
    assert!(result.is_err());
}

#[test]
fn test_open_market_happy_path() {
    let (mut market, _) = setup();
    market.open_market(ADMIN, 1, BTC, 2000, 1000, 50_000).unwrap();

    let round = market.get_round(1).unwrap();
    assert_eq!(round.open_price, 50_000);
    assert_eq!(round.close_time, 2000);
    assert!(!round.settled);
    assert_eq!(round.total_up, 0);
    assert_eq!(round.total_down, 0);
}

#[test]
fn test_open_market_duplicate_round_rejected() {
    let (mut market, _) = setup();
    market.open_market(ADMIN, 1, BTC, 2000, 1000, 50_000).unwrap();
    let result = market.open_market(ADMIN, 1, BTC, 3000, 1000, 50_000);
    assert!(result.is_err());
}

#[test]
fn test_open_market_past_close_time_rejected() {
    let (mut market, _) = setup();
    // The clock reads 1000, close_time = 500 (in the past).
    let result = market.open_market(ADMIN, 1, BTC, 500, 1000, 50_000);
    assert!(result.is_err());
}

#[test]
fn test_open_market_zero_price_rejected() {
    let (mut market, _) = setup();
    // The oracle reports no price for this asset.
    let result = market.open_market(ADMIN, 1, ETH, 2000, 1000, 0);
    assert!(result.is_err());
}

#[test]
fn test_place_prediction_up() {
    let (mut market, mut token) = setup();
    let p = player(&mut token, 10, 5000);

    market.open_market(ADMIN, 1, BTC, 2000, 1000, 50_000).unwrap();
    market
        .place_prediction(&mut token, p, 1, DIRECTION_UP, 100, 1000)
        .unwrap();

    let round = market.get_round(1).unwrap();
    assert_eq!(round.total_up, 100);
    assert_eq!(round.total_down, 0);

    let bet = market.get_bet(1, p).unwrap();
    assert_eq!(bet.direction, DIRECTION_UP);
    assert_eq!(bet.wager, 100);
    assert!(!bet.claimed);

    // The wager moved from the player into escrow.
    assert_eq!(token.balance_of(p), 4900);
}

#[test]
fn test_place_prediction_down() {
    let (mut market, mut token) = setup();
    let p = player(&mut token, 10, 5000);

    market.open_market(ADMIN, 1, BTC, 2000, 1000, 50_000).unwrap();
    market
        .place_prediction(&mut token, p, 1, DIRECTION_DOWN, 200, 1000)
        .unwrap();

    let round = market.get_round(1).unwrap();
    assert_eq!(round.total_up, 0);
    assert_eq!(round.total_down, 200);
}

#[test]
fn test_place_prediction_invalid_direction() {
    let (mut market, mut token) = setup();
    let p = player(&mut token, 10, 5000);

    market.open_market(ADMIN, 1, BTC, 2000, 1000, 50_000).unwrap();
    let result = market.place_prediction(&mut token, p, 1, 2, 100, 1000);
    assert!(result.is_err());
}

#[test]
fn test_place_prediction_wager_too_low() {
    let (mut market, mut token) = setup();
    let p = player(&mut token, 10, 5000);

    market.open_market(ADMIN, 1, BTC, 2000, 1000, 50_000).unwrap();
    // min = 10.
    let result = market.place_prediction(&mut token, p, 1, DIRECTION_UP, 5, 1000);
    assert!(result.is_err());
}

#[test]
fn test_place_prediction_wager_too_high() {
    let (mut market, mut token) = setup();
    let p = player(&mut token, 10, 50_000);

    market.open_market(ADMIN, 1, BTC, 2000, 1000, 50_000).unwrap();
    // max = 10000.
    let result = market.place_prediction(&mut token, p, 1, DIRECTION_UP, 10_001, 1000);
    assert!(result.is_err());
}

#[test]
fn test_place_prediction_zero_wager() {
    let (mut market, mut token) = setup();
    let p = player(&mut token, 10, 5000);

    market.open_market(ADMIN, 1, BTC, 2000, 1000, 50_000).unwrap();
    let result = market.place_prediction(&mut token, p, 1, DIRECTION_UP, 0, 1000);
    assert!(result.is_err());
}

#[test]
fn test_place_prediction_after_close_time_rejected() {
    let (mut market, mut token) = setup();
    let p = player(&mut token, 10, 5000);

    market.open_market(ADMIN, 1, BTC, 2000, 1000, 50_000).unwrap();

    // Time has advanced past the close.
    let result = market.place_prediction(&mut token, p, 1, DIRECTION_UP, 100, 3000);
    assert!(result.is_err());
}

#[test]
fn test_place_prediction_duplicate_rejected() {
    let (mut market, mut token) = setup();
    let p = player(&mut token, 10, 5000);

    market.open_market(ADMIN, 1, BTC, 2000, 1000, 50_000).unwrap();
    market
        .place_prediction(&mut token, p, 1, DIRECTION_UP, 100, 1000)
        .unwrap();

    let result = market.place_prediction(&mut token, p, 1, DIRECTION_DOWN, 200, 1000);
    assert!(result.is_err());
}

#[test]
fn test_place_prediction_round_not_found() {
    let (mut market, mut token) = setup();
    let p = player(&mut token, 10, 5000);

    let result = market.place_prediction(&mut token, p, 99, DIRECTION_UP, 100, 1000);
    assert!(result.is_err());
}

#[test]
fn test_settle_round_up_wins() {
    let (mut market, mut token) = setup();
    let a = player(&mut token, 10, 5000);
    let b = player(&mut token, 11, 5000);

    market.open_market(ADMIN, 1, BTC, 2000, 1000, 50_000).unwrap();
    market
        .place_prediction(&mut token, a, 1, DIRECTION_UP, 300, 1000)
        .unwrap();
    market
        .place_prediction(&mut token, b, 1, DIRECTION_DOWN, 500, 1000)
        .unwrap();

    // Time advances and the price went up.
    market.settle_round(1, 3000, 55_000).unwrap();

    let round = market.get_round(1).unwrap();
    assert!(round.settled);
    assert_eq!(round.outcome, OUTCOME_UP);
    assert!(!round.is_push);
    // Total pool = 800, fee = 800 * 500 / 10000 = 40, net = 760.
    assert_eq!(round.net_pool, 760);
    assert_eq!(round.winning_total, 300);
}

#[test]
fn test_settle_round_down_wins() {
    let (mut market, mut token) = setup();
    let a = player(&mut token, 10, 5000);
    let b = player(&mut token, 11, 5000);

    market.open_market(ADMIN, 1, BTC, 2000, 1000, 50_000).unwrap();
    market
        .place_prediction(&mut token, a, 1, DIRECTION_UP, 400, 1000)
        .unwrap();
    market
        .place_prediction(&mut token, b, 1, DIRECTION_DOWN, 600, 1000)
        .unwrap();

    market.settle_round(1, 3000, 45_000).unwrap();

    let round = market.get_round(1).unwrap();
    assert!(round.settled);
    assert_eq!(round.outcome, OUTCOME_DOWN);
    assert!(!round.is_push);
    // Total pool = 1000, fee = 50, net = 950.
    assert_eq!(round.net_pool, 950);
    assert_eq!(round.winning_total, 600);
}

#[test]
fn test_settle_round_flat_push() {
    let (mut market, mut token) = setup();
    let a = player(&mut token, 10, 5000);
    let b = player(&mut token, 11, 5000);

    market.open_market(ADMIN, 1, BTC, 2000, 1000, 50_000).unwrap();
    market
        .place_prediction(&mut token, a, 1, DIRECTION_UP, 100, 1000)
        .unwrap();
    market
        .place_prediction(&mut token, b, 1, DIRECTION_DOWN, 200, 1000)
        .unwrap();

    // Price unchanged: flat, so the round is a push.
    market.settle_round(1, 3000, 50_000).unwrap();

    let round = market.get_round(1).unwrap();
    assert!(round.settled);
    assert_eq!(round.outcome, OUTCOME_FLAT);
    assert!(round.is_push);
    assert_eq!(round.net_pool, 0);
}

#[test]
fn test_settle_round_before_close_rejected() {
    let (mut market, _) = setup();
    market.open_market(ADMIN, 1, BTC, 2000, 1000, 50_000).unwrap();
    // The clock reads 1000, close_time = 2000: too early.
    let result = market.settle_round(1, 1000, 55_000);
    assert!(result.is_err());
}

#[test]
fn test_settle_round_double_settle_rejected() {
    let (mut market, _) = setup();
    market.open_market(ADMIN, 1, BTC, 2000, 1000, 50_000).unwrap();

    market.settle_round(1, 3000, 55_000).unwrap();
    let result = market.settle_round(1, 3000, 55_000);
    assert!(result.is_err());
}

#[test]
fn test_settle_round_one_side_only_push() {
    let (mut market, mut token) = setup();
    let p = player(&mut token, 10, 5000);

    market.open_market(ADMIN, 1, BTC, 2000, 1000, 50_000).unwrap();
    // Only an up bet, no down bets.
    market
        .place_prediction(&mut token, p, 1, DIRECTION_UP, 500, 1000)
        .unwrap();

    // Price up, but no opposition.
    market.settle_round(1, 3000, 55_000).unwrap();

    let round = market.get_round(1).unwrap();
    assert!(round.settled);
    assert!(round.is_push);
}

#[test]
fn test_settle_round_no_bets_push() {
    let (mut market, _) = setup();
    market.open_market(ADMIN, 1, BTC, 2000, 1000, 50_000).unwrap();

    market.settle_round(1, 3000, 55_000).unwrap();

    let round = market.get_round(1).unwrap();
    assert!(round.settled);
    assert!(round.is_push);
}

#[test]
fn test_claim_winner() {
    let (mut market, mut token) = setup();
    let winner = player(&mut token, 10, 5000);
    let loser = player(&mut token, 11, 5000);

    market.open_market(ADMIN, 1, BTC, 2000, 1000, 50_000).unwrap();
    market
        .place_prediction(&mut token, winner, 1, DIRECTION_UP, 300, 1000)
        .unwrap();
    market
        .place_prediction(&mut token, loser, 1, DIRECTION_DOWN, 700, 1000)
        .unwrap();

    // Up wins.
    market.settle_round(1, 3000, 55_000).unwrap();
    market.claim(&mut token, winner, 1).unwrap();

    // Total pool = 1000, fee = 50, net = 950.
    // Winner's share = 950 * 300 / 300 = 950 (sole up bettor).
    let bet = market.get_bet(1, winner).unwrap();
    assert!(bet.claimed);
    assert_eq!(token.balance_of(winner), 5000 - 300 + 950);
}

#[test]
fn test_claim_push_refund() {
    let (mut market, mut token) = setup();
    let p = player(&mut token, 10, 5000);

    market.open_market(ADMIN, 1, BTC, 2000, 1000, 50_000).unwrap();
    market
        .place_prediction(&mut token, p, 1, DIRECTION_UP, 400, 1000)
        .unwrap();

    // Price unchanged: flat, so the round is a push.
    market.settle_round(1, 3000, 50_000).unwrap();
    market.claim(&mut token, p, 1).unwrap();

    // Full refund.
    assert_eq!(token.balance_of(p), 5000);
}

#[test]
fn test_claim_loser_rejected() {
    let (mut market, mut token) = setup();
    let winner = player(&mut token, 10, 5000);
    let loser = player(&mut token, 11, 5000);

    market.open_market(ADMIN, 1, BTC, 2000, 1000, 50_000).unwrap();
    market
        .place_prediction(&mut token, winner, 1, DIRECTION_UP, 300, 1000)
        .unwrap();
    market
        .place_prediction(&mut token, loser, 1, DIRECTION_DOWN, 700, 1000)
        .unwrap();

    // Up wins.
    market.settle_round(1, 3000, 55_000).unwrap();

    let result = market.claim(&mut token, loser, 1);
    assert!(result.is_err());
}

#[test]
fn test_claim_double_claim_rejected() {
    let (mut market, mut token) = setup();
    let a = player(&mut token, 10, 5000);
    let b = player(&mut token, 11, 5000);

    market.open_market(ADMIN, 1, BTC, 2000, 1000, 50_000).unwrap();
    market
        .place_prediction(&mut token, a, 1, DIRECTION_UP, 500, 1000)
        .unwrap();
    market
        .place_prediction(&mut token, b, 1, DIRECTION_DOWN, 500, 1000)
        .unwrap();

    market.settle_round(1, 3000, 55_000).unwrap();
    market.claim(&mut token, a, 1).unwrap();

    let result = market.claim(&mut token, a, 1);
    assert!(result.is_err());
}

#[test]
fn test_claim_not_settled_rejected() {
    let (mut market, mut token) = setup();
    let p = player(&mut token, 10, 5000);

    market.open_market(ADMIN, 1, BTC, 2000, 1000, 50_000).unwrap();
    market
        .place_prediction(&mut token, p, 1, DIRECTION_UP, 100, 1000)
        .unwrap();

    let result = market.claim(&mut token, p, 1);
    assert!(result.is_err());
}

#[test]
fn test_claim_bet_not_found() {
    let (mut market, mut token) = setup();
    let p = player(&mut token, 10, 5000);

    market.open_market(ADMIN, 1, BTC, 2000, 1000, 50_000).unwrap();
    market
        .place_prediction(&mut token, p, 1, DIRECTION_UP, 100, 1000)
        .unwrap();

    market.settle_round(1, 3000, 55_000).unwrap();

    // A stranger who never bet.
    let stranger = 42;
    let result = market.claim(&mut token, stranger, 1);
    assert!(result.is_err());
}

#[test]
fn test_multiple_players_proportional_payout() {
    let (mut market, mut token) = setup();
    let a = player(&mut token, 10, 10_000);
    let b = player(&mut token, 11, 10_000);
    let c = player(&mut token, 12, 10_000);

    market.open_market(ADMIN, 1, BTC, 2000, 1000, 50_000).unwrap();

    // Two up bettors, one down bettor.
    market
        .place_prediction(&mut token, a, 1, DIRECTION_UP, 300, 1000)
        .unwrap();
    market
        .place_prediction(&mut token, b, 1, DIRECTION_UP, 200, 1000)
        .unwrap();
    market
        .place_prediction(&mut token, c, 1, DIRECTION_DOWN, 500, 1000)
        .unwrap();

    // Up wins.
    market.settle_round(1, 3000, 55_000).unwrap();

    // Total pool = 1000, fee = 50, net = 950, winning_total = 500.
    // Player a: 950 * 300 / 500 = 570; player b: 950 * 200 / 500 = 380.
    market.claim(&mut token, a, 1).unwrap();
    market.claim(&mut token, b, 1).unwrap();

    assert_eq!(token.balance_of(a), 10_000 - 300 + 570);
    assert_eq!(token.balance_of(b), 10_000 - 200 + 380);
    // Player c lost, no claim.
    assert_eq!(token.balance_of(c), 9_500);
}

#[test]
fn test_full_lifecycle_two_rounds() {
    let (mut market, mut token) = setup();
    let p = player(&mut token, 10, 10_000);
    let opponent = player(&mut token, 11, 10_000);

    // Round 1: the player bets up, the price goes up, the player wins.
    market.open_market(ADMIN, 1, BTC, 2000, 1000, 50_000).unwrap();
    market
        .place_prediction(&mut token, p, 1, DIRECTION_UP, 100, 1000)
        .unwrap();
    market
        .place_prediction(&mut token, opponent, 1, DIRECTION_DOWN, 100, 1000)
        .unwrap();

    market.settle_round(1, 3000, 55_000).unwrap();
    market.claim(&mut token, p, 1).unwrap();

    let r1 = market.get_round(1).unwrap();
    assert!(r1.settled);
    assert_eq!(r1.outcome, OUTCOME_UP);

    // Round 2: the player bets down, the price goes down, and wins.
    market.open_market(ADMIN, 2, BTC, 5000, 3000, 60_000).unwrap();
    market
        .place_prediction(&mut token, p, 2, DIRECTION_DOWN, 100, 3000)
        .unwrap();
    market
        .place_prediction(&mut token, opponent, 2, DIRECTION_UP, 100, 3000)
        .unwrap();

    market.settle_round(2, 6000, 55_000).unwrap();
    market.claim(&mut token, p, 2).unwrap();

    let r2 = market.get_round(2).unwrap();
    assert!(r2.settled);
    assert_eq!(r2.outcome, OUTCOME_DOWN);
}

#[test]
fn test_push_one_side_refund() {
    let (mut market, mut token) = setup();
    let a = player(&mut token, 10, 5000);
    let b = player(&mut token, 11, 5000);

    market.open_market(ADMIN, 1, BTC, 2000, 1000, 50_000).unwrap();
    // Both bet down, no up bets.
    market
        .place_prediction(&mut token, a, 1, DIRECTION_DOWN, 300, 1000)
        .unwrap();
    market
        .place_prediction(&mut token, b, 1, DIRECTION_DOWN, 200, 1000)
        .unwrap();

    // Price down, but a push: no opposition.
    market.settle_round(1, 3000, 45_000).unwrap();

    let round = market.get_round(1).unwrap();
    assert!(round.is_push);

    // Both reclaim the full wager.
    market.claim(&mut token, a, 1).unwrap();
    market.claim(&mut token, b, 1).unwrap();

    assert_eq!(token.balance_of(a), 5000);
    assert_eq!(token.balance_of(b), 5000);
}

#[test]
fn test_get_round_not_found() {
    let (market, _) = setup();
    let result = market.get_round(99);
    assert!(result.is_err());
}

#[test]
fn test_place_prediction_on_settled_round_rejected() {
    let (mut market, mut token) = setup();
    let p = player(&mut token, 10, 5000);

    market.open_market(ADMIN, 1, BTC, 2000, 1000, 50_000).unwrap();

    market.settle_round(1, 3000, 55_000).unwrap();

    let result = market.place_prediction(&mut token, p, 1, DIRECTION_UP, 100, 3000);
    assert!(result.is_err());
}

#[test]
fn test_settlement_is_pure_function_of_inputs() {
    // Identical inputs always produce the identical settlement.
    let first = compute_settlement(50_000, 55_000, 300, 500, 500).unwrap();
    let second = compute_settlement(50_000, 55_000, 300, 500, 500).unwrap();
    assert_eq!(first, second);
    assert_eq!(
        first,
        Settlement { outcome: OUTCOME_UP, is_push: false, net_pool: 760, winning_total: 300 }
    );
}

#[test]
fn test_settlement_zero_and_full_fee() {
    // 0 bps: the whole pool is distributable.
    assert_eq!(
        compute_settlement(50_000, 45_000, 400, 600, 0).unwrap(),
        Settlement { outcome: OUTCOME_DOWN, is_push: false, net_pool: 1000, winning_total: 600 }
    );
    // 10000 bps: the fee swallows the whole pool.
    assert_eq!(
        compute_settlement(50_000, 45_000, 400, 600, 10_000).unwrap(),
        Settlement { outcome: OUTCOME_DOWN, is_push: false, net_pool: 0, winning_total: 600 }
    );
}

#[test]
fn test_push_refunds_sum_to_pool_exactly() {
    // Flat push: the refunds paid out equal total_up + total_down, so
    // the escrow is back to its starting balance and no fee was kept.
    let (mut market, mut token) = setup();
    let a = player(&mut token, 10, 5000);
    let b = player(&mut token, 11, 5000);

    market.open_market(ADMIN, 1, BTC, 2000, 1000, 50_000).unwrap();
    market
        .place_prediction(&mut token, a, 1, DIRECTION_UP, 321, 1000)
        .unwrap();
    market
        .place_prediction(&mut token, b, 1, DIRECTION_DOWN, 679, 1000)
        .unwrap();
    assert_eq!(token.balance_of(CONTRACT), 1_000_000 + 1000);

    market.settle_round(1, 3000, 50_000).unwrap();
    let round = market.get_round(1).unwrap();
    assert!(round.is_push);
    assert_eq!(round.total_up + round.total_down, 1000);

    market.claim(&mut token, a, 1).unwrap();
    market.claim(&mut token, b, 1).unwrap();
    assert_eq!(token.balance_of(a), 5000);
    assert_eq!(token.balance_of(b), 5000);
    assert_eq!(token.balance_of(CONTRACT), 1_000_000);
}

#[test]
fn test_winner_payouts_never_exceed_net_pool() {
    // Three winners with an awkward split: each floored share rounds
    // down and the dust stays in escrow.
    let (mut market, mut token) = setup();
    let a = player(&mut token, 10, 5000);
    let b = player(&mut token, 11, 5000);
    let c = player(&mut token, 12, 5000);
    let d = player(&mut token, 13, 5000);

    market.open_market(ADMIN, 1, BTC, 2000, 1000, 50_000).unwrap();
    market
        .place_prediction(&mut token, a, 1, DIRECTION_UP, 33, 1000)
        .unwrap();
    market
        .place_prediction(&mut token, b, 1, DIRECTION_UP, 33, 1000)
        .unwrap();
    market
        .place_prediction(&mut token, c, 1, DIRECTION_UP, 33, 1000)
        .unwrap();
    market
        .place_prediction(&mut token, d, 1, DIRECTION_DOWN, 100, 1000)
        .unwrap();

    market.settle_round(1, 3000, 55_000).unwrap();
    let round = market.get_round(1).unwrap();
    // Pool = 199, fee = floor(199 * 500 / 10000) = 9, net = 190.
    assert_eq!(round.net_pool, 190);
    assert_eq!(round.winning_total, 99);

    // Each winner: floor(190 * 33 / 99) = 63; 3 * 63 = 189 <= 190.
    let escrow_before = token.balance_of(CONTRACT);
    market.claim(&mut token, a, 1).unwrap();
    market.claim(&mut token, b, 1).unwrap();
    market.claim(&mut token, c, 1).unwrap();
    assert_eq!(token.balance_of(a), 5000 - 33 + 63);
    let paid = escrow_before - token.balance_of(CONTRACT);
    assert_eq!(paid, 189);
    assert!(paid <= round.net_pool);
}

#[test]
fn test_second_claim_fails_with_already_claimed() {
    let (mut market, mut token) = setup();
    let a = player(&mut token, 10, 5000);
    let b = player(&mut token, 11, 5000);

    market.open_market(ADMIN, 1, BTC, 2000, 1000, 50_000).unwrap();
    market
        .place_prediction(&mut token, a, 1, DIRECTION_UP, 500, 1000)
        .unwrap();
    market
        .place_prediction(&mut token, b, 1, DIRECTION_DOWN, 500, 1000)
        .unwrap();
    market.settle_round(1, 3000, 55_000).unwrap();

    market.claim(&mut token, a, 1).unwrap();
    let balance_after_first = token.balance_of(a);
    assert_eq!(market.claim(&mut token, a, 1), Err(Error::AlreadyClaimed));
    // The second claim paid nothing.
    assert_eq!(token.balance_of(a), balance_after_first);
}

#[test]
fn test_rejected_wager_changes_nothing() {
    let (mut market, mut token) = setup();
    let a = player(&mut token, 10, 5000);
    let b = player(&mut token, 11, 5000);

    market.open_market(ADMIN, 1, BTC, 2000, 1000, 50_000).unwrap();
    market
        .place_prediction(&mut token, a, 1, DIRECTION_UP, 100, 1000)
        .unwrap();

    // Below minimum, above maximum, after close, and duplicated: each
    // is rejected and leaves the totals and every balance untouched.
    assert_eq!(
        market.place_prediction(&mut token, b, 1, DIRECTION_UP, 5, 1000),
        Err(Error::WagerTooLow)
    );
    assert_eq!(
        market.place_prediction(&mut token, b, 1, DIRECTION_UP, 10_001, 1000),
        Err(Error::WagerTooHigh)
    );
    assert_eq!(
        market.place_prediction(&mut token, b, 1, DIRECTION_UP, 100, 2000),
        Err(Error::RoundClosed)
    );
    assert_eq!(
        market.place_prediction(&mut token, a, 1, DIRECTION_DOWN, 100, 1000),
        Err(Error::BetAlreadyPlaced)
    );

    let round = market.get_round(1).unwrap();
    assert_eq!(round.total_up, 100);
    assert_eq!(round.total_down, 0);
    assert_eq!(token.balance_of(a), 4900);
    assert_eq!(token.balance_of(b), 5000);
    assert_eq!(token.balance_of(CONTRACT), 1_000_100);
}

#[test]
fn test_totals_account_for_all_wagers() {
    let (mut market, mut token) = setup();
    let a = player(&mut token, 10, 5000);
    let b = player(&mut token, 11, 5000);
    let c = player(&mut token, 12, 5000);

    market.open_market(ADMIN, 1, BTC, 2000, 1000, 50_000).unwrap();
    market
        .place_prediction(&mut token, a, 1, DIRECTION_UP, 17, 1000)
        .unwrap();
    market
        .place_prediction(&mut token, b, 1, DIRECTION_DOWN, 29, 1000)
        .unwrap();
    market
        .place_prediction(&mut token, c, 1, DIRECTION_UP, 54, 1000)
        .unwrap();

    let round = market.get_round(1).unwrap();
    assert_eq!(round.total_up + round.total_down, 17 + 29 + 54);
}

#[test]
fn test_place_insufficient_balance_rejected() {
    let (mut market, mut token) = setup();
    let p = player(&mut token, 10, 50);

    market.open_market(ADMIN, 1, BTC, 2000, 1000, 50_000).unwrap();
    assert_eq!(
        market.place_prediction(&mut token, p, 1, DIRECTION_UP, 100, 1000),
        Err(Error::InsufficientBalance)
    );
    assert_eq!(token.balance_of(p), 50);
}

#[test]
fn test_open_market_non_admin_rejected() {
    let (mut market, _) = setup();
    assert_eq!(
        market.open_market(42, 1, BTC, 2000, 1000, 50_000),
        Err(Error::NotAuthorized)
    );
}

#[test]
fn test_uninitialized_market_rejects_calls() {
    let mut market = PricePrediction::new(CONTRACT);
    let mut token = Accounts::new();
    assert_eq!(
        market.open_market(ADMIN, 1, BTC, 2000, 1000, 50_000),
        Err(Error::NotInitialized)
    );
    assert_eq!(
        market.place_prediction(&mut token, 10, 1, DIRECTION_UP, 100, 1000),
        Err(Error::NotInitialized)
    );
    assert_eq!(market.settle_round(1, 3000, 55_000), Err(Error::NotInitialized));
    assert_eq!(market.claim(&mut token, 10, 1), Err(Error::NotInitialized));
}

#[test]
fn test_decisive_up_scenario_pays_winner_and_rejects_loser() {
    // min = 10, max = 10000, fee = 500 bps; open 50000, bets 300 up
    // and 500 down, close 55000: outcome up, pool 800, fee 40,
    // net 760, winning_total 300.  The winner claims 760; the loser's
    // claim fails with NoPayout.
    let (mut market, mut token) = setup();
    let up_bettor = player(&mut token, 10, 5000);
    let down_bettor = player(&mut token, 11, 5000);

    market.open_market(ADMIN, 1, BTC, 2000, 1000, 50_000).unwrap();
    market
        .place_prediction(&mut token, up_bettor, 1, DIRECTION_UP, 300, 1000)
        .unwrap();
    market
        .place_prediction(&mut token, down_bettor, 1, DIRECTION_DOWN, 500, 1000)
        .unwrap();
    market.settle_round(1, 3000, 55_000).unwrap();

    market.claim(&mut token, up_bettor, 1).unwrap();
    assert_eq!(token.balance_of(up_bettor), 5000 - 300 + 760);
    assert_eq!(
        market.claim(&mut token, down_bettor, 1),
        Err(Error::NoPayout)
    );
}

#[test]
fn test_one_sided_push_refunds_exactly_the_stake() {
    // Only up bets totaling 500: whatever the close price, the round
    // is a push and the claimant receives a refund of exactly 500.
    let (mut market, mut token) = setup();
    let p = player(&mut token, 10, 5000);

    market.open_market(ADMIN, 1, BTC, 2000, 1000, 50_000).unwrap();
    market
        .place_prediction(&mut token, p, 1, DIRECTION_UP, 500, 1000)
        .unwrap();
    assert_eq!(token.balance_of(p), 4500);

    market.settle_round(1, 3000, 72_345).unwrap();
    assert!(market.get_round(1).unwrap().is_push);

    market.claim(&mut token, p, 1).unwrap();
    assert_eq!(token.balance_of(p), 5000);
}

#[test]
fn test_proportional_split_and_loser_rejected() {
    // Bets 300 up, 200 up, 500 down; up wins: pool 1000, fee 50,
    // net 950, winning_total 500; the winners claim 570 and 380, the
    // loser's claim fails with NoPayout.
    let (mut market, mut token) = setup();
    let a = player(&mut token, 10, 1000);
    let b = player(&mut token, 11, 1000);
    let c = player(&mut token, 12, 1000);

    market.open_market(ADMIN, 1, BTC, 2000, 1000, 50_000).unwrap();
    market
        .place_prediction(&mut token, a, 1, DIRECTION_UP, 300, 1000)
        .unwrap();
    market
        .place_prediction(&mut token, b, 1, DIRECTION_UP, 200, 1000)
        .unwrap();
    market
        .place_prediction(&mut token, c, 1, DIRECTION_DOWN, 500, 1000)
        .unwrap();
    market.settle_round(1, 3000, 55_000).unwrap();

    market.claim(&mut token, a, 1).unwrap();
    market.claim(&mut token, b, 1).unwrap();
    assert_eq!(token.balance_of(a), 1000 - 300 + 570);
    assert_eq!(token.balance_of(b), 1000 - 200 + 380);
    assert_eq!(market.claim(&mut token, c, 1), Err(Error::NoPayout));
}

#[test]
fn test_notifications_record_the_lifecycle() {
    // Every committed operation appends exactly one notification, in
    // order; failed operations append none.
    let (mut market, mut token) = setup();
    let a = player(&mut token, 10, 5000);
    let b = player(&mut token, 11, 5000);

    market.open_market(ADMIN, 1, BTC, 2000, 1000, 50_000).unwrap();
    market
        .place_prediction(&mut token, a, 1, DIRECTION_UP, 300, 1000)
        .unwrap();
    market
        .place_prediction(&mut token, b, 1, DIRECTION_DOWN, 500, 1000)
        .unwrap();
    assert!(market
        .place_prediction(&mut token, b, 1, DIRECTION_DOWN, 500, 1000)
        .is_err());
    market.settle_round(1, 3000, 55_000).unwrap();
    market.claim(&mut token, a, 1).unwrap();

    let events = market.events();
    assert_eq!(events.len(), 5);
    assert_eq!(
        events[0],
        Event::Opened(MarketOpened { round_id: 1, asset: BTC, open_price: 50_000, close_time: 2000 })
    );
    assert_eq!(
        events[1],
        Event::Placed(PredictionPlaced { round_id: 1, player: a, direction: DIRECTION_UP, wager: 300 })
    );
    assert_eq!(
        events[2],
        Event::Placed(PredictionPlaced { round_id: 1, player: b, direction: DIRECTION_DOWN, wager: 500 })
    );
    assert_eq!(
        events[3],
        Event::Settled(RoundSettled {
            round_id: 1,
            close_price: 55_000,
            outcome: OUTCOME_UP,
            is_push: false,
            net_pool: 760,
        })
    );
    assert_eq!(events[4], Event::Paid(Claimed { round_id: 1, player: a, payout: 760 }));
}

#[test]
fn test_side_total_overflow_rejected() {
    // A market with no upper wager bound lets the up side approach the
    // integer limit; one more wager must fail with Overflow and leave
    // everything unchanged.
    let mut market = PricePrediction::new(CONTRACT);
    market.init(ADMIN, ORACLE, TOKEN, 1, i128::MAX, 0).unwrap();
    let mut token = Accounts::new();
    token.set_balance(10, i128::MAX);
    token.set_balance(11, 5000);

    market.open_market(ADMIN, 1, BTC, 2000, 1000, 50_000).unwrap();
    market
        .place_prediction(&mut token, 10, 1, DIRECTION_UP, i128::MAX - 1, 1000)
        .unwrap();
    assert_eq!(
        market.place_prediction(&mut token, 11, 1, DIRECTION_UP, 2, 1000),
        Err(Error::Overflow)
    );
    assert_eq!(token.balance_of(11), 5000);
    let round = market.get_round(1).unwrap();
    assert_eq!(round.total_up, i128::MAX - 1);
    assert_eq!(round.total_down, 0);
}
