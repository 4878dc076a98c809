//! Tests for the color prediction contract.

use stellarcade::color_prediction::{
    ColorPrediction, Error, Event, GameStatus, PredictionPlaced, PredictionResolved, COLOR_BLUE,
    COLOR_GREEN, COLOR_RED, COLOR_YELLOW,
};

const ADMIN: u64 = 1;
const RNG: u64 = 2;
const PRIZE_POOL: u64 = 3;
const BALANCE: u64 = 4;

fn setup() -> ColorPrediction {
    let mut game = ColorPrediction::new();
    game.init(ADMIN, RNG, PRIZE_POOL, BALANCE).unwrap();
    game
}

#[test]
fn test_full_happy_path() {
    let mut client = setup();

    let game_id: u64 = 1;
    let winner = 10;
    let loser = 11;

    client.place_prediction(winner, COLOR_RED, 100, game_id).unwrap();
    client.place_prediction(loser, COLOR_BLUE, 100, game_id).unwrap();

    client.resolve_prediction(ADMIN, game_id, COLOR_RED).unwrap();

    let game = client.get_game(game_id).unwrap();
    assert_eq!(game.status, GameStatus::Resolved);
    assert_eq!(game.winning_color, COLOR_RED);
    assert_eq!(game.winner_count, 1);
    assert_eq!(game.total_pot, 200);
    assert_eq!(game.player_count, 2);
}

#[test]
fn test_all_winners() {
    let mut client = setup();

    let game_id: u64 = 2;
    client.place_prediction(10, COLOR_GREEN, 50, game_id).unwrap();
    client.place_prediction(11, COLOR_GREEN, 50, game_id).unwrap();
    client.place_prediction(12, COLOR_GREEN, 50, game_id).unwrap();

    client.resolve_prediction(ADMIN, game_id, COLOR_GREEN).unwrap();

    let game = client.get_game(game_id).unwrap();
    assert_eq!(game.winner_count, 3);
    assert_eq!(game.total_pot, 150);
}

#[test]
fn test_no_winners() {
    let mut client = setup();

    let game_id: u64 = 3;
    client.place_prediction(10, COLOR_RED, 200, game_id).unwrap();

    client.resolve_prediction(ADMIN, game_id, COLOR_BLUE).unwrap();

    let game = client.get_game(game_id).unwrap();
    assert_eq!(game.winner_count, 0);
    assert_eq!(game.status, GameStatus::Resolved);
}

#[test]
fn test_duplicate_prediction_rejected() {
    let mut client = setup();

    let game_id: u64 = 4;
    let player = 10;
    client.place_prediction(player, COLOR_RED, 100, game_id).unwrap();

    let result = client.place_prediction(player, COLOR_GREEN, 100, game_id);
    assert!(result.is_err());
}

#[test]
fn test_predict_on_resolved_game_rejected() {
    let mut client = setup();

    let game_id: u64 = 5;
    client.place_prediction(10, COLOR_RED, 100, game_id).unwrap();
    client.resolve_prediction(ADMIN, game_id, COLOR_RED).unwrap();

    let late = 11;
    let result = client.place_prediction(late, COLOR_RED, 100, game_id);
    assert!(result.is_err());
}

#[test]
fn test_double_resolve_rejected() {
    let mut client = setup();

    let game_id: u64 = 6;
    client.place_prediction(10, COLOR_YELLOW, 10, game_id).unwrap();
    client.resolve_prediction(ADMIN, game_id, COLOR_YELLOW).unwrap();

    let result = client.resolve_prediction(ADMIN, game_id, COLOR_YELLOW);
    assert!(result.is_err());
}

#[test]
fn test_invalid_color_on_place_rejected() {
    let mut client = setup();

    let game_id: u64 = 7;
    let result = client.place_prediction(10, 99, 100, game_id);
    assert!(result.is_err());
}

#[test]
fn test_invalid_color_on_resolve_rejected() {
    let mut client = setup();

    let game_id: u64 = 8;
    client.place_prediction(10, COLOR_RED, 100, game_id).unwrap();

    let result = client.resolve_prediction(ADMIN, game_id, 99);
    assert!(result.is_err());
}

#[test]
fn test_zero_wager_rejected() {
    let mut client = setup();

    let game_id: u64 = 9;
    let result = client.place_prediction(10, COLOR_RED, 0, game_id);
    assert!(result.is_err());
}

#[test]
fn test_negative_wager_rejected() {
    let mut client = setup();

    let game_id: u64 = 10;
    let result = client.place_prediction(10, COLOR_RED, -50, game_id);
    assert!(result.is_err());
}

#[test]
fn test_non_admin_cannot_resolve() {
    let mut client2 = setup();

    let game_id: u64 = 11;
    client2.place_prediction(10, COLOR_RED, 100, game_id).unwrap();

    let imposter = 99;
    let result = client2.resolve_prediction(imposter, game_id, COLOR_RED);
    assert!(result.is_err());
}

#[test]
fn test_cannot_init_twice() {
    let mut client = setup();

    let result = client.init(ADMIN, RNG, PRIZE_POOL, BALANCE);
    assert!(result.is_err());
}

#[test]
fn test_resolve_nonexistent_game_rejected() {
    let mut client = setup();

    let result = client.resolve_prediction(ADMIN, 999, COLOR_RED);
    assert!(result.is_err());
}

#[test]
fn test_get_game_none_for_unknown() {
    let client = setup();

    let result = client.get_game(9999);
    assert!(result.is_none());
}

#[test]
fn test_multiple_games_independent() {
    let mut client = setup();

    client.place_prediction(10, COLOR_RED, 100, 1).unwrap();
    client.place_prediction(11, COLOR_BLUE, 200, 2).unwrap();

    client.resolve_prediction(ADMIN, 1, COLOR_RED).unwrap();
    client.resolve_prediction(ADMIN, 2, COLOR_GREEN).unwrap();

    let game1 = client.get_game(1).unwrap();
    let game2 = client.get_game(2).unwrap();

    assert_eq!(game1.winner_count, 1);
    assert_eq!(game1.total_pot, 100);
    assert_eq!(game2.winner_count, 0);
    assert_eq!(game2.total_pot, 200);
}

#[test]
fn test_all_valid_colors_accepted() {
    let mut client = setup();

    let cases = [
        (20u64, COLOR_RED),
        (21u64, COLOR_GREEN),
        (22u64, COLOR_BLUE),
        (23u64, COLOR_YELLOW),
    ];
    let mut next_player = 30;
    for (game_id, color) in cases {
        let player = next_player;
        next_player += 1;
        client.place_prediction(player, color, 10, game_id).unwrap();
        client.resolve_prediction(ADMIN, game_id, color).unwrap();
        let game = client.get_game(game_id).unwrap();
        assert_eq!(game.winner_count, 1);
    }
}

#[test]
fn test_place_before_init_rejected() {
    let mut client = ColorPrediction::new();
    assert_eq!(
        client.place_prediction(10, COLOR_RED, 100, 1),
        Err(Error::NotInitialized)
    );
}

#[test]
fn test_winner_count_counts_only_winning_color() {
    let mut client = setup();

    client.place_prediction(10, COLOR_RED, 10, 7).unwrap();
    client.place_prediction(11, COLOR_RED, 20, 7).unwrap();
    client.place_prediction(12, COLOR_GREEN, 30, 7).unwrap();
    client.place_prediction(13, COLOR_BLUE, 40, 7).unwrap();

    client.resolve_prediction(ADMIN, 7, COLOR_RED).unwrap();

    let game = client.get_game(7).unwrap();
    assert_eq!(game.winner_count, 2);
    assert_eq!(game.player_count, 4);
    assert_eq!(game.total_pot, 100);
}

#[test]
fn test_color_notifications_in_order() {
    let mut client = setup();
    client.place_prediction(10, COLOR_RED, 25, 3).unwrap();
    client.resolve_prediction(ADMIN, 3, COLOR_RED).unwrap();

    let events = client.events();
    assert_eq!(events.len(), 2);
    assert_eq!(
        events[0],
        Event::Placed(PredictionPlaced { game_id: 3, player: 10, color: COLOR_RED, wager: 25 })
    );
    assert_eq!(
        events[1],
        Event::Resolved(PredictionResolved {
            game_id: 3,
            winning_color: COLOR_RED,
            winner_count: 1,
            total_pot: 25,
        })
    );
}
