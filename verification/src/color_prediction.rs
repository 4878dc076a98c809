//! The color prediction contract.
//!
//! A prediction pool: players wager on which color will be chosen, an
//! admin resolves each game by revealing the winning color, and the
//! winners are counted.  Valid colors are 0 = red, 1 = green,
//! 2 = blue, 3 = yellow.  A game is created implicitly by its first
//! prediction, accepts at most [`MAX_PLAYERS_PER_GAME`] players, and
//! each player may predict at most once per game.

use vstd::prelude::*;

use crate::table::{lemma_seq_sum_push, seq_sum, Table};

verus! {

/// Maximum number of players per game (bounds the resolve scan).
pub const MAX_PLAYERS_PER_GAME: u32 = 500;

pub const COLOR_RED: u32 = 0;

pub const COLOR_GREEN: u32 = 1;

pub const COLOR_BLUE: u32 = 2;

pub const COLOR_YELLOW: u32 = 3;

pub const COLOR_MAX: u32 = COLOR_YELLOW;

/// Every way a color prediction operation can fail.
#[derive(Copy, Clone, Debug, Eq, PartialEq, Structural)]
pub enum Error {
    AlreadyInitialized,
    NotInitialized,
    NotAuthorized,
    InvalidColor,
    InvalidAmount,
    GameNotFound,
    GameAlreadyResolved,
    AlreadyPredicted,
    GameFull,
    Overflow,
}

/// Lifecycle state of a prediction game.
#[derive(Copy, Clone, Debug, Eq, PartialEq, Structural)]
pub enum GameStatus {
    /// Accepting predictions.
    Open,
    /// Resolved — winning color known, outcome recorded.
    Resolved,
}

/// Metadata and accumulated state for one prediction game.
#[derive(Copy, Clone, Debug, Eq, PartialEq, Structural)]
pub struct GameData {
    /// Total tokens wagered across all predictions.
    pub total_pot: i128,
    /// Number of distinct predictors.
    pub player_count: u32,
    /// Number of predictors who chose the winning color.
    pub winner_count: u32,
    /// Winning color (only valid when status == Resolved).
    pub winning_color: u32,
    pub status: GameStatus,
}

/// A single player's prediction for a game.
#[derive(Copy, Clone, Debug, Eq, PartialEq, Structural)]
pub struct PredictionEntry {
    pub color: u32,
    pub wager: i128,
}

/// The immutable configuration written once by `init`.
#[derive(Copy, Clone, Debug, Eq, PartialEq, Structural)]
pub struct Config {
    pub admin: u64,
    pub rng_contract: u64,
    pub prize_pool_contract: u64,
    pub balance_contract: u64,
}

/// Notification: a prediction was placed.
#[derive(Copy, Clone, Debug, Eq, PartialEq, Structural)]
pub struct PredictionPlaced {
    pub game_id: u64,
    pub player: u64,
    pub color: u32,
    pub wager: i128,
}

/// Notification: a game was resolved.
#[derive(Copy, Clone, Debug, Eq, PartialEq, Structural)]
pub struct PredictionResolved {
    pub game_id: u64,
    pub winning_color: u32,
    pub winner_count: u32,
    pub total_pot: i128,
}

/// One entry of the append-only notification log, recorded after the
/// corresponding state change has committed; the host forwards them
/// to external observers.
#[derive(Copy, Clone, Debug, Eq, PartialEq, Structural)]
pub enum Event {
    Placed(PredictionPlaced),
    Resolved(PredictionResolved),
}

/// One stored game together with its predictions, keyed by player.
struct GameEntry {
    data: GameData,
    predictions: Table<PredictionEntry>,
}

/// The color prediction contract state.
pub struct ColorPrediction {
    config: Option<Config>,
    games: Table<GameEntry>,
    events: Vec<Event>,
}

/// The weight assigning every prediction its wager.
pub open spec fn pot_weight() -> spec_fn((u128, PredictionEntry)) -> int {
    |p: (u128, PredictionEntry)| p.1.wager as int
}

/// The weight counting predictions of one color.
pub open spec fn color_count_weight(color: u32) -> spec_fn((u128, PredictionEntry)) -> int {
    |p: (u128, PredictionEntry)|
        if p.1.color == color {
            1
        } else {
            0
        }
}

/// A fresh game record, as created implicitly by the first prediction.
pub open spec fn spec_new_game() -> GameData {
    GameData {
        total_pot: 0,
        player_count: 0,
        winner_count: 0,
        winning_color: 0,
        status: GameStatus::Open,
    }
}

/// The invariant of one stored game: the pot and the player count are
/// exactly the sum and the number of the recorded predictions, every
/// prediction is a valid color with a positive wager, and a resolved
/// game's winner count is exactly the number of predictions of the
/// winning color.
spec fn entry_wf(e: GameEntry) -> bool {
    &&& e.predictions.wf()
    &&& 0 <= e.data.total_pot
    &&& e.data.total_pot == seq_sum(e.predictions.entries(), pot_weight())
    &&& e.data.player_count == e.predictions.entries().len()
    &&& e.data.player_count <= MAX_PLAYERS_PER_GAME
    &&& forall|i: int|
        0 <= i < e.predictions.entries().len() ==> {
            &&& (#[trigger] e.predictions.entries()[i]).1.color <= COLOR_MAX
            &&& e.predictions.entries()[i].1.wager > 0
        }
    &&& e.data.status == GameStatus::Open ==> e.data.winner_count == 0 && e.data.winning_color
        == 0
    &&& e.data.status == GameStatus::Resolved ==> {
        &&& e.data.winning_color <= COLOR_MAX
        &&& e.data.winner_count == seq_sum(
            e.predictions.entries(),
            color_count_weight(e.data.winning_color),
        )
    }
}

/// A fresh game record, created on the first prediction of a game id.
fn new_game_record() -> (g: GameData)
    ensures
        g == spec_new_game(),
{
    GameData {
        total_pot: 0,
        player_count: 0,
        winner_count: 0,
        winning_color: 0,
        status: GameStatus::Open,
    }
}

impl ColorPrediction {
    /// The configuration, present once `init` has run.
    pub closed spec fn spec_config(self) -> Option<Config> {
        self.config
    }

    /// The stored state of game `game_id`.
    pub closed spec fn spec_game(self, game_id: u64) -> Option<GameData> {
        match self.games.spec_get(game_id as u128) {
            Some(e) => Some(e.data),
            None => None,
        }
    }

    /// The stored prediction of `player` in game `game_id`.
    pub closed spec fn spec_prediction(self, game_id: u64, player: u64) -> Option<PredictionEntry> {
        match self.games.spec_get(game_id as u128) {
            Some(e) => e.predictions.spec_get(player as u128),
            None => None,
        }
    }

    /// The number of stored predictions of `color` in game `game_id`.
    pub closed spec fn spec_color_count(self, game_id: u64, color: u32) -> int {
        match self.games.spec_get(game_id as u128) {
            Some(e) => seq_sum(e.predictions.entries(), color_count_weight(color)),
            None => 0,
        }
    }

    /// The notification log so far, oldest first.
    pub closed spec fn spec_events(self) -> Seq<Event> {
        self.events@
    }

    /// The state invariant.
    pub closed spec fn wf(self) -> bool {
        &&& self.games.wf()
        &&& (self.config is None ==> forall|k: u128| self.games.spec_get(k) is None)
        &&& forall|k: u128| (#[trigger] self.games.spec_get(k)) matches Some(e) ==> entry_wf(e)
    }

    /// A fresh, uninitialized contract.
    pub fn new() -> (s: ColorPrediction)
        ensures
            s.wf(),
            s.spec_config() is None,
            forall|id: u64| s.spec_game(id) is None,
            forall|id: u64, p: u64| s.spec_prediction(id, p) is None,
            s.spec_events() == Seq::<Event>::empty(),
    {
        ColorPrediction { config: None, games: Table::new(), events: Vec::new() }
    }

    /// Initialize the contract.  May only be called once; a second
    /// call fails with `AlreadyInitialized` and changes nothing.
    pub fn init(
        &mut self,
        admin: u64,
        rng_contract: u64,
        prize_pool_contract: u64,
        balance_contract: u64,
    ) -> (r: Result<(), Error>)
        requires
            old(self).wf(),
        ensures
            final(self).wf(),
            match r {
                Ok(()) => {
                    &&& old(self).spec_config() is None
                    &&& final(self).spec_config() == Some(
                        Config { admin, rng_contract, prize_pool_contract, balance_contract },
                    )
                    &&& forall|id: u64| final(self).spec_game(id) == old(self).spec_game(id)
                    &&& forall|id: u64, p: u64|
                        final(self).spec_prediction(id, p) == old(self).spec_prediction(id, p)
                    &&& final(self).spec_events() == old(self).spec_events()
                },
                Err(e) => {
                    &&& e == Error::AlreadyInitialized
                    &&& old(self).spec_config() is Some
                    &&& *final(self) == *old(self)
                },
            },
    {
        if self.config.is_some() {
            return Err(Error::AlreadyInitialized);
        }
        self.config = Some(Config { admin, rng_contract, prize_pool_contract, balance_contract });
        Ok(())
    }

    /// The errors `place_prediction` can raise, in the order it checks
    /// for them.  A game id without a record counts as a fresh, open,
    /// empty game.
    pub open spec fn spec_place_check(
        self,
        player: u64,
        color: u32,
        wager: i128,
        game_id: u64,
    ) -> Result<(), Error> {
        let game = match self.spec_game(game_id) {
            Some(g) => g,
            None => spec_new_game(),
        };
        if self.spec_config() is None {
            Err(Error::NotInitialized)
        } else if color > COLOR_MAX {
            Err(Error::InvalidColor)
        } else if wager <= 0 {
            Err(Error::InvalidAmount)
        } else if game.status != GameStatus::Open {
            Err(Error::GameAlreadyResolved)
        } else if game.player_count >= MAX_PLAYERS_PER_GAME {
            Err(Error::GameFull)
        } else if self.spec_prediction(game_id, player) is Some {
            Err(Error::AlreadyPredicted)
        } else if game.total_pot + wager > i128::MAX {
            Err(Error::Overflow)
        } else {
            Ok(())
        }
    }

    /// Place a color prediction for an open game.  The game is created
    /// implicitly on the first prediction for a given `game_id`; each
    /// player may predict exactly once per game.
    pub fn place_prediction(&mut self, player: u64, color: u32, wager: i128, game_id: u64) -> (r:
        Result<(), Error>)
        requires
            old(self).wf(),
        ensures
            final(self).wf(),
            final(self).spec_config() == old(self).spec_config(),
            match r {
                Err(e) => {
                    &&& *final(self) == *old(self)
                    &&& Err::<(), Error>(e) == old(self).spec_place_check(
                        player,
                        color,
                        wager,
                        game_id,
                    )
                },
                Ok(()) => {
                    &&& old(self).spec_place_check(player, color, wager, game_id) is Ok
                    &&& ({
                        let before = match old(self).spec_game(game_id) {
                            Some(g) => g,
                            None => spec_new_game(),
                        };
                        final(self).spec_game(game_id) == Some(
                            GameData {
                                total_pot: (before.total_pot + wager) as i128,
                                player_count: (before.player_count + 1) as u32,
                                ..before
                            },
                        )
                    })
                    &&& final(self).spec_prediction(game_id, player) == Some(
                        PredictionEntry { color, wager },
                    )
                    &&& forall|id: u64|
                        id != game_id ==> final(self).spec_game(id) == old(self).spec_game(id)
                    &&& forall|id: u64, p: u64|
                        !(id == game_id && p == player) ==> final(self).spec_prediction(id, p)
                            == old(self).spec_prediction(id, p)
                    &&& final(self).spec_events() == old(self).spec_events().push(
                        Event::Placed(PredictionPlaced { game_id, player, color, wager }),
                    )
                },
            },
    {
        if self.config.is_none() {
            return Err(Error::NotInitialized);
        }
        if color > COLOR_MAX {
            return Err(Error::InvalidColor);
        }
        if wager <= 0 {
            return Err(Error::InvalidAmount);
        }
        match self.games.get(game_id as u128) {
            None => {},
            Some(e) => {
                proof {
                    assert(entry_wf(self.games.spec_get(game_id as u128)->Some_0));
                }
                if e.data.status != GameStatus::Open {
                    return Err(Error::GameAlreadyResolved);
                }
                if e.data.player_count >= MAX_PLAYERS_PER_GAME {
                    return Err(Error::GameFull);
                }
                if e.predictions.contains(player as u128) {
                    return Err(Error::AlreadyPredicted);
                }
                match e.data.total_pot.checked_add(wager) {
                    None => {
                        return Err(Error::Overflow);
                    },
                    Some(_) => {},
                }
            },
        }
        let mut entry = match self.games.take(game_id as u128) {
            Some(e) => e,
            None => GameEntry { data: new_game_record(), predictions: Table::new() },
        };
        entry.predictions.put(player as u128, PredictionEntry { color, wager });
        entry.data.total_pot = entry.data.total_pot + wager;
        entry.data.player_count = entry.data.player_count + 1;
        self.games.put(game_id as u128, entry);
        self.events.push(Event::Placed(PredictionPlaced { game_id, player, color, wager }));
        proof {
            let k = game_id as u128;
            let e1 = self.games.spec_get(k)->Some_0;
            let pair = (player as u128, PredictionEntry { color, wager });
            let s0 = if old(self).games.spec_get(k) is Some {
                old(self).games.spec_get(k)->Some_0.predictions.entries()
            } else {
                Seq::<(u128, PredictionEntry)>::empty()
            };
            assert(e1.predictions.entries() == s0.push(pair));
            lemma_seq_sum_push(s0, pair, pot_weight());
            assert(entry_wf(e1)) by {
                assert forall|i: int| 0 <= i < e1.predictions.entries().len() implies {
                    &&& (#[trigger] e1.predictions.entries()[i]).1.color <= COLOR_MAX
                    &&& e1.predictions.entries()[i].1.wager > 0
                } by {
                    if i < s0.len() {
                        assert(e1.predictions.entries()[i] == s0[i]);
                    } else {
                        assert(e1.predictions.entries()[i] == pair);
                    }
                }
            }
            assert forall|k2: u128| (#[trigger] self.games.spec_get(k2)) is Some implies entry_wf(
                self.games.spec_get(k2)->Some_0,
            ) by {
                if k2 != k {
                    assert(self.games.spec_get(k2) == old(self).games.spec_get(k2));
                }
            }
            assert forall|id: u64| id != game_id implies final(self).spec_game(id) == old(
                self,
            ).spec_game(id) by {
                assert(id as u128 != game_id as u128);
            }
            assert forall|id: u64, p: u64| !(id == game_id && p == player) implies final(self)
                .spec_prediction(id, p) == old(self).spec_prediction(id, p) by {
                if id != game_id {
                    assert(id as u128 != game_id as u128);
                } else {
                    assert(p as u128 != player as u128);
                }
            }
        }
        Ok(())
    }

    /// The errors `resolve_prediction` can raise, in the order it
    /// checks for them.
    pub open spec fn spec_resolve_check(
        self,
        caller: u64,
        game_id: u64,
        winning_color: u32,
    ) -> Result<(), Error> {
        if self.spec_config() is None {
            Err(Error::NotInitialized)
        } else if caller != self.spec_config()->Some_0.admin {
            Err(Error::NotAuthorized)
        } else if winning_color > COLOR_MAX {
            Err(Error::InvalidColor)
        } else if self.spec_game(game_id) is None {
            Err(Error::GameNotFound)
        } else if self.spec_game(game_id)->Some_0.status != GameStatus::Open {
            Err(Error::GameAlreadyResolved)
        } else {
            Ok(())
        }
    }

    /// Resolve a game by declaring the winning color.  Admin only; the
    /// host authenticates `caller`.  Scans the game's predictions —
    /// bounded by `MAX_PLAYERS_PER_GAME` — to count winners, then
    /// freezes the game.  If there are no winners, the entire pot
    /// remains with the contract.
    pub fn resolve_prediction(&mut self, caller: u64, game_id: u64, winning_color: u32) -> (r:
        Result<(), Error>)
        requires
            old(self).wf(),
        ensures
            final(self).wf(),
            final(self).spec_config() == old(self).spec_config(),
            match r {
                Err(e) => {
                    &&& *final(self) == *old(self)
                    &&& Err::<(), Error>(e) == old(self).spec_resolve_check(
                        caller,
                        game_id,
                        winning_color,
                    )
                },
                Ok(()) => {
                    &&& old(self).spec_resolve_check(caller, game_id, winning_color) is Ok
                    &&& (old(self).spec_game(game_id) matches Some(before) && final(self).spec_game(
                        game_id,
                    ) == Some(
                        GameData {
                            status: GameStatus::Resolved,
                            winning_color,
                            winner_count: old(self).spec_color_count(game_id, winning_color) as u32,
                            ..before
                        },
                    ))
                    &&& forall|id: u64|
                        id != game_id ==> final(self).spec_game(id) == old(self).spec_game(id)
                    &&& forall|id: u64, p: u64|
                        final(self).spec_prediction(id, p) == old(self).spec_prediction(id, p)
                    &&& final(self).spec_events() == old(self).spec_events().push(
                        Event::Resolved(
                            PredictionResolved {
                                game_id,
                                winning_color,
                                winner_count: old(self).spec_color_count(
                                    game_id,
                                    winning_color,
                                ) as u32,
                                total_pot: old(self).spec_game(game_id)->Some_0.total_pot,
                            },
                        ),
                    )
                },
            },
    {
        let c = match &self.config {
            None => {
                return Err(Error::NotInitialized);
            },
            Some(c) => *c,
        };
        if caller != c.admin {
            return Err(Error::NotAuthorized);
        }
        if winning_color > COLOR_MAX {
            return Err(Error::InvalidColor);
        }
        match self.games.get(game_id as u128) {
            None => {
                return Err(Error::GameNotFound);
            },
            Some(e) => {
                if e.data.status != GameStatus::Open {
                    return Err(Error::GameAlreadyResolved);
                }
            },
        }
        proof {
            assert(entry_wf(self.games.spec_get(game_id as u128)->Some_0));
        }
        let mut entry = match self.games.take(game_id as u128) {
            Some(e) => e,
            None => {
                proof {
                    assert(false);
                }
                return Err(Error::GameNotFound);
            },
        };
        let n = entry.predictions.len();
        let mut winner_count: u32 = 0;
        let mut i: usize = 0;
        while i < n
            invariant
                n == entry.predictions.entries().len(),
                entry.predictions.wf(),
                n <= MAX_PLAYERS_PER_GAME,
                i <= n,
                winner_count <= i,
                winner_count as int == seq_sum(
                    entry.predictions.entries().take(i as int),
                    color_count_weight(winning_color),
                ),
            decreases n - i,
        {
            let p = entry.predictions.entry_at(i);
            let hit = p.1.color == winning_color;
            proof {
                let s = entry.predictions.entries();
                assert(s.take(i as int + 1) =~= s.take(i as int).push(s[i as int]));
                lemma_seq_sum_push(s.take(i as int), s[i as int], color_count_weight(winning_color));
            }
            if hit {
                winner_count = winner_count + 1;
            }
            i = i + 1;
        }
        proof {
            assert(entry.predictions.entries().take(n as int) =~= entry.predictions.entries());
        }
        entry.data.status = GameStatus::Resolved;
        entry.data.winning_color = winning_color;
        entry.data.winner_count = winner_count;
        let total_pot = entry.data.total_pot;
        self.games.put(game_id as u128, entry);
        self.events.push(
            Event::Resolved(
                PredictionResolved { game_id, winning_color, winner_count, total_pot },
            ),
        );
        proof {
            assert forall|k2: u128| (#[trigger] self.games.spec_get(k2)) is Some implies entry_wf(
                self.games.spec_get(k2)->Some_0,
            ) by {
                if k2 != game_id as u128 {
                    assert(self.games.spec_get(k2) == old(self).games.spec_get(k2));
                }
            }
            assert forall|id: u64| id != game_id implies final(self).spec_game(id) == old(
                self,
            ).spec_game(id) by {
                assert(id as u128 != game_id as u128);
            }
            assert forall|id: u64, p: u64| final(self).spec_prediction(id, p) == old(self)
                .spec_prediction(id, p) by {
                if id != game_id {
                    assert(id as u128 != game_id as u128);
                }
            }
        }
        Ok(())
    }

    /// The notification log so far, oldest first.
    pub fn events(&self) -> (r: &Vec<Event>)
        ensures
            r@ == self.spec_events(),
    {
        &self.events
    }

    /// Return the game state, or `None` if the game does not exist.
    pub fn get_game(&self, game_id: u64) -> (r: Option<GameData>)
        requires
            self.wf(),
        ensures
            r == self.spec_game(game_id),
    {
        match self.games.get(game_id as u128) {
            Some(e) => Some(e.data),
            None => None,
        }
    }
}

} // verus!
