//! The higher-or-lower contract.
//!
//! A double-or-nothing game: a player wagers on whether a drawn value
//! lands above or below a fixed anchor.  The host's randomness
//! contract supplies the drawn outcome; the user-balance contract —
//! modelled by the [`Accounts`] ledger — escrows the wager and pays a
//! doubled wager back on a win.

use vstd::prelude::*;

use crate::accounts::Accounts;
use crate::table::Table;

verus! {

pub const MIN_WAGER: i128 = 1;

pub const MAX_WAGER: i128 = 1_000_000_000;

/// A drawn outcome above this anchor wins for `Higher`, below it for
/// `Lower`; the anchor itself wins for neither.
pub const ANCHOR_VALUE: u32 = 50;

/// Every way a higher-or-lower operation can fail.
#[derive(Copy, Clone, Debug, Eq, PartialEq, Structural)]
pub enum Error {
    AlreadyInitialized,
    NotInitialized,
    NotAuthorized,
    InvalidPrediction,
    InvalidWager,
    GameAlreadyExists,
    GameNotFound,
    AlreadyResolved,
    RngNotReady,
    InsufficientBalance,
    HouseInsufficientFunds,
    Overflow,
}

/// The two sides a player can call.
#[derive(Copy, Clone, Debug, Eq, PartialEq, Structural)]
pub enum Prediction {
    Higher,
    Lower,
}

/// One game: a single player, a single wager, a single resolution.
#[derive(Copy, Clone, Debug, Eq, PartialEq, Structural)]
pub struct GameData {
    pub player: u64,
    pub prediction: Prediction,
    pub wager: i128,
    pub resolved: bool,
    pub outcome: u32,
    pub win: bool,
    pub payout: i128,
}

/// The immutable configuration written once by `init`.
#[derive(Copy, Clone, Debug, Eq, PartialEq, Structural)]
pub struct Config {
    pub admin: u64,
    pub rng_contract: u64,
    pub prize_pool_contract: u64,
    pub balance_contract: u64,
}

/// Notification: a prediction was placed.
#[derive(Copy, Clone, Debug, Eq, PartialEq, Structural)]
pub struct PredictionPlaced {
    pub game_id: u64,
    pub player: u64,
    pub prediction: u32,
    pub wager: i128,
}

/// Notification: a game was resolved.
#[derive(Copy, Clone, Debug, Eq, PartialEq, Structural)]
pub struct GameResolved {
    pub game_id: u64,
    pub outcome: u32,
    pub win: bool,
    pub payout: i128,
}

/// One entry of the append-only notification log, recorded after the
/// corresponding state change has committed; the host forwards them
/// to external observers.
#[derive(Copy, Clone, Debug, Eq, PartialEq, Structural)]
pub enum Event {
    Placed(PredictionPlaced),
    Resolved(GameResolved),
}

/// The higher-or-lower contract state.  `contract` is the house
/// account on the balance ledger: it receives wagers and pays out
/// wins.
pub struct HigherLower {
    contract: u64,
    config: Option<Config>,
    games: Table<GameData>,
    events: Vec<Event>,
}

/// How a prediction fares against a drawn outcome: `Higher` wins
/// strictly above the anchor, `Lower` strictly below it.
pub open spec fn spec_win(prediction: Prediction, outcome: u32) -> bool {
    match prediction {
        Prediction::Higher => outcome > ANCHOR_VALUE,
        Prediction::Lower => outcome < ANCHOR_VALUE,
    }
}

/// How a raw direction value decodes: 0 is `Higher`, 1 is `Lower`,
/// anything else is invalid.
pub open spec fn spec_parse_prediction(value: u32) -> Result<Prediction, Error> {
    if value == 0 {
        Ok(Prediction::Higher)
    } else if value == 1 {
        Ok(Prediction::Lower)
    } else {
        Err(Error::InvalidPrediction)
    }
}

/// Rejects a wager outside the fixed `[MIN_WAGER, MAX_WAGER]` bounds.
pub fn require_wager_bounds(wager: i128) -> (r: Result<(), Error>)
    ensures
        r == (if wager < MIN_WAGER || wager > MAX_WAGER {
            Err::<(), Error>(Error::InvalidWager)
        } else {
            Ok::<(), Error>(())
        }),
{
    if wager < MIN_WAGER || wager > MAX_WAGER {
        return Err(Error::InvalidWager);
    }
    Ok(())
}

/// Decodes a raw direction value into a [`Prediction`].
pub fn parse_prediction(value: u32) -> (r: Result<Prediction, Error>)
    ensures
        r == spec_parse_prediction(value),
{
    match value {
        0 => Ok(Prediction::Higher),
        1 => Ok(Prediction::Lower),
        _ => Err(Error::InvalidPrediction),
    }
}

/// The invariant of one stored game: the wager is within bounds, and a
/// resolved game's win flag and payout agree with the recorded
/// outcome.
spec fn game_wf(g: GameData) -> bool {
    &&& MIN_WAGER <= g.wager <= MAX_WAGER
    &&& !g.resolved ==> g.outcome == 0 && !g.win && g.payout == 0
    &&& g.resolved ==> g.win == spec_win(g.prediction, g.outcome)
    &&& g.resolved ==> g.payout == (if g.win {
        2 * g.wager
    } else {
        0
    })
}

impl HigherLower {
    /// The house account on the balance ledger.
    pub closed spec fn spec_contract(self) -> u64 {
        self.contract
    }

    /// The configuration, present once `init` has run.
    pub closed spec fn spec_config(self) -> Option<Config> {
        self.config
    }

    /// The stored state of game `game_id`.
    pub closed spec fn spec_game(self, game_id: u64) -> Option<GameData> {
        self.games.spec_get(game_id as u128)
    }

    /// The notification log so far, oldest first.
    pub closed spec fn spec_events(self) -> Seq<Event> {
        self.events@
    }

    /// The state invariant.
    pub closed spec fn wf(self) -> bool {
        &&& self.games.wf()
        &&& (self.config is None ==> forall|k: u128| self.games.spec_get(k) is None)
        &&& forall|k: u128|
            (#[trigger] self.games.spec_get(k)) matches Some(g) ==> game_wf(g)
    }

    /// A fresh, uninitialized contract whose house account is
    /// `contract` on the balance ledger.
    pub fn new(contract: u64) -> (s: HigherLower)
        ensures
            s.wf(),
            s.spec_contract() == contract,
            s.spec_config() is None,
            forall|id: u64| s.spec_game(id) is None,
            s.spec_events() == Seq::<Event>::empty(),
    {
        HigherLower { contract, config: None, games: Table::new(), events: Vec::new() }
    }

    /// Stores the configuration.  Fails with `AlreadyInitialized` —
    /// and changes nothing — exactly when one exists.
    pub fn init(
        &mut self,
        admin: u64,
        rng_contract: u64,
        prize_pool_contract: u64,
        balance_contract: u64,
    ) -> (r: Result<(), Error>)
        requires
            old(self).wf(),
        ensures
            final(self).wf(),
            final(self).spec_contract() == old(self).spec_contract(),
            match r {
                Ok(()) => {
                    &&& old(self).spec_config() is None
                    &&& final(self).spec_config() == Some(
                        Config { admin, rng_contract, prize_pool_contract, balance_contract },
                    )
                    &&& forall|id: u64| final(self).spec_game(id) == old(self).spec_game(id)
                    &&& final(self).spec_events() == old(self).spec_events()
                },
                Err(e) => {
                    &&& e == Error::AlreadyInitialized
                    &&& old(self).spec_config() is Some
                    &&& *final(self) == *old(self)
                },
            },
    {
        if self.config.is_some() {
            return Err(Error::AlreadyInitialized);
        }
        self.config = Some(Config { admin, rng_contract, prize_pool_contract, balance_contract });
        Ok(())
    }

    /// The errors `place_prediction` can raise, in the order it checks
    /// for them.
    pub open spec fn spec_place_check(
        self,
        balances: Accounts,
        player: u64,
        prediction: u32,
        wager: i128,
        game_id: u64,
    ) -> Result<(), Error> {
        if self.spec_config() is None {
            Err(Error::NotInitialized)
        } else if spec_parse_prediction(prediction) is Err {
            Err(Error::InvalidPrediction)
        } else if wager < MIN_WAGER || wager > MAX_WAGER {
            Err(Error::InvalidWager)
        } else if self.spec_game(game_id) is Some {
            Err(Error::GameAlreadyExists)
        } else if balances.balance(player) < wager {
            Err(Error::InsufficientBalance)
        } else if player != self.spec_contract() && balances.balance(self.spec_contract()) + wager
            > i128::MAX {
            Err(Error::Overflow)
        } else {
            Ok(())
        }
    }

    /// The player calls a side and wagers; the wager moves from the
    /// player to the house account.  Each game id is played once.
    pub fn place_prediction(
        &mut self,
        balances: &mut Accounts,
        player: u64,
        prediction: u32,
        wager: i128,
        game_id: u64,
    ) -> (r: Result<(), Error>)
        requires
            old(self).wf(),
            old(balances).wf(),
        ensures
            final(self).wf(),
            final(balances).wf(),
            final(self).spec_contract() == old(self).spec_contract(),
            final(self).spec_config() == old(self).spec_config(),
            match r {
                Err(e) => {
                    &&& *final(self) == *old(self)
                    &&& *final(balances) == *old(balances)
                    &&& Err::<(), Error>(e) == old(self).spec_place_check(
                        *old(balances),
                        player,
                        prediction,
                        wager,
                        game_id,
                    )
                },
                Ok(()) => {
                    &&& old(self).spec_place_check(
                        *old(balances),
                        player,
                        prediction,
                        wager,
                        game_id,
                    ) is Ok
                    &&& final(self).spec_game(game_id) == Some(
                        GameData {
                            player,
                            prediction: spec_parse_prediction(prediction)->Ok_0,
                            wager,
                            resolved: false,
                            outcome: 0,
                            win: false,
                            payout: 0,
                        },
                    )
                    &&& forall|id: u64|
                        id != game_id ==> final(self).spec_game(id) == old(self).spec_game(id)
                    &&& Accounts::transferred(
                        *old(balances),
                        *final(balances),
                        player,
                        old(self).spec_contract(),
                        wager,
                    )
                    &&& final(self).spec_events() == old(self).spec_events().push(
                        Event::Placed(PredictionPlaced { game_id, player, prediction, wager }),
                    )
                },
            },
    {
        if self.config.is_none() {
            return Err(Error::NotInitialized);
        }
        let parsed = match parse_prediction(prediction) {
            Err(e) => {
                return Err(e);
            },
            Ok(p) => p,
        };
        match require_wager_bounds(wager) {
            Err(e) => {
                return Err(e);
            },
            Ok(()) => {},
        }
        if self.games.contains(game_id as u128) {
            return Err(Error::GameAlreadyExists);
        }
        let player_balance = balances.balance_of(player);
        if player_balance < wager {
            return Err(Error::InsufficientBalance);
        }
        match balances.transfer(player, self.contract, wager) {
            Err(_) => {
                return Err(Error::Overflow);
            },
            Ok(()) => {},
        }
        let game = GameData {
            player,
            prediction: parsed,
            wager,
            resolved: false,
            outcome: 0,
            win: false,
            payout: 0,
        };
        self.games.put(game_id as u128, game);
        self.events.push(Event::Placed(PredictionPlaced { game_id, player, prediction, wager }));
        proof {
            balances.lemma_balance_bounds(old(self).spec_contract());
            assert forall|k: u128| (#[trigger] self.games.spec_get(k)) is Some implies game_wf(
                self.games.spec_get(k)->Some_0,
            ) by {
                if k != game_id as u128 {
                    assert(self.games.spec_get(k) == old(self).games.spec_get(k));
                }
            }
            assert forall|id: u64| id != game_id implies final(self).spec_game(id) == old(
                self,
            ).spec_game(id) by {
                assert(id as u128 != game_id as u128);
            }
        }
        Ok(())
    }

    /// The errors `resolve_game` can raise, in the order it checks for
    /// them.  `rng_outcome` is the randomness contract's draw, `None`
    /// while it is not ready.
    pub open spec fn spec_resolve_check(
        self,
        balances: Accounts,
        game_id: u64,
        rng_outcome: Option<u32>,
    ) -> Result<(), Error> {
        if self.spec_config() is None {
            Err(Error::NotInitialized)
        } else if self.spec_game(game_id) is None {
            Err(Error::GameNotFound)
        } else if self.spec_game(game_id)->Some_0.resolved {
            Err(Error::AlreadyResolved)
        } else if rng_outcome is None {
            Err(Error::RngNotReady)
        } else {
            let g = self.spec_game(game_id)->Some_0;
            if !spec_win(g.prediction, rng_outcome->Some_0) {
                Ok(())
            } else if balances.balance(self.spec_contract()) < 2 * g.wager {
                Err(Error::HouseInsufficientFunds)
            } else if g.player != self.spec_contract() && balances.balance(g.player) + 2 * g.wager
                > i128::MAX {
                Err(Error::Overflow)
            } else {
                Ok(())
            }
        }
    }

    /// Resolves a game against the randomness contract's drawn
    /// outcome, handed in by the host (`None` while the draw is not
    /// ready).  A win pays double the wager from the house account; a
    /// loss pays nothing.  Either way the game is frozen.
    pub fn resolve_game(
        &mut self,
        balances: &mut Accounts,
        game_id: u64,
        rng_outcome: Option<u32>,
    ) -> (r: Result<(), Error>)
        requires
            old(self).wf(),
            old(balances).wf(),
        ensures
            final(self).wf(),
            final(balances).wf(),
            final(self).spec_contract() == old(self).spec_contract(),
            final(self).spec_config() == old(self).spec_config(),
            match r {
                Err(e) => {
                    &&& *final(self) == *old(self)
                    &&& *final(balances) == *old(balances)
                    &&& Err::<(), Error>(e) == old(self).spec_resolve_check(
                        *old(balances),
                        game_id,
                        rng_outcome,
                    )
                },
                Ok(()) => {
                    &&& old(self).spec_resolve_check(*old(balances), game_id, rng_outcome) is Ok
                    &&& (old(self).spec_game(game_id) matches Some(g) && {
                        let outcome = rng_outcome->Some_0;
                        let win = spec_win(g.prediction, outcome);
                        let payout: i128 = if win {
                            (2 * g.wager) as i128
                        } else {
                            0
                        };
                        &&& final(self).spec_game(game_id) == Some(
                            GameData { resolved: true, outcome, win, payout, ..g },
                        )
                        &&& (if win {
                            Accounts::transferred(
                                *old(balances),
                                *final(balances),
                                old(self).spec_contract(),
                                g.player,
                                payout,
                            )
                        } else {
                            *final(balances) == *old(balances)
                        })
                    })
                    &&& forall|id: u64|
                        id != game_id ==> final(self).spec_game(id) == old(self).spec_game(id)
                    &&& ({
                        let g = old(self).spec_game(game_id)->Some_0;
                        let outcome = rng_outcome->Some_0;
                        let win = spec_win(g.prediction, outcome);
                        final(self).spec_events() == old(self).spec_events().push(
                            Event::Resolved(
                                GameResolved {
                                    game_id,
                                    outcome,
                                    win,
                                    payout: if win {
                                        (2 * g.wager) as i128
                                    } else {
                                        0
                                    },
                                },
                            ),
                        )
                    })
                },
            },
    {
        if self.config.is_none() {
            return Err(Error::NotInitialized);
        }
        let g = match self.games.get(game_id as u128) {
            None => {
                return Err(Error::GameNotFound);
            },
            Some(g) => *g,
        };
        if g.resolved {
            return Err(Error::AlreadyResolved);
        }
        let outcome = match rng_outcome {
            None => {
                return Err(Error::RngNotReady);
            },
            Some(v) => v,
        };
        let win = match g.prediction {
            Prediction::Higher => outcome > ANCHOR_VALUE,
            Prediction::Lower => outcome < ANCHOR_VALUE,
        };
        let payout: i128 = if win {
            2 * g.wager
        } else {
            0
        };
        if payout > 0 {
            let house_balance = balances.balance_of(self.contract);
            if house_balance < payout {
                return Err(Error::HouseInsufficientFunds);
            }
            match balances.transfer(self.contract, g.player, payout) {
                Err(_) => {
                    return Err(Error::Overflow);
                },
                Ok(()) => {},
            }
        }
        let resolved = GameData { resolved: true, outcome, win, payout, ..g };
        self.games.put(game_id as u128, resolved);
        self.events.push(Event::Resolved(GameResolved { game_id, outcome, win, payout }));
        proof {
            if win {
                balances.lemma_balance_bounds(g.player);
            }
            assert forall|k: u128| (#[trigger] self.games.spec_get(k)) is Some implies game_wf(
                self.games.spec_get(k)->Some_0,
            ) by {
                if k != game_id as u128 {
                    assert(self.games.spec_get(k) == old(self).games.spec_get(k));
                }
            }
            assert forall|id: u64| id != game_id implies final(self).spec_game(id) == old(
                self,
            ).spec_game(id) by {
                assert(id as u128 != game_id as u128);
            }
        }
        Ok(())
    }

    /// The notification log so far, oldest first.
    pub fn events(&self) -> (r: &Vec<Event>)
        ensures
            r@ == self.spec_events(),
    {
        &self.events
    }

    /// Returns the game state, or `None` if the game does not exist.
    pub fn get_game(&self, game_id: u64) -> (r: Option<GameData>)
        requires
            self.wf(),
        ensures
            r == self.spec_game(game_id),
    {
        match self.games.get(game_id as u128) {
            Some(g) => Some(*g),
            None => None,
        }
    }
}

} // verus!
