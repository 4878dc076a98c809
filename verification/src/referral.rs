//! The referral system contract.
//!
//! Users register who referred them; an operator records qualifying
//! events (games played, deposits, prizes claimed), each of which
//! accrues a basis-point commission of the event's amount to the
//! referrer; referrers claim their accrued commission.  The actual
//! reward transfer is settled outside this contract — claiming only
//! zeroes the pending balance and reports the amount, as a receipt for
//! the host's reward contract.

use vstd::prelude::*;

use crate::table::Table;

verus! {

/// Every way a referral operation can fail.
#[derive(Copy, Clone, Debug, Eq, PartialEq, Structural)]
pub enum Error {
    AlreadyInitialized,
    NotInitialized,
    NotAuthorized,
    InvalidAmount,
    AlreadyReferred,
    SelfReferral,
    ReferrerNotRegistered,
    NoPendingRewards,
    AlreadyClaimed,
    InvalidEventType,
    Overflow,
}

/// Referral event types that generate rewards.
#[derive(Copy, Clone, Debug, Eq, PartialEq, Structural)]
pub enum EventType {
    GamePlayed,
    Deposit,
    PrizeClaimed,
}

/// Per-user referral state.
#[derive(Debug)]
pub struct ReferralState {
    /// The referrer who referred this user (a user without one holds
    /// its own identifier as a placeholder).
    pub referrer: u64,
    /// Users this user has referred.
    pub referees: Vec<u64>,
    /// Total reward earned (lifetime).
    pub total_earned: i128,
    /// Pending reward available to claim.
    pub pending_reward: i128,
    /// Number of referral events recorded.
    pub event_count: u64,
}

/// The configuration written by `init` and adjusted by the admin.
#[derive(Copy, Clone, Debug, Eq, PartialEq, Structural)]
pub struct Config {
    pub admin: u64,
    pub reward_contract: u64,
    /// Reward percentage in basis points (e.g. 500 = 5%).
    pub reward_bps: u32,
}

/// The default reward rate written by `init`: 5%.
pub const DEFAULT_REWARD_BPS: u32 = 500;

/// Basis-points divisor (10 000 = 100%).
pub const BASIS_POINTS: i128 = 10_000;

/// Notification: the system was initialized.
#[derive(Copy, Clone, Debug, Eq, PartialEq, Structural)]
pub struct Initialized {
    pub admin: u64,
    pub reward_contract: u64,
    pub reward_bps: u32,
}

/// Notification: a referrer was registered.
#[derive(Copy, Clone, Debug, Eq, PartialEq, Structural)]
pub struct ReferrerRegistered {
    pub user: u64,
    pub referrer: u64,
}

/// Notification: a qualifying event was recorded.
#[derive(Copy, Clone, Debug, Eq, PartialEq, Structural)]
pub struct ReferralEventRecorded {
    pub user: u64,
    pub referrer: u64,
    pub event_type: EventType,
    pub amount: i128,
    pub reward: i128,
}

/// Notification: accrued rewards were claimed.
#[derive(Copy, Clone, Debug, Eq, PartialEq, Structural)]
pub struct RewardClaimed {
    pub user: u64,
    pub amount: i128,
}

/// One entry of the append-only notification log, recorded after the
/// corresponding state change has committed; the host forwards them
/// to external observers.
#[derive(Copy, Clone, Debug, Eq, PartialEq, Structural)]
pub enum Event {
    Started(Initialized),
    Registered(ReferrerRegistered),
    Recorded(ReferralEventRecorded),
    Claimed(RewardClaimed),
}

/// The referral system contract state.
pub struct ReferralSystem {
    config: Option<Config>,
    /// Per-user referral state, keyed by user.
    states: Table<ReferralState>,
    /// Referee-to-referrer mapping, keyed by referee.
    referred_by: Table<u64>,
    events: Vec<Event>,
}

/// The commission a recorded event generates:
/// `amount * bps / 10_000`, rounded down; `Overflow` exactly when the
/// product no longer fits.
pub open spec fn spec_reward(amount: i128, bps: u32) -> Result<i128, Error> {
    if amount * (bps as int) > i128::MAX {
        Err(Error::Overflow)
    } else {
        Ok((amount * (bps as int) / (BASIS_POINTS as int)) as i128)
    }
}

/// Computes the commission for `amount` at `bps` basis points with
/// checked arithmetic: the executable form of [`spec_reward`].
pub fn calculate_reward(amount: i128, bps: u32) -> (r: Result<i128, Error>)
    requires
        amount >= 0,
    ensures
        r == spec_reward(amount, bps),
{
    let product = match amount.checked_mul(bps as i128) {
        Some(v) => v,
        None => {
            proof {
                vstd::arithmetic::mul::lemma_mul_nonnegative(amount as int, bps as int);
            }
            return Err(Error::Overflow);
        },
    };
    proof {
        vstd::arithmetic::mul::lemma_mul_nonnegative(amount as int, bps as int);
        vstd::arithmetic::div_mod::lemma_div_pos_is_pos(product as int, BASIS_POINTS as int);
    }
    match product.checked_div(BASIS_POINTS) {
        Some(v) => Ok(v),
        None => {
            proof {
                assert(false);
            }
            Err(Error::Overflow)
        },
    }
}

/// The invariant of one stored state: accrued rewards are never
/// negative and never exceed the lifetime total's type.
spec fn state_wf(st: ReferralState) -> bool {
    &&& st.pending_reward >= 0
    &&& st.total_earned >= 0
}

/// Copies a vector of user identifiers.
fn copy_user_list(v: &Vec<u64>) -> (r: Vec<u64>)
    ensures
        r@ == v@,
{
    let mut r: Vec<u64> = Vec::new();
    let n = v.len();
    let mut i: usize = 0;
    while i < n
        invariant
            n == v@.len(),
            i <= n,
            r@ == v@.take(i as int),
        decreases n - i,
    {
        r.push(v[i]);
        proof {
            assert(v@.take(i as int + 1) =~= v@.take(i as int).push(v@[i as int]));
        }
        i = i + 1;
    }
    proof {
        assert(v@.take(n as int) =~= v@);
    }
    r
}

impl ReferralSystem {
    /// The configuration, present once `init` has run.
    pub closed spec fn spec_config(self) -> Option<Config> {
        self.config
    }

    /// The stored referral state of `user`.
    pub closed spec fn spec_state(self, user: u64) -> Option<ReferralState> {
        self.states.spec_get(user as u128)
    }

    /// The registered referrer of `user`.
    pub closed spec fn spec_referrer(self, user: u64) -> Option<u64> {
        self.referred_by.spec_get(user as u128)
    }

    /// The notification log so far, oldest first.
    pub closed spec fn spec_events(self) -> Seq<Event> {
        self.events@
    }

    /// The state invariant.
    pub closed spec fn wf(self) -> bool {
        &&& self.states.wf()
        &&& self.referred_by.wf()
        &&& (self.config matches Some(c) ==> c.reward_bps <= 10000)
        &&& (self.config is None ==> forall|k: u128| self.states.spec_get(k) is None)
        &&& (self.config is None ==> forall|k: u128| self.referred_by.spec_get(k) is None)
        &&& forall|k: u128| (#[trigger] self.states.spec_get(k)) matches Some(st) ==> state_wf(st)
    }

    /// A fresh, uninitialized contract.
    pub fn new() -> (s: ReferralSystem)
        ensures
            s.wf(),
            s.spec_config() is None,
            forall|u: u64| s.spec_state(u) is None,
            forall|u: u64| s.spec_referrer(u) is None,
            s.spec_events() == Seq::<Event>::empty(),
    {
        ReferralSystem {
            config: None,
            states: Table::new(),
            referred_by: Table::new(),
            events: Vec::new(),
        }
    }

    /// Initializes the referral system with the admin and the reward
    /// contract, at the default 5% rate.  A second call fails with
    /// `AlreadyInitialized` and changes nothing.
    pub fn init(&mut self, admin: u64, reward_contract: u64) -> (r: Result<(), Error>)
        requires
            old(self).wf(),
        ensures
            final(self).wf(),
            match r {
                Ok(()) => {
                    &&& old(self).spec_config() is None
                    &&& final(self).spec_config() == Some(
                        Config { admin, reward_contract, reward_bps: DEFAULT_REWARD_BPS },
                    )
                    &&& forall|u: u64| final(self).spec_state(u) == old(self).spec_state(u)
                    &&& forall|u: u64| final(self).spec_referrer(u) == old(self).spec_referrer(u)
                    &&& final(self).spec_events() == old(self).spec_events().push(
                        Event::Started(
                            Initialized { admin, reward_contract, reward_bps: DEFAULT_REWARD_BPS },
                        ),
                    )
                },
                Err(e) => {
                    &&& e == Error::AlreadyInitialized
                    &&& old(self).spec_config() is Some
                    &&& *final(self) == *old(self)
                },
            },
    {
        if self.config.is_some() {
            return Err(Error::AlreadyInitialized);
        }
        self.config = Some(Config { admin, reward_contract, reward_bps: DEFAULT_REWARD_BPS });
        self.events.push(
            Event::Started(
                Initialized { admin, reward_contract, reward_bps: DEFAULT_REWARD_BPS },
            ),
        );
        Ok(())
    }

    /// Updates the reward percentage.  Admin only; a rate above 100%
    /// is rejected with `InvalidAmount`.
    pub fn set_reward_bps(&mut self, caller: u64, bps: u32) -> (r: Result<(), Error>)
        requires
            old(self).wf(),
        ensures
            final(self).wf(),
            forall|u: u64| final(self).spec_state(u) == old(self).spec_state(u),
            forall|u: u64| final(self).spec_referrer(u) == old(self).spec_referrer(u),
            match r {
                Ok(()) => {
                    &&& old(self).spec_config() matches Some(c) && caller == c.admin && bps
                        <= 10000
                    &&& final(self).spec_config() == Some(
                        Config { reward_bps: bps, ..old(self).spec_config()->Some_0 },
                    )
                    &&& final(self).spec_events() == old(self).spec_events()
                },
                Err(e) => {
                    &&& *final(self) == *old(self)
                    &&& if old(self).spec_config() is None {
                        e == Error::NotInitialized
                    } else if caller != old(self).spec_config()->Some_0.admin {
                        e == Error::NotAuthorized
                    } else {
                        e == Error::InvalidAmount && bps > 10000
                    }
                },
            },
    {
        let c = match &self.config {
            None => {
                return Err(Error::NotInitialized);
            },
            Some(c) => *c,
        };
        if caller != c.admin {
            return Err(Error::NotAuthorized);
        }
        if bps > 10000 {
            return Err(Error::InvalidAmount);
        }
        self.config = Some(Config { reward_bps: bps, ..c });
        Ok(())
    }

    /// Updates the reward contract address.  Admin only.
    pub fn set_reward_contract(&mut self, caller: u64, reward_contract: u64) -> (r: Result<
        (),
        Error,
    >)
        requires
            old(self).wf(),
        ensures
            final(self).wf(),
            forall|u: u64| final(self).spec_state(u) == old(self).spec_state(u),
            forall|u: u64| final(self).spec_referrer(u) == old(self).spec_referrer(u),
            match r {
                Ok(()) => {
                    &&& old(self).spec_config() matches Some(c) && caller == c.admin
                    &&& final(self).spec_config() == Some(
                        Config { reward_contract, ..old(self).spec_config()->Some_0 },
                    )
                    &&& final(self).spec_events() == old(self).spec_events()
                },
                Err(e) => {
                    &&& *final(self) == *old(self)
                    &&& if old(self).spec_config() is None {
                        e == Error::NotInitialized
                    } else {
                        e == Error::NotAuthorized && caller != old(self).spec_config()->Some_0.admin
                    }
                },
            },
    {
        let c = match &self.config {
            None => {
                return Err(Error::NotInitialized);
            },
            Some(c) => *c,
        };
        if caller != c.admin {
            return Err(Error::NotAuthorized);
        }
        self.config = Some(Config { reward_contract, ..c });
        Ok(())
    }

    /// The errors `register_referrer` can raise, in the order it
    /// checks for them: a user cannot refer themselves and can be
    /// referred only once.
    pub open spec fn spec_register_check(self, user: u64, referrer: u64) -> Result<(), Error> {
        if self.spec_config() is None {
            Err(Error::NotInitialized)
        } else if user == referrer {
            Err(Error::SelfReferral)
        } else if self.spec_referrer(user) is Some {
            Err(Error::AlreadyReferred)
        } else {
            Ok(())
        }
    }

    /// Registers `referrer` as the referrer of `user`.  Both sides'
    /// states are created on first touch; the user's record points at
    /// the referrer, and the user is appended to the referrer's
    /// referee list.
    pub fn register_referrer(&mut self, user: u64, referrer: u64) -> (r: Result<(), Error>)
        requires
            old(self).wf(),
        ensures
            final(self).wf(),
            final(self).spec_config() == old(self).spec_config(),
            match r {
                Err(e) => {
                    &&& *final(self) == *old(self)
                    &&& Err::<(), Error>(e) == old(self).spec_register_check(user, referrer)
                },
                Ok(()) => {
                    &&& old(self).spec_register_check(user, referrer) is Ok
                    &&& final(self).spec_referrer(user) == Some(referrer)
                    &&& forall|u: u64|
                        u != user ==> final(self).spec_referrer(u) == old(self).spec_referrer(u)
                    &&& (final(self).spec_state(user) matches Some(st) && {
                        &&& st.referrer == referrer
                        &&& st.referees@ == (match old(self).spec_state(user) {
                            Some(s) => s.referees@,
                            None => Seq::<u64>::empty(),
                        })
                        &&& st.total_earned == (match old(self).spec_state(user) {
                            Some(s) => s.total_earned,
                            None => 0,
                        })
                        &&& st.pending_reward == (match old(self).spec_state(user) {
                            Some(s) => s.pending_reward,
                            None => 0,
                        })
                        &&& st.event_count == (match old(self).spec_state(user) {
                            Some(s) => s.event_count,
                            None => 0,
                        })
                    })
                    &&& (final(self).spec_state(referrer) matches Some(st) && {
                        &&& st.referees@ == (match old(self).spec_state(referrer) {
                            Some(s) => s.referees@,
                            None => Seq::<u64>::empty(),
                        }).push(user)
                        &&& st.referrer == (match old(self).spec_state(referrer) {
                            Some(s) => s.referrer,
                            None => referrer,
                        })
                        &&& st.total_earned == (match old(self).spec_state(referrer) {
                            Some(s) => s.total_earned,
                            None => 0,
                        })
                        &&& st.pending_reward == (match old(self).spec_state(referrer) {
                            Some(s) => s.pending_reward,
                            None => 0,
                        })
                        &&& st.event_count == (match old(self).spec_state(referrer) {
                            Some(s) => s.event_count,
                            None => 0,
                        })
                    })
                    &&& forall|u: u64|
                        u != user && u != referrer ==> final(self).spec_state(u) == old(
                            self,
                        ).spec_state(u)
                    &&& final(self).spec_events() == old(self).spec_events().push(
                        Event::Registered(ReferrerRegistered { user, referrer }),
                    )
                },
            },
    {
        if self.config.is_none() {
            return Err(Error::NotInitialized);
        }
        if user == referrer {
            return Err(Error::SelfReferral);
        }
        if self.referred_by.contains(user as u128) {
            return Err(Error::AlreadyReferred);
        }
        self.referred_by.put(user as u128, referrer);
        let mut user_state = match self.states.take(user as u128) {
            Some(st) => st,
            None => ReferralState {
                referrer,
                referees: Vec::new(),
                total_earned: 0,
                pending_reward: 0,
                event_count: 0,
            },
        };
        user_state.referrer = referrer;
        self.states.put(user as u128, user_state);
        let mut referrer_state = match self.states.take(referrer as u128) {
            Some(st) => st,
            None => ReferralState {
                referrer,
                referees: Vec::new(),
                total_earned: 0,
                pending_reward: 0,
                event_count: 0,
            },
        };
        referrer_state.referees.push(user);
        self.states.put(referrer as u128, referrer_state);
        self.events.push(Event::Registered(ReferrerRegistered { user, referrer }));
        proof {
            assert(user as u128 != referrer as u128);
            assert forall|k: u128| (#[trigger] self.states.spec_get(k)) is Some implies state_wf(
                self.states.spec_get(k)->Some_0,
            ) by {
                if k != user as u128 && k != referrer as u128 {
                    assert(self.states.spec_get(k) == old(self).states.spec_get(k));
                }
            }
            assert forall|u: u64| u != user implies final(self).spec_referrer(u) == old(
                self,
            ).spec_referrer(u) by {
                assert(u as u128 != user as u128);
            }
            assert forall|u: u64| u != user && u != referrer implies final(self).spec_state(u)
                == old(self).spec_state(u) by {
                assert(u as u128 != user as u128);
                assert(u as u128 != referrer as u128);
            }
        }
        Ok(())
    }

    /// The errors `record_referral_event` can raise, in the order it
    /// checks for them.
    pub open spec fn spec_record_check(
        self,
        caller: u64,
        user: u64,
        amount: i128,
    ) -> Result<(), Error> {
        if self.spec_config() is None {
            Err(Error::NotInitialized)
        } else if caller != self.spec_config()->Some_0.admin {
            Err(Error::NotAuthorized)
        } else if amount <= 0 {
            Err(Error::InvalidAmount)
        } else if self.spec_referrer(user) is None {
            Err(Error::ReferrerNotRegistered)
        } else {
            let bps = self.spec_config()->Some_0.reward_bps;
            match spec_reward(amount, bps) {
                Err(e) => Err(e),
                Ok(reward) => {
                    let st = self.spec_state(self.spec_referrer(user)->Some_0);
                    let pending = match st {
                        Some(s) => s.pending_reward as int,
                        None => 0,
                    };
                    let earned = match st {
                        Some(s) => s.total_earned as int,
                        None => 0,
                    };
                    let events = match st {
                        Some(s) => s.event_count as int,
                        None => 0,
                    };
                    if pending + reward > i128::MAX {
                        Err(Error::Overflow)
                    } else if earned + reward > i128::MAX {
                        Err(Error::Overflow)
                    } else if events + 1 > u64::MAX {
                        Err(Error::Overflow)
                    } else {
                        Ok(())
                    }
                },
            }
        }
    }

    /// Records a qualifying event of `user` worth `amount`: the
    /// commission `amount * reward_bps / 10_000` is credited to the
    /// pending and lifetime balances of `user`'s referrer.  Operator
    /// only; the host authenticates `caller`.
    pub fn record_referral_event(
        &mut self,
        caller: u64,
        user: u64,
        event_type: EventType,
        amount: i128,
    ) -> (r: Result<(), Error>)
        requires
            old(self).wf(),
        ensures
            final(self).wf(),
            final(self).spec_config() == old(self).spec_config(),
            forall|u: u64| final(self).spec_referrer(u) == old(self).spec_referrer(u),
            match r {
                Err(e) => {
                    &&& *final(self) == *old(self)
                    &&& Err::<(), Error>(e) == old(self).spec_record_check(caller, user, amount)
                },
                Ok(()) => {
                    &&& old(self).spec_record_check(caller, user, amount) is Ok
                    &&& (old(self).spec_referrer(user) matches Some(referrer) && {
                        let reward = spec_reward(
                            amount,
                            old(self).spec_config()->Some_0.reward_bps,
                        )->Ok_0;
                        let st = old(self).spec_state(referrer);
                        final(self).spec_state(referrer) matches Some(rs) && {
                            &&& rs.pending_reward == (match st {
                                Some(s) => s.pending_reward as int,
                                None => 0,
                            }) + reward
                            &&& rs.total_earned == (match st {
                                Some(s) => s.total_earned as int,
                                None => 0,
                            }) + reward
                            &&& rs.event_count == (match st {
                                Some(s) => s.event_count as int,
                                None => 0,
                            }) + 1
                            &&& rs.referees@ == (match st {
                                Some(s) => s.referees@,
                                None => Seq::<u64>::empty(),
                            })
                            &&& rs.referrer == (match st {
                                Some(s) => s.referrer,
                                None => referrer,
                            })
                            &&& forall|u: u64|
                                u != referrer ==> final(self).spec_state(u) == old(self).spec_state(
                                    u,
                                )
                            &&& final(self).spec_events() == old(self).spec_events().push(
                                Event::Recorded(
                                    ReferralEventRecorded {
                                        user,
                                        referrer,
                                        event_type,
                                        amount,
                                        reward: reward as i128,
                                    },
                                ),
                            )
                        }
                    })
                },
            },
    {
        let c = match &self.config {
            None => {
                return Err(Error::NotInitialized);
            },
            Some(c) => *c,
        };
        if caller != c.admin {
            return Err(Error::NotAuthorized);
        }
        if amount <= 0 {
            return Err(Error::InvalidAmount);
        }
        let referrer = match self.referred_by.get(user as u128) {
            None => {
                return Err(Error::ReferrerNotRegistered);
            },
            Some(r) => *r,
        };
        let reward = match calculate_reward(amount, c.reward_bps) {
            Err(e) => {
                return Err(e);
            },
            Ok(v) => v,
        };
        proof {
            if self.states.spec_get(referrer as u128) is Some {
                assert(state_wf(self.states.spec_get(referrer as u128)->Some_0));
            }
        }
        let has_state = self.states.contains(referrer as u128);
        let (pending, earned, events) = if has_state {
            match self.states.get(referrer as u128) {
                Some(st) => (st.pending_reward, st.total_earned, st.event_count),
                None => {
                    proof {
                        assert(false);
                    }
                    (0, 0, 0)
                },
            }
        } else {
            (0i128, 0i128, 0u64)
        };
        let pending_updated = match pending.checked_add(reward) {
            Some(v) => v,
            None => {
                return Err(Error::Overflow);
            },
        };
        let earned_updated = match earned.checked_add(reward) {
            Some(v) => v,
            None => {
                return Err(Error::Overflow);
            },
        };
        let events_updated = match events.checked_add(1) {
            Some(v) => v,
            None => {
                return Err(Error::Overflow);
            },
        };
        let mut referrer_state = match self.states.take(referrer as u128) {
            Some(st) => st,
            None => ReferralState {
                referrer,
                referees: Vec::new(),
                total_earned: 0,
                pending_reward: 0,
                event_count: 0,
            },
        };
        referrer_state.pending_reward = pending_updated;
        referrer_state.total_earned = earned_updated;
        referrer_state.event_count = events_updated;
        self.states.put(referrer as u128, referrer_state);
        self.events.push(
            Event::Recorded(ReferralEventRecorded { user, referrer, event_type, amount, reward }),
        );
        proof {
            assert forall|k: u128| (#[trigger] self.states.spec_get(k)) is Some implies state_wf(
                self.states.spec_get(k)->Some_0,
            ) by {
                if k != referrer as u128 {
                    assert(self.states.spec_get(k) == old(self).states.spec_get(k));
                }
            }
            assert forall|u: u64| u != referrer implies final(self).spec_state(u) == old(
                self,
            ).spec_state(u) by {
                assert(u as u128 != referrer as u128);
            }
        }
        Ok(())
    }

    /// The errors `claim_referral_reward` can raise, in the order it
    /// checks for them.
    pub open spec fn spec_claim_check(self, user: u64) -> Result<i128, Error> {
        if self.spec_config() is None {
            Err(Error::NotInitialized)
        } else if self.spec_state(user) is None {
            Err(Error::ReferrerNotRegistered)
        } else if self.spec_state(user)->Some_0.pending_reward <= 0 {
            Err(Error::NoPendingRewards)
        } else {
            Ok(self.spec_state(user)->Some_0.pending_reward)
        }
    }

    /// Claims all pending referral rewards of `user`: the pending
    /// balance is zeroed — before any external settlement, so a claim
    /// can never pay twice — and the claimed amount is returned as the
    /// receipt for the host's reward contract.
    pub fn claim_referral_reward(&mut self, user: u64) -> (r: Result<i128, Error>)
        requires
            old(self).wf(),
        ensures
            final(self).wf(),
            final(self).spec_config() == old(self).spec_config(),
            forall|u: u64| final(self).spec_referrer(u) == old(self).spec_referrer(u),
            match r {
                Err(e) => {
                    &&& *final(self) == *old(self)
                    &&& Err::<i128, Error>(e) == old(self).spec_claim_check(user)
                },
                Ok(amount) => {
                    &&& old(self).spec_claim_check(user) == Ok::<i128, Error>(amount)
                    &&& (final(self).spec_state(user) matches Some(st) && {
                        let before = old(self).spec_state(user)->Some_0;
                        &&& st.pending_reward == 0
                        &&& st.total_earned == before.total_earned
                        &&& st.event_count == before.event_count
                        &&& st.referrer == before.referrer
                        &&& st.referees@ == before.referees@
                    })
                    &&& forall|u: u64|
                        u != user ==> final(self).spec_state(u) == old(self).spec_state(u)
                    &&& final(self).spec_events() == old(self).spec_events().push(
                        Event::Claimed(RewardClaimed { user, amount }),
                    )
                },
            },
    {
        if self.config.is_none() {
            return Err(Error::NotInitialized);
        }
        match self.states.get(user as u128) {
            None => {
                return Err(Error::ReferrerNotRegistered);
            },
            Some(st) => {
                if st.pending_reward <= 0 {
                    return Err(Error::NoPendingRewards);
                }
            },
        }
        let mut state = match self.states.take(user as u128) {
            Some(st) => st,
            None => {
                proof {
                    assert(false);
                }
                return Err(Error::ReferrerNotRegistered);
            },
        };
        let amount = state.pending_reward;
        state.pending_reward = 0;
        self.states.put(user as u128, state);
        self.events.push(Event::Claimed(RewardClaimed { user, amount }));
        proof {
            assert forall|k: u128| (#[trigger] self.states.spec_get(k)) is Some implies state_wf(
                self.states.spec_get(k)->Some_0,
            ) by {
                if k != user as u128 {
                    assert(self.states.spec_get(k) == old(self).states.spec_get(k));
                }
            }
            assert forall|u: u64| u != user implies final(self).spec_state(u) == old(
                self,
            ).spec_state(u) by {
                assert(u as u128 != user as u128);
            }
        }
        Ok(amount)
    }

    /// The notification log so far, oldest first.
    pub fn events(&self) -> (r: &Vec<Event>)
        ensures
            r@ == self.spec_events(),
    {
        &self.events
    }

    /// Returns the full referral state of a user.  Fails with
    /// `ReferrerNotRegistered` when the user has no record.
    pub fn referral_state(&self, user: u64) -> (r: Result<ReferralState, Error>)
        requires
            self.wf(),
        ensures
            match r {
                Ok(st) => {
                    &&& self.spec_state(user) matches Some(s) && {
                        &&& st.referrer == s.referrer
                        &&& st.referees@ == s.referees@
                        &&& st.total_earned == s.total_earned
                        &&& st.pending_reward == s.pending_reward
                        &&& st.event_count == s.event_count
                    }
                },
                Err(e) => {
                    &&& if self.spec_config() is None {
                        e == Error::NotInitialized
                    } else {
                        e == Error::ReferrerNotRegistered && self.spec_state(user) is None
                    }
                },
            },
    {
        if self.config.is_none() {
            return Err(Error::NotInitialized);
        }
        match self.states.get(user as u128) {
            None => Err(Error::ReferrerNotRegistered),
            Some(st) => Ok(
                ReferralState {
                    referrer: st.referrer,
                    referees: copy_user_list(&st.referees),
                    total_earned: st.total_earned,
                    pending_reward: st.pending_reward,
                    event_count: st.event_count,
                },
            ),
        }
    }

    /// Returns the referrer of a user, if any.
    pub fn get_referrer(&self, user: u64) -> (r: Option<u64>)
        requires
            self.wf(),
        ensures
            r == self.spec_referrer(user),
    {
        match self.referred_by.get(user as u128) {
            Some(referrer) => Some(*referrer),
            None => None,
        }
    }

    /// Returns the reward contract address.
    pub fn get_reward_contract(&self) -> (r: Result<u64, Error>)
        ensures
            match r {
                Ok(v) => self.spec_config() matches Some(c) && v == c.reward_contract,
                Err(e) => e == Error::NotInitialized && self.spec_config() is None,
            },
    {
        match &self.config {
            None => Err(Error::NotInitialized),
            Some(c) => Ok(c.reward_contract),
        }
    }

    /// Returns the current reward basis points.
    pub fn get_reward_bps(&self) -> (r: Result<u32, Error>)
        ensures
            match r {
                Ok(v) => self.spec_config() matches Some(c) && v == c.reward_bps,
                Err(e) => e == Error::NotInitialized && self.spec_config() is None,
            },
    {
        match &self.config {
            None => Err(Error::NotInitialized),
            Some(c) => Ok(c.reward_bps),
        }
    }
}

} // verus!
