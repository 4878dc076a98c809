//! The speed trivia contract.
//!
//! Players race to answer a question before a deadline.  The question
//! is stored as a commitment to the answer's digest; a submission is
//! correct when its digest matches the commitment.  After the admin
//! finalizes a round, the reward is split evenly among the correct
//! answers and each winner claims its share once.
//!
//! The host computes the digests (its cryptography lives outside this
//! model) and hands them in as opaque words; the library compares
//! them, counts winners, splits the reward and keeps the claims
//! ledger.  Pay-outs move through the [`Accounts`] balance book.

use vstd::prelude::*;

use crate::accounts::Accounts;
use crate::table::{lemma_seq_sum_push, lemma_seq_sum_update, seq_sum, Table};

verus! {

/// Every way a speed trivia operation can fail.
#[derive(Copy, Clone, Debug, Eq, PartialEq, Structural)]
pub enum Error {
    AlreadyInitialized,
    NotInitialized,
    NotAuthorized,
    RoundAlreadyExists,
    RoundNotFound,
    RoundNotOpen,
    RoundClosed,
    AlreadySubmitted,
    AlreadyClaimed,
    NoRewardAvailable,
    InvalidAmount,
    Overflow,
    InvalidDeadline,
    PastDeadline,
    /// The balance adapter refused the pay-out; the claim fails with
    /// no effect, as the host would fail the enclosing transaction.
    InsufficientBalance,
}

/// Lifecycle state of a trivia round.
#[derive(Copy, Clone, Debug, Eq, PartialEq, Structural)]
pub enum RoundStatus {
    Open,
    Finalized,
}

/// One trivia round.
#[derive(Copy, Clone, Debug, Eq, PartialEq, Structural)]
pub struct RoundData {
    /// The digest of the correct answer, as an opaque word.
    pub answer_commitment: u64,
    pub reward_amount: i128,
    pub payout_per_winner: i128,
    pub winner_count: u32,
    pub status: RoundStatus,
    pub deadline: u64,
    pub opened_at: u64,
}

/// One player's submission in one round.
#[derive(Copy, Clone, Debug, Eq, PartialEq, Structural)]
pub struct Submission {
    /// The digest of the submitted answer, as an opaque word.
    pub answer_hash: u64,
    pub correct: bool,
    pub claimed: bool,
    pub timestamp: u64,
}

/// The immutable configuration written once by `init`.
#[derive(Copy, Clone, Debug, Eq, PartialEq, Structural)]
pub struct Config {
    pub admin: u64,
    pub prize_pool_contract: u64,
    pub balance_contract: u64,
}

/// Notification: a question was opened.
#[derive(Copy, Clone, Debug, Eq, PartialEq, Structural)]
pub struct QuestionOpened {
    pub round_id: u64,
    pub reward_amount: i128,
    pub deadline: u64,
}

/// Notification: an answer was submitted.
#[derive(Copy, Clone, Debug, Eq, PartialEq, Structural)]
pub struct AnswerSubmitted {
    pub round_id: u64,
    pub player: u64,
    pub correct: bool,
    pub timestamp: u64,
}

/// Notification: a round was finalized.
#[derive(Copy, Clone, Debug, Eq, PartialEq, Structural)]
pub struct RoundFinalized {
    pub round_id: u64,
    pub winners: u32,
    pub payout_per_winner: i128,
}

/// Notification: a reward was claimed.
#[derive(Copy, Clone, Debug, Eq, PartialEq, Structural)]
pub struct RewardClaimed {
    pub round_id: u64,
    pub player: u64,
    pub amount: i128,
}

/// One entry of the append-only notification log, recorded after the
/// corresponding state change has committed; the host forwards them
/// to external observers.
#[derive(Copy, Clone, Debug, Eq, PartialEq, Structural)]
pub enum Event {
    Opened(QuestionOpened),
    Submitted(AnswerSubmitted),
    Finalized(RoundFinalized),
    Paid(RewardClaimed),
}

/// One stored round together with its submissions, keyed by player.
struct RoundEntry {
    data: RoundData,
    submissions: Table<Submission>,
}

/// The speed trivia contract state.  `contract` is the contract's own
/// account on the balance book, debited on every pay-out.
pub struct SpeedTrivia {
    contract: u64,
    config: Option<Config>,
    rounds: Table<RoundEntry>,
    events: Vec<Event>,
}

/// The weight counting correct submissions.
pub open spec fn correct_weight() -> spec_fn((u128, Submission)) -> int {
    |p: (u128, Submission)|
        if p.1.correct {
            1
        } else {
            0
        }
}

/// Rejects a non-positive amount.
pub fn require_positive(amount: i128) -> (r: Result<(), Error>)
    ensures
        r == (if amount <= 0 {
            Err::<(), Error>(Error::InvalidAmount)
        } else {
            Ok::<(), Error>(())
        }),
{
    if amount <= 0 {
        return Err(Error::InvalidAmount);
    }
    Ok(())
}

/// The invariant of one stored round: a positive reward, a winner
/// count that is exactly the number of correct submissions, every
/// submission marked correct exactly when its digest matches the
/// commitment, and — once finalized — the even split frozen.
spec fn entry_wf(e: RoundEntry) -> bool {
    &&& e.submissions.wf()
    &&& e.data.reward_amount > 0
    &&& e.data.winner_count == seq_sum(e.submissions.entries(), correct_weight())
    &&& forall|i: int|
        0 <= i < e.submissions.entries().len() ==> {
            &&& (#[trigger] e.submissions.entries()[i]).1.correct == (
            e.submissions.entries()[i].1.answer_hash == e.data.answer_commitment)
            &&& (e.data.status == RoundStatus::Open ==> !e.submissions.entries()[i].1.claimed)
        }
    &&& e.data.status == RoundStatus::Open ==> e.data.payout_per_winner == 0
    &&& e.data.status == RoundStatus::Finalized ==> e.data.payout_per_winner == (
    if e.data.winner_count == 0 {
        0
    } else {
        (e.data.reward_amount as int) / (e.data.winner_count as int)
    })
}

impl SpeedTrivia {
    /// The contract's own account on the balance book.
    pub closed spec fn spec_contract(self) -> u64 {
        self.contract
    }

    /// The configuration, present once `init` has run.
    pub closed spec fn spec_config(self) -> Option<Config> {
        self.config
    }

    /// The stored state of round `round_id`.
    pub closed spec fn spec_round(self, round_id: u64) -> Option<RoundData> {
        match self.rounds.spec_get(round_id as u128) {
            Some(e) => Some(e.data),
            None => None,
        }
    }

    /// The stored submission of `player` in round `round_id`.
    pub closed spec fn spec_submission(self, round_id: u64, player: u64) -> Option<Submission> {
        match self.rounds.spec_get(round_id as u128) {
            Some(e) => e.submissions.spec_get(player as u128),
            None => None,
        }
    }

    /// The notification log so far, oldest first.
    pub closed spec fn spec_events(self) -> Seq<Event> {
        self.events@
    }

    /// The state invariant.
    pub closed spec fn wf(self) -> bool {
        &&& self.rounds.wf()
        &&& (self.config is None ==> forall|k: u128| self.rounds.spec_get(k) is None)
        &&& forall|k: u128| (#[trigger] self.rounds.spec_get(k)) matches Some(e) ==> entry_wf(e)
    }

    /// A fresh, uninitialized contract whose pay-out account is
    /// `contract` on the balance book.
    pub fn new(contract: u64) -> (s: SpeedTrivia)
        ensures
            s.wf(),
            s.spec_contract() == contract,
            s.spec_config() is None,
            forall|id: u64| s.spec_round(id) is None,
            forall|id: u64, p: u64| s.spec_submission(id, p) is None,
            s.spec_events() == Seq::<Event>::empty(),
    {
        SpeedTrivia { contract, config: None, rounds: Table::new(), events: Vec::new() }
    }

    /// Initialize the contract with its core dependencies.  A second
    /// call fails with `AlreadyInitialized` and changes nothing.
    pub fn init(&mut self, admin: u64, prize_pool_contract: u64, balance_contract: u64) -> (r:
        Result<(), Error>)
        requires
            old(self).wf(),
        ensures
            final(self).wf(),
            final(self).spec_contract() == old(self).spec_contract(),
            match r {
                Ok(()) => {
                    &&& old(self).spec_config() is None
                    &&& final(self).spec_config() == Some(
                        Config { admin, prize_pool_contract, balance_contract },
                    )
                    &&& forall|id: u64| final(self).spec_round(id) == old(self).spec_round(id)
                    &&& final(self).spec_events() == old(self).spec_events()
                },
                Err(e) => {
                    &&& e == Error::AlreadyInitialized
                    &&& old(self).spec_config() is Some
                    &&& *final(self) == *old(self)
                },
            },
    {
        if self.config.is_some() {
            return Err(Error::AlreadyInitialized);
        }
        self.config = Some(Config { admin, prize_pool_contract, balance_contract });
        Ok(())
    }

    /// The errors `open_question` can raise, in the order it checks
    /// for them.
    pub open spec fn spec_open_check(
        self,
        caller: u64,
        round_id: u64,
        deadline: u64,
        reward_amount: i128,
        now: u64,
    ) -> Result<(), Error> {
        if self.spec_config() is None {
            Err(Error::NotInitialized)
        } else if caller != self.spec_config()->Some_0.admin {
            Err(Error::NotAuthorized)
        } else if reward_amount <= 0 {
            Err(Error::InvalidAmount)
        } else if deadline <= now {
            Err(Error::InvalidDeadline)
        } else if self.spec_round(round_id) is Some {
            Err(Error::RoundAlreadyExists)
        } else {
            Ok(())
        }
    }

    /// Open a new trivia question.  Admin only; the host authenticates
    /// `caller`, reserves `reward_amount` in the prize pool, and hands
    /// in the commitment digest and the current time.
    pub fn open_question(
        &mut self,
        caller: u64,
        round_id: u64,
        answer_commitment: u64,
        deadline: u64,
        reward_amount: i128,
        now: u64,
    ) -> (r: Result<(), Error>)
        requires
            old(self).wf(),
        ensures
            final(self).wf(),
            final(self).spec_contract() == old(self).spec_contract(),
            final(self).spec_config() == old(self).spec_config(),
            match r {
                Err(e) => {
                    &&& *final(self) == *old(self)
                    &&& Err::<(), Error>(e) == old(self).spec_open_check(
                        caller,
                        round_id,
                        deadline,
                        reward_amount,
                        now,
                    )
                },
                Ok(()) => {
                    &&& old(self).spec_open_check(caller, round_id, deadline, reward_amount, now)
                        is Ok
                    &&& final(self).spec_round(round_id) == Some(
                        RoundData {
                            answer_commitment,
                            reward_amount,
                            payout_per_winner: 0,
                            winner_count: 0,
                            status: RoundStatus::Open,
                            deadline,
                            opened_at: now,
                        },
                    )
                    &&& forall|id: u64|
                        id != round_id ==> final(self).spec_round(id) == old(self).spec_round(id)
                    &&& forall|id: u64, p: u64|
                        id != round_id ==> final(self).spec_submission(id, p) == old(
                            self,
                        ).spec_submission(id, p)
                    &&& forall|p: u64| final(self).spec_submission(round_id, p) is None
                    &&& final(self).spec_events() == old(self).spec_events().push(
                        Event::Opened(QuestionOpened { round_id, reward_amount, deadline }),
                    )
                },
            },
    {
        let c = match &self.config {
            None => {
                return Err(Error::NotInitialized);
            },
            Some(c) => *c,
        };
        if caller != c.admin {
            return Err(Error::NotAuthorized);
        }
        match require_positive(reward_amount) {
            Err(e) => {
                return Err(e);
            },
            Ok(()) => {},
        }
        if deadline <= now {
            return Err(Error::InvalidDeadline);
        }
        if self.rounds.contains(round_id as u128) {
            return Err(Error::RoundAlreadyExists);
        }
        let data = RoundData {
            answer_commitment,
            reward_amount,
            payout_per_winner: 0,
            winner_count: 0,
            status: RoundStatus::Open,
            deadline,
            opened_at: now,
        };
        self.rounds.put(round_id as u128, RoundEntry { data, submissions: Table::new() });
        self.events.push(Event::Opened(QuestionOpened { round_id, reward_amount, deadline }));
        proof {
            assert forall|k: u128| (#[trigger] self.rounds.spec_get(k)) is Some implies entry_wf(
                self.rounds.spec_get(k)->Some_0,
            ) by {
                if k != round_id as u128 {
                    assert(self.rounds.spec_get(k) == old(self).rounds.spec_get(k));
                }
            }
            assert forall|id: u64| id != round_id implies final(self).spec_round(id) == old(
                self,
            ).spec_round(id) by {
                assert(id as u128 != round_id as u128);
            }
            assert forall|id: u64, p: u64| id != round_id implies final(self).spec_submission(
                id,
                p,
            ) == old(self).spec_submission(id, p) by {
                assert(id as u128 != round_id as u128);
            }
        }
        Ok(())
    }

    /// The errors `submit_answer` can raise, in the order it checks
    /// for them.
    pub open spec fn spec_submit_check(
        self,
        player: u64,
        round_id: u64,
        answer_hash: u64,
        timestamp: u64,
        now: u64,
    ) -> Result<(), Error> {
        if self.spec_config() is None {
            Err(Error::NotInitialized)
        } else if self.spec_round(round_id) is None {
            Err(Error::RoundNotFound)
        } else if self.spec_round(round_id)->Some_0.status != RoundStatus::Open {
            Err(Error::RoundClosed)
        } else if now > self.spec_round(round_id)->Some_0.deadline {
            Err(Error::PastDeadline)
        } else if timestamp > now {
            Err(Error::InvalidAmount)
        } else if self.spec_submission(round_id, player) is Some {
            Err(Error::AlreadySubmitted)
        } else if self.spec_round(round_id)->Some_0.winner_count == u32::MAX && answer_hash
            == self.spec_round(round_id)->Some_0.answer_commitment {
            Err(Error::Overflow)
        } else {
            Ok(())
        }
    }

    /// Submit an answer for a round.  The host hashes the raw answer
    /// and hands in the digest together with the claimed submission
    /// time, which may not lie in the future.  A submission is correct
    /// exactly when its digest matches the round's commitment.
    pub fn submit_answer(
        &mut self,
        player: u64,
        round_id: u64,
        answer_hash: u64,
        timestamp: u64,
        now: u64,
    ) -> (r: Result<(), Error>)
        requires
            old(self).wf(),
        ensures
            final(self).wf(),
            final(self).spec_contract() == old(self).spec_contract(),
            final(self).spec_config() == old(self).spec_config(),
            match r {
                Err(e) => {
                    &&& *final(self) == *old(self)
                    &&& Err::<(), Error>(e) == old(self).spec_submit_check(
                        player,
                        round_id,
                        answer_hash,
                        timestamp,
                        now,
                    )
                },
                Ok(()) => {
                    &&& old(self).spec_submit_check(player, round_id, answer_hash, timestamp, now)
                        is Ok
                    &&& (old(self).spec_round(round_id) matches Some(before) && {
                        let correct = answer_hash == before.answer_commitment;
                        &&& final(self).spec_submission(round_id, player) == Some(
                            Submission { answer_hash, correct, claimed: false, timestamp },
                        )
                        &&& final(self).spec_round(round_id) == Some(
                            RoundData {
                                winner_count: if correct {
                                    (before.winner_count + 1) as u32
                                } else {
                                    before.winner_count
                                },
                                ..before
                            },
                        )
                    })
                    &&& forall|id: u64|
                        id != round_id ==> final(self).spec_round(id) == old(self).spec_round(id)
                    &&& forall|id: u64, p: u64|
                        !(id == round_id && p == player) ==> final(self).spec_submission(id, p)
                            == old(self).spec_submission(id, p)
                    &&& final(self).spec_events() == old(self).spec_events().push(
                        Event::Submitted(
                            AnswerSubmitted {
                                round_id,
                                player,
                                correct: answer_hash == old(self).spec_round(
                                    round_id,
                                )->Some_0.answer_commitment,
                                timestamp,
                            },
                        ),
                    )
                },
            },
    {
        if self.config.is_none() {
            return Err(Error::NotInitialized);
        }
        let data = match self.rounds.get(round_id as u128) {
            None => {
                return Err(Error::RoundNotFound);
            },
            Some(e) => {
                if e.data.status != RoundStatus::Open {
                    return Err(Error::RoundClosed);
                }
                if now > e.data.deadline {
                    return Err(Error::PastDeadline);
                }
                if timestamp > now {
                    return Err(Error::InvalidAmount);
                }
                proof {
                    assert(entry_wf(self.rounds.spec_get(round_id as u128)->Some_0));
                }
                if e.submissions.contains(player as u128) {
                    return Err(Error::AlreadySubmitted);
                }
                e.data
            },
        };
        let correct = answer_hash == data.answer_commitment;
        if correct && data.winner_count == u32::MAX {
            return Err(Error::Overflow);
        }
        let mut entry = match self.rounds.take(round_id as u128) {
            Some(e) => e,
            None => {
                proof {
                    assert(false);
                }
                return Err(Error::RoundNotFound);
            },
        };
        if correct {
            entry.data.winner_count = entry.data.winner_count + 1;
        }
        let submission = Submission { answer_hash, correct, claimed: false, timestamp };
        entry.submissions.put(player as u128, submission);
        self.rounds.put(round_id as u128, entry);
        self.events.push(
            Event::Submitted(AnswerSubmitted { round_id, player, correct, timestamp }),
        );
        proof {
            let k = round_id as u128;
            let e0 = old(self).rounds.spec_get(k)->Some_0;
            let e1 = self.rounds.spec_get(k)->Some_0;
            let pair = (player as u128, submission);
            assert(e1.submissions.entries() == e0.submissions.entries().push(pair));
            lemma_seq_sum_push(e0.submissions.entries(), pair, correct_weight());
            assert(entry_wf(e1)) by {
                assert forall|i: int| 0 <= i < e1.submissions.entries().len() implies {
                    &&& (#[trigger] e1.submissions.entries()[i]).1.correct == (
                    e1.submissions.entries()[i].1.answer_hash == e1.data.answer_commitment)
                    &&& (e1.data.status == RoundStatus::Open
                        ==> !e1.submissions.entries()[i].1.claimed)
                } by {
                    if i < e0.submissions.entries().len() {
                        assert(e1.submissions.entries()[i] == e0.submissions.entries()[i]);
                    } else {
                        assert(e1.submissions.entries()[i] == pair);
                    }
                }
            }
            assert forall|k2: u128| (#[trigger] self.rounds.spec_get(k2)) is Some implies entry_wf(
                self.rounds.spec_get(k2)->Some_0,
            ) by {
                if k2 != k {
                    assert(self.rounds.spec_get(k2) == old(self).rounds.spec_get(k2));
                }
            }
            assert forall|id: u64| id != round_id implies final(self).spec_round(id) == old(
                self,
            ).spec_round(id) by {
                assert(id as u128 != round_id as u128);
            }
            assert forall|id: u64, p: u64| !(id == round_id && p == player) implies final(self)
                .spec_submission(id, p) == old(self).spec_submission(id, p) by {
                if id != round_id {
                    assert(id as u128 != round_id as u128);
                } else {
                    assert(p as u128 != player as u128);
                }
            }
        }
        Ok(())
    }

    /// The errors `finalize_round` can raise, in the order it checks
    /// for them.
    pub open spec fn spec_finalize_check(self, caller: u64, round_id: u64) -> Result<(), Error> {
        if self.spec_config() is None {
            Err(Error::NotInitialized)
        } else if caller != self.spec_config()->Some_0.admin {
            Err(Error::NotAuthorized)
        } else if self.spec_round(round_id) is None {
            Err(Error::RoundNotFound)
        } else if self.spec_round(round_id)->Some_0.status != RoundStatus::Open {
            Err(Error::RoundClosed)
        } else {
            Ok(())
        }
    }

    /// Finalize a round.  Admin only; the host authenticates `caller`
    /// and, when no one answered correctly, releases the reserved
    /// reward back to the prize pool.  The pay-out per winner is the
    /// reward divided evenly — rounded down — among the correct
    /// answers, zero when there are none.
    pub fn finalize_round(&mut self, caller: u64, round_id: u64) -> (r: Result<(), Error>)
        requires
            old(self).wf(),
        ensures
            final(self).wf(),
            final(self).spec_contract() == old(self).spec_contract(),
            final(self).spec_config() == old(self).spec_config(),
            match r {
                Err(e) => {
                    &&& *final(self) == *old(self)
                    &&& Err::<(), Error>(e) == old(self).spec_finalize_check(caller, round_id)
                },
                Ok(()) => {
                    &&& old(self).spec_finalize_check(caller, round_id) is Ok
                    &&& (old(self).spec_round(round_id) matches Some(before) && final(self)
                        .spec_round(round_id) == Some(
                        RoundData {
                            status: RoundStatus::Finalized,
                            payout_per_winner: if before.winner_count == 0 {
                                0
                            } else {
                                ((before.reward_amount as int) / (before.winner_count as int)) as i128
                            },
                            ..before
                        },
                    ))
                    &&& forall|id: u64|
                        id != round_id ==> final(self).spec_round(id) == old(self).spec_round(id)
                    &&& forall|id: u64, p: u64|
                        final(self).spec_submission(id, p) == old(self).spec_submission(id, p)
                    &&& ({
                        let before = old(self).spec_round(round_id)->Some_0;
                        final(self).spec_events() == old(self).spec_events().push(
                            Event::Finalized(
                                RoundFinalized {
                                    round_id,
                                    winners: before.winner_count,
                                    payout_per_winner: if before.winner_count == 0 {
                                        0
                                    } else {
                                        ((before.reward_amount as int) / (
                                        before.winner_count as int)) as i128
                                    },
                                },
                            ),
                        )
                    })
                },
            },
    {
        let c = match &self.config {
            None => {
                return Err(Error::NotInitialized);
            },
            Some(c) => *c,
        };
        if caller != c.admin {
            return Err(Error::NotAuthorized);
        }
        match self.rounds.get(round_id as u128) {
            None => {
                return Err(Error::RoundNotFound);
            },
            Some(e) => {
                if e.data.status != RoundStatus::Open {
                    return Err(Error::RoundClosed);
                }
            },
        }
        proof {
            assert(entry_wf(self.rounds.spec_get(round_id as u128)->Some_0));
        }
        let mut entry = match self.rounds.take(round_id as u128) {
            Some(e) => e,
            None => {
                proof {
                    assert(false);
                }
                return Err(Error::RoundNotFound);
            },
        };
        let payout_per_winner: i128 = if entry.data.winner_count == 0 {
            0
        } else {
            proof {
                vstd::arithmetic::div_mod::lemma_div_pos_is_pos(
                    entry.data.reward_amount as int,
                    entry.data.winner_count as int,
                );
                vstd::arithmetic::div_mod::lemma_div_is_ordered_by_denominator(
                    entry.data.reward_amount as int,
                    1,
                    entry.data.winner_count as int,
                );
            }
            entry.data.reward_amount / (entry.data.winner_count as i128)
        };
        entry.data.status = RoundStatus::Finalized;
        entry.data.payout_per_winner = payout_per_winner;
        let winners = entry.data.winner_count;
        self.rounds.put(round_id as u128, entry);
        self.events.push(
            Event::Finalized(RoundFinalized { round_id, winners, payout_per_winner }),
        );
        proof {
            assert forall|k2: u128| (#[trigger] self.rounds.spec_get(k2)) is Some implies entry_wf(
                self.rounds.spec_get(k2)->Some_0,
            ) by {
                if k2 != round_id as u128 {
                    assert(self.rounds.spec_get(k2) == old(self).rounds.spec_get(k2));
                }
            }
            assert forall|id: u64| id != round_id implies final(self).spec_round(id) == old(
                self,
            ).spec_round(id) by {
                assert(id as u128 != round_id as u128);
            }
            assert forall|id: u64, p: u64| final(self).spec_submission(id, p) == old(self)
                .spec_submission(id, p) by {
                if id != round_id {
                    assert(id as u128 != round_id as u128);
                }
            }
        }
        Ok(())
    }

    /// The errors `claim_reward` can raise, in the order it checks for
    /// them.
    pub open spec fn spec_claim_check(self, balances: Accounts, player: u64, round_id: u64) -> Result<
        i128,
        Error,
    > {
        if self.spec_config() is None {
            Err(Error::NotInitialized)
        } else if self.spec_round(round_id) is None {
            Err(Error::RoundNotFound)
        } else if self.spec_round(round_id)->Some_0.status != RoundStatus::Finalized {
            Err(Error::RoundNotOpen)
        } else if self.spec_submission(round_id, player) is None {
            Err(Error::NoRewardAvailable)
        } else if self.spec_submission(round_id, player)->Some_0.claimed {
            Err(Error::AlreadyClaimed)
        } else if !self.spec_submission(round_id, player)->Some_0.correct || self.spec_round(
            round_id,
        )->Some_0.payout_per_winner <= 0 {
            Err(Error::NoRewardAvailable)
        } else {
            let payout = self.spec_round(round_id)->Some_0.payout_per_winner;
            if balances.balance(self.spec_contract()) < payout {
                Err(Error::InsufficientBalance)
            } else if player != self.spec_contract() && balances.balance(player) + payout
                > i128::MAX {
                Err(Error::Overflow)
            } else {
                Ok(payout)
            }
        }
    }

    /// Claim the reward for a correct answer in a finalized round.
    /// The share moves from the contract's account to the player on
    /// the balance book, exactly once per submission.
    pub fn claim_reward(&mut self, balances: &mut Accounts, player: u64, round_id: u64) -> (r:
        Result<i128, Error>)
        requires
            old(self).wf(),
            old(balances).wf(),
        ensures
            final(self).wf(),
            final(balances).wf(),
            final(self).spec_contract() == old(self).spec_contract(),
            final(self).spec_config() == old(self).spec_config(),
            match r {
                Err(e) => {
                    &&& *final(self) == *old(self)
                    &&& *final(balances) == *old(balances)
                    &&& Err::<i128, Error>(e) == old(self).spec_claim_check(
                        *old(balances),
                        player,
                        round_id,
                    )
                },
                Ok(payout) => {
                    &&& old(self).spec_claim_check(*old(balances), player, round_id) == Ok::<
                        i128,
                        Error,
                    >(payout)
                    &&& Accounts::transferred(
                        *old(balances),
                        *final(balances),
                        old(self).spec_contract(),
                        player,
                        payout,
                    )
                    &&& (old(self).spec_submission(round_id, player) matches Some(s) && final(self)
                        .spec_submission(round_id, player) == Some(
                        Submission { claimed: true, ..s },
                    ))
                    &&& final(self).spec_events() == old(self).spec_events().push(
                        Event::Paid(RewardClaimed { round_id, player, amount: payout }),
                    )
                    &&& forall|id: u64| final(self).spec_round(id) == old(self).spec_round(id)
                    &&& forall|id: u64, p: u64|
                        !(id == round_id && p == player) ==> final(self).spec_submission(id, p)
                            == old(self).spec_submission(id, p)
                },
            },
    {
        if self.config.is_none() {
            return Err(Error::NotInitialized);
        }
        let (payout, submission) = match self.rounds.get(round_id as u128) {
            None => {
                return Err(Error::RoundNotFound);
            },
            Some(e) => {
                if e.data.status != RoundStatus::Finalized {
                    return Err(Error::RoundNotOpen);
                }
                proof {
                    assert(entry_wf(self.rounds.spec_get(round_id as u128)->Some_0));
                }
                match e.submissions.get(player as u128) {
                    None => {
                        return Err(Error::NoRewardAvailable);
                    },
                    Some(s) => {
                        if s.claimed {
                            return Err(Error::AlreadyClaimed);
                        }
                        if !s.correct || e.data.payout_per_winner <= 0 {
                            return Err(Error::NoRewardAvailable);
                        }
                        (e.data.payout_per_winner, *s)
                    },
                }
            },
        };
        match balances.transfer(self.contract, player, payout) {
            Err(crate::shared::Error::InsufficientBalance) => {
                return Err(Error::InsufficientBalance);
            },
            Err(_) => {
                return Err(Error::Overflow);
            },
            Ok(()) => {},
        }
        let mut entry = match self.rounds.take(round_id as u128) {
            Some(e) => e,
            None => {
                proof {
                    assert(false);
                }
                return Err(Error::RoundNotFound);
            },
        };
        let mut updated = submission;
        updated.claimed = true;
        entry.submissions.put(player as u128, updated);
        self.rounds.put(round_id as u128, entry);
        self.events.push(Event::Paid(RewardClaimed { round_id, player, amount: payout }));
        proof {
            let k = round_id as u128;
            let e0 = old(self).rounds.spec_get(k)->Some_0;
            let e1 = self.rounds.spec_get(k)->Some_0;
            let s0 = e0.submissions.entries();
            let pair = (player as u128, updated);
            let i = choose|i: int|
                0 <= i < s0.len() && (#[trigger] s0[i]).0 == player as u128 && e1.submissions
                    .entries() == s0.update(i, pair);
            e0.submissions.lemma_get_entries(player as u128);
            assert(s0[i].1 == submission);
            lemma_seq_sum_update(s0, i, pair, correct_weight());
            assert(entry_wf(e1)) by {
                assert forall|j: int| 0 <= j < e1.submissions.entries().len() implies {
                    &&& (#[trigger] e1.submissions.entries()[j]).1.correct == (
                    e1.submissions.entries()[j].1.answer_hash == e1.data.answer_commitment)
                    &&& (e1.data.status == RoundStatus::Open
                        ==> !e1.submissions.entries()[j].1.claimed)
                } by {
                    if j != i {
                        assert(e1.submissions.entries()[j] == s0[j]);
                    } else {
                        assert(e1.submissions.entries()[j] == pair);
                    }
                }
            }
            assert forall|k2: u128| (#[trigger] self.rounds.spec_get(k2)) is Some implies entry_wf(
                self.rounds.spec_get(k2)->Some_0,
            ) by {
                if k2 != k {
                    assert(self.rounds.spec_get(k2) == old(self).rounds.spec_get(k2));
                }
            }
            assert forall|id: u64| final(self).spec_round(id) == old(self).spec_round(id) by {
                if id != round_id {
                    assert(id as u128 != round_id as u128);
                }
            }
            assert forall|id: u64, p: u64| !(id == round_id && p == player) implies final(self)
                .spec_submission(id, p) == old(self).spec_submission(id, p) by {
                if id != round_id {
                    assert(id as u128 != round_id as u128);
                } else {
                    assert(p as u128 != player as u128);
                }
            }
            balances.lemma_balance_bounds(player);
        }
        Ok(payout)
    }

    /// The notification log so far, oldest first.
    pub fn events(&self) -> (r: &Vec<Event>)
        ensures
            r@ == self.spec_events(),
    {
        &self.events
    }

    /// Get round data, or `None` if the round does not exist.
    pub fn get_round(&self, round_id: u64) -> (r: Option<RoundData>)
        requires
            self.wf(),
        ensures
            r == self.spec_round(round_id),
    {
        match self.rounds.get(round_id as u128) {
            Some(e) => Some(e.data),
            None => None,
        }
    }
}

} // verus!
