//! Stellarcade: verified settlement and claims engines for a family of
//! pari-mutuel wagering games.
//!
//! Each contract is modelled as an explicit state machine over plain
//! values.  The surrounding host supplies the environment — the current
//! time, oracle prices, random outcomes, digests and caller identities —
//! as arguments, and performs the actual token movements through the
//! verified [`accounts::Accounts`] ledger, so that every rule, guard and
//! pay-out computation is stated in a contract and proved.

pub mod accounts;
pub mod color_prediction;
pub mod higher_lower;
pub mod price_prediction;
pub mod referral;
pub mod shared;
pub mod speed_trivia;
pub mod table;
