//! Shared utilities and data structures for the Stellarcade contracts.

use vstd::prelude::*;

verus! {

/// Common error codes used across all contracts.
#[derive(Copy, Clone, Debug, Eq, PartialEq, Structural)]
pub enum Error {
    NotAuthorized,
    InsufficientBalance,
    InvalidAmount,
    Overflow,
}

/// A standard configuration for platform-wide settings.  The
/// administrator is named by an opaque account identifier handed in by
/// the host.
#[derive(Copy, Clone, Debug, Eq, PartialEq, Structural)]
pub struct PlatformConfig {
    pub admin: u64,
    /// In basis points (e.g., 250 = 2.5%).
    pub fee_percentage: u32,
}

/// Constant for basis points divisor.
pub const BASIS_POINTS_DIVISOR: u32 = 10_000;

/// Helper to calculate a fee based on an amount and a rate in basis
/// points: the fee is `amount * fee_bps / 10_000`, rounded down.
pub fn calculate_fee(amount: i128, fee_bps: u32) -> (fee: i128)
    requires
        0 <= amount,
        amount * (fee_bps as int) <= i128::MAX,
    ensures
        fee == amount * (fee_bps as int) / (BASIS_POINTS_DIVISOR as int),
        0 <= fee,
{
    proof {
        vstd::arithmetic::mul::lemma_mul_nonnegative(amount as int, fee_bps as int);
        vstd::arithmetic::div_mod::lemma_div_pos_is_pos(
            amount * (fee_bps as int),
            BASIS_POINTS_DIVISOR as int,
        );
    }
    (amount * fee_bps as i128) / BASIS_POINTS_DIVISOR as i128
}

} // verus!
