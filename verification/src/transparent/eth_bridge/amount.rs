//! Monetary amounts, read through `zcash_protocol`'s `Zatoshis`.
use vstd::prelude::*;
use zcash_protocol::value::{BalanceError, Zatoshis};

use crate::transparent::eth_bridge::encoding::u64_from_le;

verus! {

/// The largest number of zatoshis that a `Zatoshis` value may hold
/// (`zcash_protocol::value::MAX_MONEY`: 21 million ZEC of 10^8 zatoshis each).
pub const MAX_MONEY: u64 = 21_000_000 * 100_000_000;

/// `zcash_protocol::value::BalanceError`, the error of a rejected amount.
#[verifier::external_type_specification]
#[verifier::external_body]
pub struct ExBalanceError(BalanceError);

/// Calls `Zatoshis::from_u64_le_bytes`, which reads `u64::from_le_bytes(bytes)` and
/// accepts it exactly when it is at most `MAX_MONEY`; an accepted amount is handed back
/// as its `u64` (`Zatoshis::into_u64`). Which `BalanceError` a rejection carries is not stated.
#[verifier::external_body]
pub(crate) fn zatoshis_from_u64_le_bytes(bytes: [u8; 8]) -> (res: Result<u64, BalanceError>)
    ensures
        res is Ok <==> u64_from_le(bytes@) <= MAX_MONEY,
        res matches Ok(v) ==> v == u64_from_le(bytes@),
{
    match Zatoshis::from_u64_le_bytes(bytes) {
        Ok(z) => Ok(z.into_u64()),
        Err(e) => Err(e),
    }
}

} // verus!
