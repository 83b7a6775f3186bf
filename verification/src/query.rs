use vstd::prelude::*;

use crate::error::ContractError;
use crate::msg::{GetCountResponse, GetStakeResponse};
use crate::state::{bal_of, Ledger};

verus! {

/// Read the global counter; fails with `NotInitialized` while the global
/// record does not exist.
pub fn count(ledger: &Ledger) -> (r: Result<GetCountResponse, ContractError>)
    ensures
        match r {
            Ok(resp) => ledger.is_initialized() && resp.count == ledger.counter(),
            Err(e) => !ledger.is_initialized() && e == ContractError::NotInitialized,
        },
{
    match &ledger.state {
        Some(st) => Ok(GetCountResponse { count: st.count }),
        None => Err(ContractError::NotInitialized),
    }
}

/// Read `address`'s staked balance, zero when no entry is present.
/// `address_is_valid` is the host's verdict on whether `address` is a
/// syntactically valid identity; on an invalid one the query fails with
/// `InvalidAddress`.
pub fn stake(ledger: &Ledger, address: String, address_is_valid: bool) -> (r: Result<
    GetStakeResponse,
    ContractError,
>)
    requires
        ledger.wf(),
    ensures
        match r {
            Ok(resp) => address_is_valid && resp.amount == bal_of(ledger.stakes@, address@),
            Err(e) => !address_is_valid && e == ContractError::InvalidAddress,
        },
{
    if !address_is_valid {
        return Err(ContractError::InvalidAddress);
    }
    let amount = ledger.stakes.get_stake(&address);
    Ok(GetStakeResponse { amount })
}

} // verus!
