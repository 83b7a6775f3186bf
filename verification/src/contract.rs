use vstd::prelude::*;

use crate::error::ContractError;
use crate::msg::{
    ExecuteMsg, InstantiateMsg, MessageInfo, QueryMsg, QueryResponse, Response,
};
use crate::state::{bal_of, Ledger, State};

verus! {

/// What initialization does: on a ledger with no global record it creates one
/// with the given counter and the sender as owner; on an initialized ledger it
/// fails with `AlreadyInitialized` and changes nothing. The stake mapping is
/// untouched either way.
pub open spec fn instantiate_post(
    pre: Ledger,
    post: Ledger,
    sender: Seq<char>,
    count: i32,
    r: Result<Response, ContractError>,
) -> bool {
    match r {
        Ok(resp) => {
            &&& !pre.is_initialized()
            &&& post.is_initialized()
            &&& post.counter() == count
            &&& post.owner_id() == sender
            &&& post.stakes == pre.stakes
            &&& resp.event is None
            &&& resp.transfer is None
        },
        Err(e) => {
            &&& pre.is_initialized()
            &&& e == ContractError::AlreadyInitialized
            &&& post == pre
        },
    }
}

/// Create the global record, with the caller as owner.
pub fn instantiate(ledger: &mut Ledger, info: MessageInfo, msg: InstantiateMsg) -> (r: Result<
    Response,
    ContractError,
>)
    requires
        old(ledger).wf(),
    ensures
        final(ledger).wf(),
        instantiate_post(*old(ledger), *final(ledger), info.sender@, msg.count, r),
{
    if ledger.state.is_some() {
        return Err(ContractError::AlreadyInitialized);
    }
    ledger.state = Some(State { count: msg.count, owner: info.sender });
    Ok(Response { event: None, transfer: None })
}

/// The machine-limit room the operation named by `msg` needs.
pub open spec fn execute_allowed(pre: Ledger, info: MessageInfo, msg: ExecuteMsg) -> bool {
    match msg {
        ExecuteMsg::Increment {  } => crate::execute::increment_allowed(pre),
        ExecuteMsg::Reset { .. } => true,
        ExecuteMsg::Stake { amount } => crate::execute::stake_allowed(pre, info.sender@, amount),
        ExecuteMsg::Unstake { .. } => true,
    }
}

/// What dispatching `msg` does: exactly what the named operation does.
pub open spec fn execute_post(
    pre: Ledger,
    post: Ledger,
    info: MessageInfo,
    msg: ExecuteMsg,
    r: Result<Response, ContractError>,
) -> bool {
    match msg {
        ExecuteMsg::Increment {  } => crate::execute::increment_post(pre, post, r),
        ExecuteMsg::Reset { count } => crate::execute::reset_post(
            pre,
            post,
            info.sender@,
            count,
            r,
        ),
        ExecuteMsg::Stake { amount } => crate::execute::stake_post(
            pre,
            post,
            info.sender@,
            info.funds@,
            amount,
            r,
        ),
        ExecuteMsg::Unstake { amount } => crate::execute::unstake_post(
            pre,
            post,
            info.sender@,
            amount,
            r,
        ),
    }
}

/// Apply one mutation operation to the ledger.
pub fn execute(ledger: &mut Ledger, info: MessageInfo, msg: ExecuteMsg) -> (r: Result<
    Response,
    ContractError,
>)
    requires
        old(ledger).wf(),
        execute_allowed(*old(ledger), info, msg),
    ensures
        final(ledger).wf(),
        execute_post(*old(ledger), *final(ledger), info, msg, r),
{
    match msg {
        ExecuteMsg::Increment {  } => crate::execute::increment(ledger),
        ExecuteMsg::Reset { count } => crate::execute::reset(ledger, info, count),
        ExecuteMsg::Stake { amount } => crate::execute::stake(ledger, info, amount),
        ExecuteMsg::Unstake { amount } => crate::execute::unstake(ledger, info, amount),
    }
}

/// What answering `msg` returns: the counter for `GetCount` (failing with
/// `NotInitialized` on an uninitialized ledger), and the queried account's
/// balance for `GetStake` (failing with `InvalidAddress` when the host judged
/// the address invalid).
pub open spec fn query_post(
    l: Ledger,
    msg: QueryMsg,
    address_is_valid: bool,
    r: Result<QueryResponse, ContractError>,
) -> bool {
    match msg {
        QueryMsg::GetCount {  } => match r {
            Ok(QueryResponse::Count(resp)) => l.is_initialized() && resp.count == l.counter(),
            Ok(_) => false,
            Err(e) => !l.is_initialized() && e == ContractError::NotInitialized,
        },
        QueryMsg::GetStake { address } => match r {
            Ok(QueryResponse::Stake(resp)) => address_is_valid && resp.amount == bal_of(
                l.stakes@,
                address@,
            ),
            Ok(_) => false,
            Err(e) => !address_is_valid && e == ContractError::InvalidAddress,
        },
    }
}

/// Answer one read-only query. `address_is_valid` is the host's verdict on the
/// queried address for `GetStake`; it is ignored for `GetCount`.
pub fn query(ledger: &Ledger, msg: QueryMsg, address_is_valid: bool) -> (r: Result<
    QueryResponse,
    ContractError,
>)
    requires
        ledger.wf(),
    ensures
        query_post(*ledger, msg, address_is_valid, r),
{
    match msg {
        QueryMsg::GetCount {  } => match crate::query::count(ledger) {
            Ok(resp) => Ok(QueryResponse::Count(resp)),
            Err(e) => Err(e),
        },
        QueryMsg::GetStake { address } => match crate::query::stake(
            ledger,
            address,
            address_is_valid,
        ) {
            Ok(resp) => Ok(QueryResponse::Stake(resp)),
            Err(e) => Err(e),
        },
    }
}

} // verus!
