use vstd::prelude::*;
use vstd::string::StringExecFns;

use crate::error::ContractError;
use crate::msg::{funds_cover, Coin, Event, MessageInfo, Response, TransferInstruction};
use crate::state::{
    apply_call, bal_of, stake_transition, unstake_transition, Ledger, LedgerCall,
};

verus! {

/// The counter has room to grow by one.
pub open spec fn increment_allowed(pre: Ledger) -> bool {
    pre.is_initialized() ==> pre.counter() < i32::MAX
}

/// What an increment does: with the ledger initialized it bumps the counter by
/// one, touches nothing else and logs an increment event; otherwise it fails
/// with `NotInitialized` and changes nothing.
pub open spec fn increment_post(pre: Ledger, post: Ledger, r: Result<
    Response,
    ContractError,
>) -> bool {
    match r {
        Ok(resp) => {
            &&& pre.is_initialized()
            &&& post.is_initialized()
            &&& post.counter() == pre.counter() + 1
            &&& post.owner_id() == pre.owner_id()
            &&& post.stakes == pre.stakes
            &&& resp.event == Some(Event::Increment)
            &&& resp.transfer is None
        },
        Err(e) => {
            &&& !pre.is_initialized()
            &&& e == ContractError::NotInitialized
            &&& post == pre
        },
    }
}

/// Add one to the global counter. Any caller may do this.
pub fn increment(ledger: &mut Ledger) -> (r: Result<Response, ContractError>)
    requires
        old(ledger).wf(),
        increment_allowed(*old(ledger)),
    ensures
        final(ledger).wf(),
        increment_post(*old(ledger), *final(ledger), r),
{
    match &mut ledger.state {
        Some(st) => {
            st.count = st.count + 1;
            Ok(Response { event: Some(Event::Increment), transfer: None })
        },
        None => Err(ContractError::NotInitialized),
    }
}

/// What a reset does: the owner sets the counter to `count` and a reset event
/// is logged; a non-owner fails with `Unauthorized`; an uninitialized ledger
/// fails with `NotInitialized`. Failures change nothing.
pub open spec fn reset_post(
    pre: Ledger,
    post: Ledger,
    sender: Seq<char>,
    count: i32,
    r: Result<Response, ContractError>,
) -> bool {
    match r {
        Ok(resp) => {
            &&& pre.is_initialized()
            &&& sender == pre.owner_id()
            &&& post.is_initialized()
            &&& post.counter() == count
            &&& post.owner_id() == pre.owner_id()
            &&& post.stakes == pre.stakes
            &&& resp.event == Some(Event::Reset)
            &&& resp.transfer is None
        },
        Err(e) => {
            &&& post == pre
            &&& if !pre.is_initialized() {
                e == ContractError::NotInitialized
            } else {
                sender != pre.owner_id() && e == ContractError::Unauthorized
            }
        },
    }
}

/// Set the global counter to `count`. Only the owner may do this.
pub fn reset(ledger: &mut Ledger, info: MessageInfo, count: i32) -> (r: Result<
    Response,
    ContractError,
>)
    requires
        old(ledger).wf(),
    ensures
        final(ledger).wf(),
        reset_post(*old(ledger), *final(ledger), info.sender@, count, r),
{
    match &mut ledger.state {
        Some(st) => {
            if info.sender == st.owner {
                st.count = count;
                Ok(Response { event: Some(Event::Reset), transfer: None })
            } else {
                Err(ContractError::Unauthorized)
            }
        },
        None => Err(ContractError::NotInitialized),
    }
}

/// The staker's balance has room for `amount` more.
pub open spec fn stake_allowed(pre: Ledger, sender: Seq<char>, amount: u128) -> bool {
    bal_of(pre.stakes@, sender) + amount <= u128::MAX
}

/// What a stake does: with covering funds attached and a positive amount
/// declared, the sender's balance grows by the declared amount (any excess
/// attached is retained, not reconciled) and a stake event is logged; funds
/// that do not cover the amount fail with `InsufficientFunds`, and a zero
/// amount fails with `InvalidAmount`, checked in that order. Failures change
/// nothing.
pub open spec fn stake_post(
    pre: Ledger,
    post: Ledger,
    sender: Seq<char>,
    funds: Seq<Coin>,
    amount: u128,
    r: Result<Response, ContractError>,
) -> bool {
    match r {
        Ok(resp) => {
            &&& funds_cover(funds, amount)
            &&& amount > 0
            &&& post.state == pre.state
            &&& post.stakes@ == stake_transition(pre.stakes@, sender, amount)
            &&& bal_of(post.stakes@, sender) == bal_of(pre.stakes@, sender) + amount
            &&& post.total_staked() == pre.total_staked() + amount
            &&& resp.event matches Some(Event::Stake { staker, amount: a }) && staker@ == sender
                && a == amount
            &&& resp.transfer is None
        },
        Err(e) => {
            &&& post == pre
            &&& if !funds_cover(funds, amount) {
                e == ContractError::InsufficientFunds
            } else {
                amount == 0 && e == ContractError::InvalidAmount
            }
        },
    }
}

/// Record `amount` more staked tokens for the sender, against the funds the
/// host deposited alongside the call.
pub fn stake(ledger: &mut Ledger, info: MessageInfo, amount: u128) -> (r: Result<
    Response,
    ContractError,
>)
    requires
        old(ledger).wf(),
        stake_allowed(*old(ledger), info.sender@, amount),
    ensures
        final(ledger).wf(),
        stake_post(*old(ledger), *final(ledger), info.sender@, info.funds@, amount, r),
        final(ledger).stakes@ == apply_call(
            old(ledger).stakes@,
            LedgerCall::Stake { staker: info.sender@, funds: info.funds@, amount },
        ),
{
    if info.funds.is_empty() || info.funds[0].amount < amount {
        return Err(ContractError::InsufficientFunds);
    }
    if amount == 0 {
        return Err(ContractError::InvalidAmount);
    }
    let current = ledger.stakes.get_stake(&info.sender);
    ledger.stakes.set_stake(&info.sender, current + amount);
    Ok(Response { event: Some(Event::Stake { staker: info.sender, amount }), transfer: None })
}

/// What an unstake does: with `amount` at most the sender's current balance,
/// the balance shrinks by `amount` (the entry is removed when it reaches
/// zero), an unstake event is logged and one transfer of `amount` of the
/// ledger's token denomination back to the sender is authorized; a larger
/// amount fails with `InsufficientBalance` and changes nothing.
pub open spec fn unstake_post(
    pre: Ledger,
    post: Ledger,
    sender: Seq<char>,
    amount: u128,
    r: Result<Response, ContractError>,
) -> bool {
    let current = bal_of(pre.stakes@, sender);
    match r {
        Ok(resp) => {
            &&& amount <= current
            &&& post.state == pre.state
            &&& post.stakes@ == unstake_transition(pre.stakes@, sender, amount)
            &&& bal_of(post.stakes@, sender) == current - amount
            &&& (amount == current ==> !post.stakes@.contains_key(sender))
            &&& post.total_staked() == pre.total_staked() - amount
            &&& resp.event matches Some(Event::Unstake { staker, amount: a }) && staker@ == sender
                && a == amount
            &&& resp.transfer matches Some(t) && t.to_address@ == sender && t.denom@ == "token"@
                && t.amount == amount
        },
        Err(e) => {
            &&& amount > current
            &&& e == ContractError::InsufficientBalance
            &&& post == pre
        },
    }
}

/// Release `amount` of the sender's staked tokens: shrink the recorded balance
/// and authorize the transfer back to the sender.
pub fn unstake(ledger: &mut Ledger, info: MessageInfo, amount: u128) -> (r: Result<
    Response,
    ContractError,
>)
    requires
        old(ledger).wf(),
    ensures
        final(ledger).wf(),
        unstake_post(*old(ledger), *final(ledger), info.sender@, amount, r),
        final(ledger).stakes@ == apply_call(
            old(ledger).stakes@,
            LedgerCall::Unstake { staker: info.sender@, amount },
        ),
{
    let current = ledger.stakes.get_stake(&info.sender);
    if amount > current {
        return Err(ContractError::InsufficientBalance);
    }
    let new_balance = current - amount;
    ledger.stakes.set_stake(&info.sender, new_balance);
    let transfer = TransferInstruction {
        to_address: info.sender.clone(),
        denom: String::from_str("token"),
        amount,
    };
    Ok(
        Response {
            event: Some(Event::Unstake { staker: info.sender, amount }),
            transfer: Some(transfer),
        },
    )
}

} // verus!
