use vstd::prelude::*;

use crate::error::ContractError;
use crate::execute::{reset_post, stake_post, unstake_post};
use crate::msg::{funds_cover, Coin, Response};
use crate::state::{
    apply_call, bal_of, call_accepted, call_delta, lemma_map_sum_insert, lemma_map_sum_nonneg,
    lemma_map_sum_remove, map_sum, Ledger, LedgerCall,
};

verus! {

/// The mapping after a whole run of attempted calls, applied first to last.
pub open spec fn run_calls(m: Map<Seq<char>, u128>, cs: Seq<LedgerCall>) -> Map<Seq<char>, u128>
    decreases cs.len(),
{
    if cs.len() == 0 {
        m
    } else {
        run_calls(apply_call(m, cs[0]), cs.subrange(1, cs.len() as int))
    }
}

/// Total staked minus total unstaked over a run, counting accepted calls only.
pub open spec fn net_flow(m: Map<Seq<char>, u128>, cs: Seq<LedgerCall>) -> int
    decreases cs.len(),
{
    if cs.len() == 0 {
        0
    } else {
        call_delta(m, cs[0]) + net_flow(apply_call(m, cs[0]), cs.subrange(1, cs.len() as int))
    }
}

/// One attempted call moves the sum of all balances by exactly its delta:
/// an accepted stake adds its amount, an accepted unstake subtracts it, and a
/// rejected call adds nothing.
pub proof fn lemma_apply_call_sum(m: Map<Seq<char>, u128>, c: LedgerCall)
    requires
        m.dom().finite(),
    ensures
        apply_call(m, c).dom().finite(),
        map_sum(apply_call(m, c)) == map_sum(m) + call_delta(m, c),
{
    if call_accepted(m, c) {
        match c {
            LedgerCall::Stake { staker, amount, .. } => {
                lemma_map_sum_insert(m, staker, (bal_of(m, staker) + amount) as u128);
            },
            LedgerCall::Unstake { staker, amount } => {
                if bal_of(m, staker) == amount {
                    if m.contains_key(staker) {
                        lemma_map_sum_remove(m, staker);
                    } else {
                        assert(m.remove(staker) =~= m);
                    }
                } else {
                    lemma_map_sum_insert(m, staker, (bal_of(m, staker) - amount) as u128);
                }
            },
        }
    }
}

/// Conservation: over any run of stake and unstake attempts, the sum of all
/// recorded balances changes by exactly the total staked minus the total
/// unstaked among the accepted calls.
pub proof fn lemma_conservation(m: Map<Seq<char>, u128>, cs: Seq<LedgerCall>)
    requires
        m.dom().finite(),
    ensures
        run_calls(m, cs).dom().finite(),
        map_sum(run_calls(m, cs)) == map_sum(m) + net_flow(m, cs),
    decreases cs.len(),
{
    if cs.len() == 0 {
    } else {
        lemma_apply_call_sum(m, cs[0]);
        lemma_conservation(apply_call(m, cs[0]), cs.subrange(1, cs.len() as int));
    }
}

/// From an empty ledger, any sequence of stake and unstake attempts by any set
/// of accounts leaves the sum of all balances equal to total staked minus
/// total unstaked, and that sum never goes negative.
pub proof fn lemma_conservation_from_empty(cs: Seq<LedgerCall>)
    ensures
        map_sum(run_calls(Map::<Seq<char>, u128>::empty(), cs)) == net_flow(
            Map::<Seq<char>, u128>::empty(),
            cs,
        ),
        net_flow(Map::<Seq<char>, u128>::empty(), cs) >= 0,
{
    let m0 = Map::<Seq<char>, u128>::empty();
    assert(m0.dom() =~= Set::<Seq<char>>::empty());
    lemma_conservation(m0, cs);
    lemma_map_sum_nonneg(run_calls(m0, cs));
}

/// Unstaking more than the current balance always fails with
/// `InsufficientBalance` and leaves the ledger unchanged.
pub proof fn lemma_unstake_over_balance_fails(
    pre: Ledger,
    post: Ledger,
    sender: Seq<char>,
    amount: u128,
    r: Result<Response, ContractError>,
)
    requires
        unstake_post(pre, post, sender, amount, r),
        amount > bal_of(pre.stakes@, sender),
    ensures
        r == Err::<Response, ContractError>(ContractError::InsufficientBalance),
        post == pre,
{
}

/// Staking with attached funds that do not cover the declared amount always
/// fails with `InsufficientFunds` and creates no entry: the ledger is left
/// unchanged.
pub proof fn lemma_stake_underfunded_fails(
    pre: Ledger,
    post: Ledger,
    sender: Seq<char>,
    funds: Seq<Coin>,
    amount: u128,
    r: Result<Response, ContractError>,
)
    requires
        stake_post(pre, post, sender, funds, amount, r),
        !funds_cover(funds, amount),
    ensures
        r == Err::<Response, ContractError>(ContractError::InsufficientFunds),
        post == pre,
{
}

/// After unstaking exactly the full balance, the account's entry is absent —
/// its queried balance reads zero — rather than present with a zero balance.
pub proof fn lemma_unstake_full_balance_removes(
    pre: Ledger,
    post: Ledger,
    sender: Seq<char>,
    amount: u128,
    r: Result<Response, ContractError>,
)
    requires
        unstake_post(pre, post, sender, amount, r),
        r is Ok,
        amount == bal_of(pre.stakes@, sender),
    ensures
        !post.stakes@.contains_key(sender),
        bal_of(post.stakes@, sender) == 0,
{
}

/// Reset by a non-owner always fails with `Unauthorized` and leaves the
/// counter (and everything else) unchanged.
pub proof fn lemma_reset_by_non_owner_fails(
    pre: Ledger,
    post: Ledger,
    sender: Seq<char>,
    count: i32,
    r: Result<Response, ContractError>,
)
    requires
        reset_post(pre, post, sender, count, r),
        pre.is_initialized(),
        sender != pre.owner_id(),
    ensures
        r == Err::<Response, ContractError>(ContractError::Unauthorized),
        post == pre,
        post.counter() == pre.counter(),
{
}

/// Reset by the owner always succeeds and sets the counter to the requested
/// value, changing nothing else.
pub proof fn lemma_reset_by_owner_succeeds(
    pre: Ledger,
    post: Ledger,
    sender: Seq<char>,
    count: i32,
    r: Result<Response, ContractError>,
)
    requires
        reset_post(pre, post, sender, count, r),
        pre.is_initialized(),
        sender == pre.owner_id(),
    ensures
        r is Ok,
        post.counter() == count,
        post.owner_id() == pre.owner_id(),
        post.stakes == pre.stakes,
{
}

} // verus!
