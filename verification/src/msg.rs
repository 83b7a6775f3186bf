use vstd::prelude::*;

verus! {

/// Request to create the global record.
#[derive(Debug, Clone, PartialEq, Eq)]
pub struct InstantiateMsg {
    pub count: i32,
}

/// The mutation operations.
#[derive(Debug, Clone, PartialEq, Eq)]
pub enum ExecuteMsg {
    Increment {},
    Reset { count: i32 },
    Stake { amount: u128 },
    Unstake { amount: u128 },
}

/// The read-only queries.
#[derive(Debug, Clone, PartialEq, Eq)]
pub enum QueryMsg {
    GetCount {},
    GetStake { address: String },
}

/// Answer to `QueryMsg::GetCount`.
#[derive(Debug, Clone, PartialEq, Eq)]
pub struct GetCountResponse {
    pub count: i32,
}

/// Answer to `QueryMsg::GetStake`.
#[derive(Debug, Clone, PartialEq, Eq)]
pub struct GetStakeResponse {
    pub amount: u128,
}

/// Answer to a `QueryMsg`, one variant per query.
#[derive(Debug, Clone, PartialEq, Eq)]
pub enum QueryResponse {
    Count(GetCountResponse),
    Stake(GetStakeResponse),
}

/// One unit of attached funds: an amount of a named token.
#[derive(Debug, Clone, PartialEq, Eq)]
pub struct Coin {
    pub denom: String,
    pub amount: u128,
}

/// The authenticated context of one operation: who calls, and what funds the
/// host deposited alongside the call.
#[derive(Debug, Clone, PartialEq, Eq)]
pub struct MessageInfo {
    pub sender: String,
    pub funds: Vec<Coin>,
}

/// The event a successful mutation logs.
#[derive(Debug, Clone, PartialEq, Eq)]
pub enum Event {
    Increment,
    Reset,
    Stake { staker: String, amount: u128 },
    Unstake { staker: String, amount: u128 },
}

/// A directive handed to the host for settlement: release `amount` of `denom`
/// to `to_address`. The ledger authorizes the transfer; it does not settle it.
#[derive(Debug, Clone, PartialEq, Eq)]
pub struct TransferInstruction {
    pub to_address: String,
    pub denom: String,
    pub amount: u128,
}

/// What a successful operation reports back to the host.
#[derive(Debug, Clone, PartialEq, Eq)]
pub struct Response {
    pub event: Option<Event>,
    pub transfer: Option<TransferInstruction>,
}

/// The attached funds cover a declared stake amount: they are non-empty and
/// their first entry carries at least that amount.
pub open spec fn funds_cover(funds: Seq<Coin>, amount: u128) -> bool {
    funds.len() > 0 && funds[0].amount >= amount
}

} // verus!
