use staking_contract::contract::{execute, instantiate, query};
use staking_contract::error::ContractError;
use staking_contract::msg::{
    Coin, Event, ExecuteMsg, InstantiateMsg, MessageInfo, QueryMsg, QueryResponse,
    TransferInstruction,
};
use staking_contract::state::Ledger;

fn info(sender: &str, funds: Vec<Coin>) -> MessageInfo {
    MessageInfo { sender: sender.to_string(), funds }
}

fn coins(amount: u128, denom: &str) -> Vec<Coin> {
    vec![Coin { denom: denom.to_string(), amount }]
}

fn get_stake(ledger: &Ledger, address: &str) -> u128 {
    let msg = QueryMsg::GetStake { address: address.to_string() };
    match query(ledger, msg, true).unwrap() {
        QueryResponse::Stake(resp) => resp.amount,
        _ => panic!("wrong response variant"),
    }
}

#[test]
fn instantiate_twice_should_fail() {
    let mut ledger = Ledger::new();
    instantiate(&mut ledger, info("creator", vec![]), InstantiateMsg { count: 3 }).unwrap();
    let err = instantiate(&mut ledger, info("creator", vec![]), InstantiateMsg { count: 9 })
        .unwrap_err();
    assert_eq!(err, ContractError::AlreadyInitialized);
    // the first initialization is untouched
    match query(&ledger, QueryMsg::GetCount {}, true).unwrap() {
        QueryResponse::Count(resp) => assert_eq!(resp.count, 3),
        _ => panic!("wrong response variant"),
    }
}

#[test]
fn increment_before_initialization_should_fail() {
    let mut ledger = Ledger::new();
    let err = execute(&mut ledger, info("anyone", vec![]), ExecuteMsg::Increment {}).unwrap_err();
    assert_eq!(err, ContractError::NotInitialized);
}

#[test]
fn reset_before_initialization_should_fail() {
    let mut ledger = Ledger::new();
    let err =
        execute(&mut ledger, info("anyone", vec![]), ExecuteMsg::Reset { count: 1 }).unwrap_err();
    assert_eq!(err, ContractError::NotInitialized);
}

#[test]
fn get_count_before_initialization_should_fail() {
    let ledger = Ledger::new();
    let err = query(&ledger, QueryMsg::GetCount {}, true).unwrap_err();
    assert_eq!(err, ContractError::NotInitialized);
}

#[test]
fn stake_zero_amount_should_fail() {
    let mut ledger = Ledger::new();
    instantiate(&mut ledger, info("creator", vec![]), InstantiateMsg { count: 0 }).unwrap();
    let err = execute(&mut ledger, info("staker1", coins(100, "token")), ExecuteMsg::Stake {
        amount: 0,
    })
    .unwrap_err();
    assert_eq!(err, ContractError::InvalidAmount);
    assert_eq!(get_stake(&ledger, "staker1"), 0);
}

#[test]
fn stake_with_short_funds_should_fail() {
    let mut ledger = Ledger::new();
    instantiate(&mut ledger, info("creator", vec![]), InstantiateMsg { count: 0 }).unwrap();
    let err = execute(&mut ledger, info("staker1", coins(499, "token")), ExecuteMsg::Stake {
        amount: 500,
    })
    .unwrap_err();
    assert_eq!(err, ContractError::InsufficientFunds);
    assert_eq!(get_stake(&ledger, "staker1"), 0);
}

#[test]
fn stake_keeps_only_declared_amount() {
    let mut ledger = Ledger::new();
    instantiate(&mut ledger, info("creator", vec![]), InstantiateMsg { count: 0 }).unwrap();
    // attached funds exceed the declared amount; only the declared amount is recorded
    execute(&mut ledger, info("staker1", coins(600, "token")), ExecuteMsg::Stake { amount: 500 })
        .unwrap();
    assert_eq!(get_stake(&ledger, "staker1"), 500);
}

#[test]
fn stake_accumulates() {
    let mut ledger = Ledger::new();
    instantiate(&mut ledger, info("creator", vec![]), InstantiateMsg { count: 0 }).unwrap();
    execute(&mut ledger, info("staker1", coins(500, "token")), ExecuteMsg::Stake { amount: 500 })
        .unwrap();
    execute(&mut ledger, info("staker1", coins(250, "token")), ExecuteMsg::Stake { amount: 250 })
        .unwrap();
    assert_eq!(get_stake(&ledger, "staker1"), 750);
}

#[test]
fn stake_event_names_the_staker() {
    let mut ledger = Ledger::new();
    instantiate(&mut ledger, info("creator", vec![]), InstantiateMsg { count: 0 }).unwrap();
    let res = execute(&mut ledger, info("staker1", coins(500, "token")), ExecuteMsg::Stake {
        amount: 500,
    })
    .unwrap();
    assert_eq!(
        res.event,
        Some(Event::Stake { staker: "staker1".to_string(), amount: 500 })
    );
    assert!(res.transfer.is_none());
}

#[test]
fn unstake_authorizes_a_transfer_back() {
    let mut ledger = Ledger::new();
    instantiate(&mut ledger, info("creator", vec![]), InstantiateMsg { count: 0 }).unwrap();
    execute(&mut ledger, info("staker1", coins(500, "token")), ExecuteMsg::Stake { amount: 500 })
        .unwrap();
    let res = execute(&mut ledger, info("staker1", vec![]), ExecuteMsg::Unstake { amount: 300 })
        .unwrap();
    assert_eq!(
        res.event,
        Some(Event::Unstake { staker: "staker1".to_string(), amount: 300 })
    );
    assert_eq!(
        res.transfer,
        Some(TransferInstruction {
            to_address: "staker1".to_string(),
            denom: "token".to_string(),
            amount: 300,
        })
    );
}

#[test]
fn stake_and_unstake_across_accounts_conserve_totals() {
    let mut ledger = Ledger::new();
    instantiate(&mut ledger, info("creator", vec![]), InstantiateMsg { count: 0 }).unwrap();
    execute(&mut ledger, info("alice", coins(100, "token")), ExecuteMsg::Stake { amount: 100 })
        .unwrap();
    execute(&mut ledger, info("bob", coins(200, "token")), ExecuteMsg::Stake { amount: 200 })
        .unwrap();
    execute(&mut ledger, info("alice", vec![]), ExecuteMsg::Unstake { amount: 50 }).unwrap();
    // staked 300, unstaked 50: the balances add up to 250
    assert_eq!(get_stake(&ledger, "alice"), 50);
    assert_eq!(get_stake(&ledger, "bob"), 200);
    assert_eq!(get_stake(&ledger, "alice") + get_stake(&ledger, "bob"), 250);
}

#[test]
fn unstake_zero_with_no_entry_creates_none() {
    let mut ledger = Ledger::new();
    instantiate(&mut ledger, info("creator", vec![]), InstantiateMsg { count: 0 }).unwrap();
    let res = execute(&mut ledger, info("staker1", vec![]), ExecuteMsg::Unstake { amount: 0 })
        .unwrap();
    assert_eq!(get_stake(&ledger, "staker1"), 0);
    assert_eq!(
        res.transfer,
        Some(TransferInstruction {
            to_address: "staker1".to_string(),
            denom: "token".to_string(),
            amount: 0,
        })
    );
}

#[test]
fn get_stake_of_invalid_address_should_fail() {
    let ledger = Ledger::new();
    let msg = QueryMsg::GetStake { address: "not an address".to_string() };
    let err = query(&ledger, msg, false).unwrap_err();
    assert_eq!(err, ContractError::InvalidAddress);
}

#[test]
fn get_stake_of_unknown_account_is_zero() {
    let mut ledger = Ledger::new();
    instantiate(&mut ledger, info("creator", vec![]), InstantiateMsg { count: 0 }).unwrap();
    assert_eq!(get_stake(&ledger, "nobody"), 0);
}

#[test]
fn full_stake_unstake_round_trip() {
    let mut ledger = Ledger::new();
    instantiate(&mut ledger, info("creator", vec![]), InstantiateMsg { count: 0 }).unwrap();
    execute(&mut ledger, info("staker1", coins(500, "token")), ExecuteMsg::Stake { amount: 500 })
        .unwrap();
    assert_eq!(get_stake(&ledger, "staker1"), 500);
    let res = execute(&mut ledger, info("staker1", vec![]), ExecuteMsg::Unstake { amount: 300 })
        .unwrap();
    assert_eq!(get_stake(&ledger, "staker1"), 200);
    assert_eq!(
        res.transfer,
        Some(TransferInstruction {
            to_address: "staker1".to_string(),
            denom: "token".to_string(),
            amount: 300,
        })
    );
    execute(&mut ledger, info("staker1", vec![]), ExecuteMsg::Unstake { amount: 200 }).unwrap();
    assert_eq!(get_stake(&ledger, "staker1"), 0);
}
