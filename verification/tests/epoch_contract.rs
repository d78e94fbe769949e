use metapool::epoch_contract::TestContract;
use metapool::types::{ContractError, PromiseResult, TGAS};

fn started() -> TestContract {
    TestContract::new(false, 7).unwrap()
}

#[test]
fn starts_once() {
    let contract = started();
    assert_eq!(contract.get_message(), "init");
    assert_eq!(contract.saved_i32, 0);
    assert_eq!(contract.last_epoch, 7);
    assert_eq!(contract.owner_id, "dao2.pool.testnet");
    assert_eq!(TestContract::new(true, 7).unwrap_err(), ContractError::AlreadyInitialized);
}

#[test]
fn keeps_a_message_and_a_number() {
    let mut contract = started();
    contract.set_message("hello".to_string());
    contract.set_i32(-3);
    assert_eq!(contract.get_message(), "hello");
    assert_eq!(contract.saved_i32, -3);
}

#[test]
fn tells_version_epoch_and_block() {
    let contract = started();
    assert_eq!(contract.get_version(), "2.0.0 BLOCKCHAIN_INTERFACE");
    assert_eq!(contract.get_epoch_height(12), 12);
    assert_eq!(contract.get_block_index(34), 34);
}

#[test]
fn passes_the_largest_amount_to_the_callback() {
    let query = started().test_callbacks(&"me.testnet".to_string());
    assert_eq!(query.contract_id, "meta.pool.testnet");
    assert_eq!(query.account_id, "lucio.testnet");
    assert_eq!(query.query_gas, 10 * TGAS);
    assert_eq!(query.callback_id, "me.testnet");
    assert_eq!(query.callback_gas, 10 * TGAS);
    assert_eq!(query.big_amount, u128::MAX);
}

#[test]
fn hands_on_the_balance_to_itself_only() {
    let contract = started();
    let me = "me.testnet".to_string();
    let other = "you.testnet".to_string();
    let results = vec![PromiseResult::Successful(vec![])];
    let answer = contract
        .on_get_sp_total_balance(&me, &me, &results, u128::MAX, 5)
        .unwrap();
    assert_eq!(answer.balance, 5);
    assert_eq!(answer.big_amount, u128::MAX);
    assert_eq!(answer.big_amount_nears, 340_282_366_920_938);
    assert!(answer.is_promise_success);
    assert_eq!(
        contract.on_get_sp_total_balance(&other, &me, &results, 0, 5),
        Err(ContractError::NotACallback)
    );
    assert_eq!(
        contract.on_get_sp_total_balance(&me, &me, &vec![], 0, 5),
        Err(ContractError::NotOneResult)
    );
}

#[test]
fn upgrade_deploys_and_then_migrates() {
    let contract = started();
    let me = "me.testnet".to_string();
    let plan = contract
        .upgrade(&me, 200 * TGAS, 20 * TGAS, 60 * TGAS, Some(vec![1, 2, 3]))
        .unwrap();
    assert_eq!(plan.account_id, "me.testnet");
    assert_eq!(plan.code, vec![1, 2, 3]);
    assert_eq!(plan.method_name, "migrate");
    assert!(plan.arguments.is_empty());
    assert_eq!(plan.deposit, 0);
    // by what is used once the code is prepared
    assert_eq!(plan.gas, 130 * TGAS);
}

#[test]
fn upgrade_of_the_test_contract_is_refused_for_a_reason() {
    let contract = started();
    let me = "me.testnet".to_string();
    let refused = |prepaid: u64, used: u64, later: u64, code: Option<Vec<u8>>| {
        contract.upgrade(&me, prepaid * TGAS, used * TGAS, later * TGAS, code).unwrap_err()
    };
    assert_eq!(refused(150, 0, 0, Some(vec![1])), ContractError::NotEnoughGas);
    assert_eq!(refused(151, 152, 0, Some(vec![1])), ContractError::Overflow);
    assert_eq!(refused(200, 20, 191, Some(vec![1])), ContractError::Overflow);
    assert_eq!(refused(200, 20, 60, None), ContractError::MissingCode);
    assert_eq!(contract.start_upgrade(200 * TGAS, 20 * TGAS), Ok(()));
    assert_eq!(contract.start_upgrade(150 * TGAS, 0), Err(ContractError::NotEnoughGas));
    assert_eq!(contract.start_upgrade(151 * TGAS, 152 * TGAS), Err(ContractError::Overflow));
}
