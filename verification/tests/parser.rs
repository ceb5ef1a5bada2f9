use aurora_engine_migration_tool::account::AccountId;
use aurora_engine_migration_tool::parser::{
    apply_record, construct_contract_key, decode_totals, get_contract_key, get_statistic_key,
    is_account_prefix_key, key_type, parse, prefix_account_key, prefix_proof_key,
    EthConnectorStorageId, KeyType, ParseError,
};
use aurora_engine_migration_tool::{BlockData, FungibleToken, ResultData, ResultValues, StateData};

fn record(key: &[u8], value: &[u8]) -> ResultValues {
    ResultValues { key: base64::encode(key), value: base64::encode(value) }
}

fn export(values: Vec<ResultValues>) -> BlockData {
    BlockData { result: ResultData { block_height: 77, values } }
}

fn account_key(name: &str) -> Vec<u8> {
    let mut key = vec![7u8, 6, 1];
    key.extend_from_slice(name.as_bytes());
    key
}

fn proof_key(name: &str) -> Vec<u8> {
    let mut key = vec![7u8, 6, 2];
    key.extend_from_slice(name.as_bytes());
    key
}

fn totals_bytes(near: u128, aurora: u128, usage: u64) -> Vec<u8> {
    let mut bytes = near.to_le_bytes().to_vec();
    bytes.extend_from_slice(&aurora.to_le_bytes());
    bytes.extend_from_slice(&usage.to_le_bytes());
    bytes
}

fn id(name: &str) -> AccountId {
    AccountId::parse(name).unwrap()
}

#[test]
fn storage_keys_have_version_connector_and_part() {
    assert_eq!(prefix_account_key(), vec![7u8, 6, 1]);
    assert_eq!(get_contract_key(), vec![7u8, 6, 1]);
    assert_eq!(prefix_proof_key(), vec![7u8, 6, 2]);
    assert_eq!(get_statistic_key(), vec![7u8, 6, 4]);
    assert_eq!(construct_contract_key(EthConnectorStorageId::Contract), vec![7u8, 6, 0]);
    assert_eq!(construct_contract_key(EthConnectorStorageId::PausedMask), vec![7u8, 6, 3]);
    assert_eq!(
        construct_contract_key(EthConnectorStorageId::FungibleTokenMetadata),
        vec![7u8, 6, 5]
    );
}

#[test]
fn keys_are_told_apart_by_prefix() {
    assert_eq!(key_type(&account_key("alice.near")), KeyType::Accounts(b"alice.near".to_vec()));
    assert_eq!(key_type(&[7, 6, 1]), KeyType::Contract);
    assert_eq!(key_type(&proof_key("proof-a")), KeyType::Proof(b"proof-a".to_vec()));
    assert_eq!(key_type(&[7, 6, 2]), KeyType::Unknown);
    assert_eq!(key_type(&[7, 6, 4]), KeyType::AccountsCounter);
    assert_eq!(key_type(&[7, 6, 4, 0]), KeyType::Unknown);
    assert_eq!(key_type(&[7, 6]), KeyType::Unknown);
    assert_eq!(key_type(&[]), KeyType::Unknown);
    assert_eq!(key_type(&[6, 6, 1, 97]), KeyType::Unknown);
    assert_eq!(key_type(&[7, 6, 3, 97]), KeyType::Unknown);
}

#[test]
fn account_prefix_needs_a_name_behind_it() {
    assert!(is_account_prefix_key(&account_key("a")));
    assert!(!is_account_prefix_key(&[7, 6, 1]));
    assert!(!is_account_prefix_key(&[7, 6]));
    assert!(!is_account_prefix_key(&[7, 6, 2, 97]));
    assert!(!is_account_prefix_key(&[]));
}

#[test]
fn totals_are_a_record_of_forty_bytes() {
    let bytes = totals_bytes(1_000, 2_000, 33);
    assert_eq!(
        decode_totals(&bytes),
        Some(FungibleToken {
            total_eth_supply_on_near: 1_000,
            total_eth_supply_on_aurora: 2_000,
            account_storage_usage: 33,
        })
    );
    assert_eq!(decode_totals(&bytes[..39]), None);
    let mut longer = bytes.clone();
    longer.push(0);
    assert_eq!(decode_totals(&longer), None);
    let big = totals_bytes(u128::MAX, 1 << 100, u64::MAX);
    assert_eq!(
        decode_totals(&big),
        Some(FungibleToken {
            total_eth_supply_on_near: u128::MAX,
            total_eth_supply_on_aurora: 1 << 100,
            account_storage_usage: u64::MAX,
        })
    );
}

#[test]
fn export_is_decoded_into_the_ledger() {
    let data = export(vec![
        record(&account_key("alice.near"), &10u128.to_le_bytes()),
        record(&[1, 2, 3], b"ignored"),
        record(&[7, 6, 1], &totals_bytes(60, 5, 900)),
        record(&account_key("bob.near"), &20u128.to_le_bytes()),
        record(&proof_key("proof-1"), &[1]),
        record(&[7, 6, 4], &3u64.to_le_bytes()),
        record(&account_key("carol.near"), &30u128.to_le_bytes()),
    ]);
    let state = parse(&data).unwrap();
    assert_eq!(state.accounts.len(), 3);
    assert_eq!(state.accounts_counter, 3);
    assert_eq!(state.accounts.get(&id("alice.near")), Some(10));
    assert_eq!(state.accounts.get(&id("bob.near")), Some(20));
    assert_eq!(state.accounts.get(&id("carol.near")), Some(30));
    assert_eq!(state.accounts.get(&id("dave.near")), None);
    assert_eq!(state.accounts.account_at(0).as_str(), "alice.near");
    assert_eq!(state.accounts.account_at(2).as_str(), "carol.near");
    assert_eq!(state.contract_data.total_eth_supply_on_near, 60);
    assert_eq!(state.contract_data.total_eth_supply_on_aurora, 5);
    assert_eq!(state.contract_data.account_storage_usage, 900);
    assert_eq!(state.proofs, vec!["proof-1".to_string()]);
}

#[test]
fn empty_export_is_an_empty_ledger() {
    let state = parse(&export(vec![])).unwrap();
    assert_eq!(state.accounts.len(), 0);
    assert_eq!(state.accounts_counter, 0);
    assert!(state.proofs.is_empty());
    assert_eq!(state.contract_data, FungibleToken::default());
}

#[test]
fn later_balance_of_an_account_replaces_the_earlier() {
    let data = export(vec![
        record(&account_key("alice.near"), &10u128.to_le_bytes()),
        record(&account_key("alice.near"), &11u128.to_le_bytes()),
        record(&[7, 6, 4], &1u64.to_le_bytes()),
    ]);
    let state = parse(&data).unwrap();
    assert_eq!(state.accounts.len(), 1);
    assert_eq!(state.accounts.get(&id("alice.near")), Some(11));
}

#[test]
fn counter_mismatch_is_refused() {
    let two_accounts = vec![
        record(&account_key("alice.near"), &10u128.to_le_bytes()),
        record(&account_key("bob.near"), &20u128.to_le_bytes()),
    ];
    let mut with_three = two_accounts.clone_values();
    with_three.push(record(&[7, 6, 4], &3u64.to_le_bytes()));
    assert_eq!(parse(&export(with_three)).err(), Some(ParseError::CounterMismatch));
    let mut with_one = two_accounts.clone_values();
    with_one.push(record(&[7, 6, 4], &1u64.to_le_bytes()));
    assert_eq!(parse(&export(with_one)).err(), Some(ParseError::CounterMismatch));
    assert_eq!(
        parse(&export(two_accounts.clone_values())).err(),
        Some(ParseError::CounterMismatch)
    );
    let mut with_two = two_accounts.clone_values();
    with_two.push(record(&[7, 6, 4], &2u64.to_le_bytes()));
    assert!(parse(&export(with_two)).is_ok());
    // The same input gives the same refusal again.
    let mut again = two_accounts.clone_values();
    again.push(record(&[7, 6, 4], &3u64.to_le_bytes()));
    assert_eq!(parse(&export(again)).err(), Some(ParseError::CounterMismatch));
}

trait CloneValues {
    fn clone_values(&self) -> Vec<ResultValues>;
}

impl CloneValues for Vec<ResultValues> {
    fn clone_values(&self) -> Vec<ResultValues> {
        self.iter().map(|v| ResultValues { key: v.key.clone(), value: v.value.clone() }).collect()
    }
}

#[test]
fn each_unreadable_record_has_its_error() {
    let bad_key = ResultValues { key: "***".to_string(), value: base64::encode([1u8]) };
    assert_eq!(parse(&export(vec![bad_key])).err(), Some(ParseError::KeyEncoding));

    let bad_value =
        ResultValues { key: base64::encode(account_key("alice.near")), value: "***".to_string() };
    assert_eq!(parse(&export(vec![bad_value])).err(), Some(ParseError::ValueEncoding));

    let not_text = record(&[7, 6, 1, 0xff, 0xfe], &10u128.to_le_bytes());
    assert_eq!(parse(&export(vec![not_text])).err(), Some(ParseError::AccountText));

    let short_balance = record(&account_key("alice.near"), &[1, 2, 3]);
    assert_eq!(parse(&export(vec![short_balance])).err(), Some(ParseError::BalanceLength));

    let long_balance = record(&account_key("alice.near"), &[0u8; 17]);
    assert_eq!(parse(&export(vec![long_balance])).err(), Some(ParseError::BalanceLength));

    let not_an_account = record(&account_key("Alice"), &10u128.to_le_bytes());
    assert_eq!(parse(&export(vec![not_an_account])).err(), Some(ParseError::AccountId));

    let bad_totals = record(&[7, 6, 1], &[0u8; 32]);
    assert_eq!(parse(&export(vec![bad_totals])).err(), Some(ParseError::ContractData));

    let bad_proof = record(&[7, 6, 2, 0xc0], &[]);
    assert_eq!(parse(&export(vec![bad_proof])).err(), Some(ParseError::ProofText));

    let short_counter = record(&[7, 6, 4], &[1, 0, 0, 0]);
    assert_eq!(parse(&export(vec![short_counter])).err(), Some(ParseError::CounterLength));

    let long_counter = record(&[7, 6, 4], &[0u8; 9]);
    assert_eq!(parse(&export(vec![long_counter])).err(), Some(ParseError::CounterLength));
}

#[test]
fn value_of_an_unknown_key_is_not_read() {
    let odd = ResultValues { key: base64::encode([9u8, 9, 9]), value: "***".to_string() };
    let used = ResultValues { key: base64::encode(proof_key("p")), value: "***".to_string() };
    let state = parse(&export(vec![odd, used])).unwrap();
    assert_eq!(state.proofs, vec!["p".to_string()]);
}

#[test]
fn first_error_of_an_export_wins() {
    let data = export(vec![
        record(&account_key("alice.near"), &[1]),
        ResultValues { key: "***".to_string(), value: String::new() },
    ]);
    assert_eq!(parse(&data).err(), Some(ParseError::BalanceLength));
}

#[test]
fn record_is_applied_to_the_ledger_given_its_decoded_value() {
    let mut state = StateData::default();
    let amount = 0x0102_0304_0506_0708_090a_0b0c_0d0e_0f10u128;
    assert_eq!(
        apply_record(
            &mut state,
            KeyType::Accounts(b"alice.near".to_vec()),
            Some(amount.to_le_bytes().to_vec())
        ),
        Ok(())
    );
    assert_eq!(state.accounts.get(&id("alice.near")), Some(amount));
    assert_eq!(
        apply_record(&mut state, KeyType::Accounts(b"bob.near".to_vec()), None),
        Err(ParseError::ValueEncoding)
    );
    assert_eq!(state.accounts.len(), 1);
    assert_eq!(
        apply_record(&mut state, KeyType::AccountsCounter, Some(258u64.to_le_bytes().to_vec())),
        Ok(())
    );
    assert_eq!(state.accounts_counter, 258);
    assert_eq!(apply_record(&mut state, KeyType::Proof(b"key".to_vec()), None), Ok(()));
    assert_eq!(state.proofs, vec!["key".to_string()]);
    assert_eq!(apply_record(&mut state, KeyType::Unknown, None), Ok(()));
    assert_eq!(
        apply_record(&mut state, KeyType::Contract, Some(vec![0u8; 41])),
        Err(ParseError::ContractData)
    );
    assert_eq!(apply_record(&mut state, KeyType::Contract, Some(totals_bytes(7, 8, 9))), Ok(()));
    assert_eq!(
        state.contract_data,
        FungibleToken {
            total_eth_supply_on_near: 7,
            total_eth_supply_on_aurora: 8,
            account_storage_usage: 9
        }
    );
}
