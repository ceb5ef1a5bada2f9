use aurora_engine_migration_tool::account::AccountId;
use aurora_engine_migration_tool::ledger::AccountMap;
use aurora_engine_migration_tool::migration::{MigrationCheckResult, MigrationInputData};
use aurora_engine_migration_tool::target::TargetLedger;

fn id(name: &str) -> AccountId {
    AccountId::parse(name).unwrap()
}

fn ledger(balances: &[(&str, u128)]) -> AccountMap {
    let mut map = AccountMap::new();
    for (name, amount) in balances {
        map.insert(id(name), *amount);
    }
    map
}

fn entries(map: &AccountMap) -> Vec<(String, u128)> {
    (0..map.len()).map(|i| (map.account_at(i).as_str().to_string(), map.amount_at(i))).collect()
}

fn accounts(balances: &[(&str, u128)]) -> MigrationInputData {
    MigrationInputData {
        accounts: ledger(balances),
        total_supply: None,
        account_storage_usage: None,
        used_proofs: vec![],
    }
}

fn proofs(list: &[&str]) -> MigrationInputData {
    MigrationInputData {
        accounts: AccountMap::new(),
        total_supply: None,
        account_storage_usage: None,
        used_proofs: list.iter().map(|p| p.to_string()).collect(),
    }
}

fn totals(supply: Option<u128>, usage: Option<u64>) -> MigrationInputData {
    MigrationInputData {
        accounts: AccountMap::new(),
        total_supply: supply,
        account_storage_usage: usage,
        used_proofs: vec![],
    }
}

#[test]
fn committed_payload_checks_as_success() {
    let mut target = TargetLedger::new();
    target.migrate(&accounts(&[("old.near", 1)]));
    for payload in [
        accounts(&[("alice.near", 10), ("bob.near", 20)]),
        proofs(&["proof-a", "proof-b", "proof-a"]),
        totals(Some(30), Some(4)),
        totals(None, None),
        accounts(&[("old.near", 2)]),
    ] {
        target.migrate(&payload);
        assert!(matches!(target.check_migration_correctness(&payload), MigrationCheckResult::Success));
    }
    assert_eq!(target.accounts.get(&id("old.near")), Some(2));
    assert_eq!(target.proofs.len(), 2);
    assert_eq!(target.total_supply, 30);
    assert_eq!(target.account_storage_usage, 4);
}

#[test]
fn account_that_was_never_committed_is_listed() {
    let mut target = TargetLedger::new();
    target.migrate(&accounts(&[("alice.near", 10), ("bob.near", 20)]));
    let payload = accounts(&[("alice.near", 10), ("mallory.near", 5), ("bob.near", 20)]);
    match target.check_migration_correctness(&payload) {
        MigrationCheckResult::AccountNotExist(missing) => assert_eq!(missing, vec![id("mallory.near")]),
        other => panic!("unexpected {other:?}"),
    }
    let two = accounts(&[("zed.near", 1), ("alice.near", 11), ("yan.near", 2)]);
    match target.check_migration_correctness(&two) {
        MigrationCheckResult::AccountNotExist(missing) => {
            assert_eq!(missing, vec![id("zed.near"), id("yan.near")]);
        }
        other => panic!("unexpected {other:?}"),
    }
}

#[test]
fn other_balance_is_reported_with_the_balance_held() {
    let mut target = TargetLedger::new();
    target.migrate(&accounts(&[("alice.near", 10), ("bob.near", 20), ("carol.near", 30)]));
    let payload = accounts(&[("alice.near", 10), ("bob.near", 21), ("carol.near", 0)]);
    match target.check_migration_correctness(&payload) {
        MigrationCheckResult::AccountAmount(different) => {
            assert_eq!(
                entries(&different),
                vec![("bob.near".to_string(), 20), ("carol.near".to_string(), 30)]
            );
        }
        other => panic!("unexpected {other:?}"),
    }
}

#[test]
fn missing_proofs_and_other_totals_are_reported() {
    let mut target = TargetLedger::new();
    target.migrate(&proofs(&["proof-a"]));
    target.migrate(&totals(Some(100), Some(8)));
    match target.check_migration_correctness(&proofs(&["proof-z", "proof-a", "proof-b"])) {
        MigrationCheckResult::Proof(missing) => {
            assert_eq!(missing, vec!["proof-z".to_string(), "proof-b".to_string()]);
        }
        other => panic!("unexpected {other:?}"),
    }
    assert!(matches!(
        target.check_migration_correctness(&totals(Some(100), Some(9))),
        MigrationCheckResult::StorageUsage(8)
    ));
    assert!(matches!(
        target.check_migration_correctness(&totals(Some(101), Some(8))),
        MigrationCheckResult::TotalSupply(100)
    ));
    assert!(matches!(
        target.check_migration_correctness(&totals(Some(101), None)),
        MigrationCheckResult::TotalSupply(100)
    ));
    assert!(matches!(
        target.check_migration_correctness(&totals(None, Some(8))),
        MigrationCheckResult::Success
    ));
    assert!(matches!(
        TargetLedger::new().check_migration_correctness(&totals(Some(0), Some(0))),
        MigrationCheckResult::Success
    ));
}
