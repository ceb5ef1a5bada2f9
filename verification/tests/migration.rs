use aurora_engine_migration_tool::account::AccountId;
use aurora_engine_migration_tool::indexer::IndexerData;
use aurora_engine_migration_tool::ledger::AccountMap;
use aurora_engine_migration_tool::migration::{
    account_batches, accounts_from, plan_batches, proof_batches, Migration, MigrationAction,
    MigrationBatch, MigrationCheckResult, MigrationError, MigrationEvent, MigrationInputData,
    MigrationRun, Phase, PrepareError, MIGRATION_CHECK_METHOD, MIGRATION_METHOD,
    RECORDS_COUNT_PER_TX,
};
use aurora_engine_migration_tool::rpc::{Client, CommitOutcome, CommitTx, FinalExecutionStatus};
use aurora_engine_migration_tool::target::TargetLedger;
use aurora_engine_migration_tool::{FungibleToken, StateData};

fn id(name: &str) -> AccountId {
    AccountId::parse(name).unwrap()
}

fn ledger(balances: &[(&str, u128)]) -> AccountMap {
    let mut map = AccountMap::new();
    for (name, amount) in balances {
        map.insert(id(name), *amount);
    }
    map
}

fn entries(map: &AccountMap) -> Vec<(String, u128)> {
    (0..map.len()).map(|i| (map.account_at(i).as_str().to_string(), map.amount_at(i))).collect()
}

fn state(balances: &[(&str, u128)], proofs: &[&str], totals: FungibleToken) -> StateData {
    StateData {
        contract_data: totals,
        accounts: ledger(balances),
        accounts_counter: balances.len() as u64,
        proofs: proofs.iter().map(|p| p.to_string()).collect(),
    }
}

fn totals(supply: u128, usage: u64) -> FungibleToken {
    FungibleToken {
        total_eth_supply_on_near: supply,
        total_eth_supply_on_aurora: 0,
        account_storage_usage: usage,
    }
}

fn numbered(count: usize) -> AccountMap {
    let mut map = AccountMap::new();
    for i in 0..count {
        map.insert(id(&format!("account{i}.near")), i as u128);
    }
    map
}

fn success() -> CommitOutcome {
    CommitOutcome::Status(FinalExecutionStatus::SuccessValue(vec![]))
}

fn failure() -> CommitOutcome {
    CommitOutcome::Unreachable("no route".to_string())
}

#[test]
fn constants_name_the_contract_interface() {
    assert_eq!(MIGRATION_METHOD, "migrate");
    assert_eq!(MIGRATION_CHECK_METHOD, "check_migration_correctness");
    assert_eq!(RECORDS_COUNT_PER_TX, 750);
}

#[test]
fn three_accounts_in_batches_of_two() {
    let accounts = ledger(&[("a.near", 10), ("b.near", 20), ("c.near", 30)]);
    let batches = account_batches(&accounts, 2);
    assert_eq!(batches.len(), 2);
    assert_eq!(entries(&batches[0].0), vec![("a.near".to_string(), 10), ("b.near".to_string(), 20)]);
    assert_eq!(batches[0].1, 2);
    assert_eq!(entries(&batches[1].0), vec![("c.near".to_string(), 30)]);
    assert_eq!(batches[1].1, 3);
}

#[test]
fn batches_cover_the_accounts_for_every_size_and_limit() {
    for count in [0usize, 1, 2, 3, 4, 5, 6, 7, 10, 11] {
        let accounts = numbered(count);
        for limit in [1usize, 2, 3, 4, 5, 10, 11, 12, 750] {
            let batches = account_batches(&accounts, limit);
            assert_eq!(batches.len(), (count + limit - 1) / limit, "count {count} limit {limit}");
            let mut joined = Vec::new();
            for (i, (batch, counter)) in batches.iter().enumerate() {
                assert!(batch.len() <= limit);
                assert!(batch.len() > 0);
                if i + 1 < batches.len() {
                    assert_eq!(batch.len(), limit);
                }
                joined.extend(entries(batch));
                assert_eq!(*counter, joined.len());
            }
            assert_eq!(joined, entries(&accounts));
        }
    }
}

#[test]
fn proofs_are_cut_like_accounts() {
    let proofs: Vec<String> = (0..5).map(|i| format!("proof-{i}")).collect();
    let batches = proof_batches(&proofs, 2);
    assert_eq!(
        batches,
        vec![
            (vec!["proof-0".to_string(), "proof-1".to_string()], 2),
            (vec!["proof-2".to_string(), "proof-3".to_string()], 4),
            (vec!["proof-4".to_string()], 5),
        ]
    );
    assert!(proof_batches(&vec![], 3).is_empty());
    assert_eq!(proof_batches(&proofs, 5).len(), 1);
    assert_eq!(proof_batches(&proofs, 6).len(), 1);
    assert_eq!(proof_batches(&proofs, 1).len(), 5);
}

#[test]
fn plan_has_proofs_then_accounts_then_totals() {
    let data = state(
        &[("a.near", 10), ("b.near", 20), ("c.near", 30)],
        &["proof-a", "proof-b", "proof-c"],
        totals(60, 900),
    );
    let plan = plan_batches(&data, 2);
    assert_eq!(plan.len(), 5);
    assert_eq!(plan[0].data.used_proofs, vec!["proof-a".to_string(), "proof-b".to_string()]);
    assert_eq!(plan[0].data.accounts.len(), 0);
    assert_eq!(plan[0].data.total_supply, None);
    assert_eq!(plan[0].counter, 2);
    assert_eq!(plan[1].data.used_proofs, vec!["proof-c".to_string()]);
    assert_eq!(plan[1].counter, 3);
    assert_eq!(entries(&plan[2].data.accounts), vec![("a.near".to_string(), 10), ("b.near".to_string(), 20)]);
    assert!(plan[2].data.used_proofs.is_empty());
    assert_eq!(plan[2].data.account_storage_usage, None);
    assert_eq!(plan[2].counter, 2);
    assert_eq!(entries(&plan[3].data.accounts), vec![("c.near".to_string(), 30)]);
    assert_eq!(plan[3].counter, 3);
    assert_eq!(plan[4].data.total_supply, Some(60));
    assert_eq!(plan[4].data.account_storage_usage, Some(900));
    assert_eq!(plan[4].data.accounts.len(), 0);
    assert!(plan[4].data.used_proofs.is_empty());
    assert_eq!(plan[4].counter, 1);
}

#[test]
fn empty_ledger_has_the_totals_batch_alone() {
    let plan = plan_batches(&StateData::default(), 750);
    assert_eq!(plan.len(), 1);
    assert_eq!(plan[0].data.total_supply, Some(0));
    assert_eq!(plan[0].data.account_storage_usage, Some(0));
}

#[test]
fn migration_refuses_an_inconsistent_ledger() {
    let mut data = state(&[("a.near", 10), ("b.near", 20)], &[], totals(30, 0));
    data.accounts_counter = 3;
    let refused = Migration::new(data, "c.near".to_string(), "s.near".to_string(), "key".to_string());
    assert_eq!(refused.err(), Some(MigrationError::InconsistentState));
    let data = state(&[("a.near", 10), ("b.near", 20)], &[], totals(30, 0));
    let migration =
        Migration::new(data, "c.near".to_string(), "s.near".to_string(), "key".to_string()).unwrap();
    assert_eq!(migration.config.contract, "c.near");
    assert_eq!(migration.config.signer_account_id, "s.near");
    assert_eq!(migration.config.signer_secret_key, "key");
    assert_eq!(migration.data.accounts.len(), 2);
    assert!(migration.client.unresolved_blocks.is_empty());
}

#[test]
fn reproducible_data_uses_the_limit_per_transaction() {
    let count = 2 * RECORDS_COUNT_PER_TX + 1;
    let data = StateData {
        contract_data: totals(0, 0),
        accounts: numbered(count),
        accounts_counter: count as u64,
        proofs: (0..751).map(|i| format!("p{i}")).collect(),
    };
    let migration = Migration::new(data, "c".to_string() + "c", "ss".to_string(), String::new()).unwrap();
    let accounts = migration.get_reproducible_data_for_accounts();
    let sizes: Vec<(usize, usize)> = accounts.iter().map(|(b, c)| (b.len(), *c)).collect();
    assert_eq!(sizes, vec![(750, 750), (750, 1500), (1, 1501)]);
    let proofs = migration.get_reproducible_data_for_proofs();
    let sizes: Vec<(usize, usize)> = proofs.iter().map(|(b, c)| (b.len(), *c)).collect();
    assert_eq!(sizes, vec![(750, 750), (1, 751)]);
    assert_eq!(migration.batches().len(), 6);
    assert_eq!(migration.run().phase(), Phase::Commit);
    assert_eq!(migration.validate_migration().phase(), Phase::Verify);
    assert_eq!(migration.validate_migration().pending(), MigrationAction::Check(0));
}

#[test]
fn run_commits_every_batch_and_then_checks_every_batch() {
    let data = state(&[("a.near", 10), ("b.near", 20), ("c.near", 30)], &[], totals(60, 0));
    let client = Client::new();
    let mut run = MigrationRun::new(plan_batches(&data, 2));
    assert_eq!(run.batches().len(), 3);
    assert_eq!(run.step(&client, MigrationEvent::Start), MigrationAction::Commit(0));
    assert_eq!(run.step(&client, MigrationEvent::Committed(success())), MigrationAction::Commit(1));
    // A check that comes while the run commits is not taken.
    assert_eq!(
        run.step(&client, MigrationEvent::Checked(MigrationCheckResult::Success)),
        MigrationAction::Commit(1)
    );
    assert!(run.report().is_empty());
    assert_eq!(run.step(&client, MigrationEvent::Committed(failure())), MigrationAction::Commit(1));
    assert_eq!(run.retry(), 1);
    assert_eq!(run.step(&client, MigrationEvent::Committed(success())), MigrationAction::Commit(2));
    assert_eq!(run.retry(), 0);
    assert_eq!(run.step(&client, MigrationEvent::Committed(success())), MigrationAction::Check(0));
    assert_eq!(run.phase(), Phase::Verify);
    assert_eq!(run.step(&client, MigrationEvent::Committed(success())), MigrationAction::Check(0));
    assert_eq!(
        run.step(&client, MigrationEvent::Checked(MigrationCheckResult::Success)),
        MigrationAction::Check(1)
    );
    assert_eq!(
        run.step(&client, MigrationEvent::Checked(MigrationCheckResult::AccountNotExist(vec![id("c.near")]))),
        MigrationAction::Check(2)
    );
    assert_eq!(
        run.step(&client, MigrationEvent::Checked(MigrationCheckResult::TotalSupply(59))),
        MigrationAction::Finish
    );
    assert_eq!(run.phase(), Phase::Finished);
    assert_eq!(run.next(), 3);
    assert_eq!(run.report().len(), 3);
    assert_eq!(run.missed(), 2);
    assert!(run.failure().is_none());
    assert_eq!(run.step(&client, MigrationEvent::Start), MigrationAction::Finish);
    assert_eq!(run.report().len(), 3);
}

#[test]
fn run_aborts_when_the_retries_are_used_up() {
    let data = state(&[("a.near", 10)], &[], totals(10, 0));
    let client = Client::new();
    let mut run = MigrationRun::new(plan_batches(&data, 2));
    assert_eq!(run.step(&client, MigrationEvent::Committed(success())), MigrationAction::Commit(1));
    for attempt in 1..=10u8 {
        assert_eq!(run.step(&client, MigrationEvent::Committed(failure())), MigrationAction::Commit(1));
        assert_eq!(run.retry(), attempt);
    }
    assert_eq!(run.step(&client, MigrationEvent::Committed(failure())), MigrationAction::Abort);
    assert_eq!(run.phase(), Phase::Aborted);
    assert_eq!(run.failure(), &Some(CommitTx::Commit("no route".to_string())));
    // Nothing is committed or checked after that.
    assert_eq!(run.step(&client, MigrationEvent::Committed(success())), MigrationAction::Abort);
    assert_eq!(
        run.step(&client, MigrationEvent::Checked(MigrationCheckResult::Success)),
        MigrationAction::Abort
    );
    assert_eq!(run.next(), 1);
    assert!(run.report().is_empty());
}

#[test]
fn check_only_run_checks_and_never_commits() {
    let data = state(&[("a.near", 10)], &["p"], totals(10, 0));
    let client = Client::new();
    let mut run = MigrationRun::check_only(plan_batches(&data, 750));
    assert_eq!(run.pending(), MigrationAction::Check(0));
    let mismatch = || MigrationCheckResult::Proof(vec!["p".to_string()]);
    assert_eq!(run.step(&client, MigrationEvent::Checked(mismatch())), MigrationAction::Check(1));
    assert_eq!(
        run.step(&client, MigrationEvent::Checked(MigrationCheckResult::AccountAmount(ledger(&[("a.near", 9)])))),
        MigrationAction::Check(2)
    );
    assert_eq!(
        run.step(&client, MigrationEvent::Checked(MigrationCheckResult::StorageUsage(5))),
        MigrationAction::Finish
    );
    assert_eq!(run.missed(), 3);
    assert_eq!(run.report().len(), 3);
    let empty = MigrationRun::new(vec![]);
    assert_eq!(empty.pending(), MigrationAction::Finish);
    assert_eq!(MigrationRun::check_only(vec![]).phase(), Phase::Finished);
}

#[test]
fn answers_count_what_is_missed() {
    assert_eq!(Migration::check_migration(&MigrationCheckResult::Success), 0);
    assert_eq!(
        Migration::check_migration(&MigrationCheckResult::AccountNotExist(vec![id("aa"), id("bb")])),
        2
    );
    assert_eq!(
        Migration::check_migration(&MigrationCheckResult::AccountAmount(ledger(&[("aa", 1), ("bb", 2), ("cc", 3)]))),
        3
    );
    assert_eq!(Migration::check_migration(&MigrationCheckResult::TotalSupply(0)), 1);
    assert_eq!(Migration::check_migration(&MigrationCheckResult::StorageUsage(0)), 1);
    assert_eq!(Migration::check_migration(&MigrationCheckResult::Proof(vec!["p".to_string()])), 1);
    assert_eq!(Migration::check_migration(&MigrationCheckResult::Proof(vec![])), 0);
}

fn text(out: &mut Vec<u8>, value: &str) {
    out.extend_from_slice(&(value.len() as u32).to_le_bytes());
    out.extend_from_slice(value.as_bytes());
}

#[test]
fn answers_are_read_from_their_bytes() {
    assert!(matches!(MigrationCheckResult::decode(&[0]), Some(MigrationCheckResult::Success)));

    let mut missing = vec![1u8];
    missing.extend_from_slice(&2u32.to_le_bytes());
    text(&mut missing, "alice.near");
    text(&mut missing, "bob.near");
    match MigrationCheckResult::decode(&missing) {
        Some(MigrationCheckResult::AccountNotExist(accounts)) => {
            assert_eq!(accounts, vec![id("alice.near"), id("bob.near")]);
        }
        other => panic!("unexpected {other:?}"),
    }

    let mut amounts = vec![2u8];
    amounts.extend_from_slice(&2u32.to_le_bytes());
    text(&mut amounts, "bob.near");
    amounts.extend_from_slice(&7u128.to_le_bytes());
    text(&mut amounts, "alice.near");
    amounts.extend_from_slice(&(u128::MAX - 1).to_le_bytes());
    match MigrationCheckResult::decode(&amounts) {
        Some(MigrationCheckResult::AccountAmount(accounts)) => {
            assert_eq!(
                entries(&accounts),
                vec![("bob.near".to_string(), 7), ("alice.near".to_string(), u128::MAX - 1)]
            );
        }
        other => panic!("unexpected {other:?}"),
    }

    let mut supply = vec![3u8];
    supply.extend_from_slice(&0x0102_0304u128.to_le_bytes());
    assert!(matches!(
        MigrationCheckResult::decode(&supply),
        Some(MigrationCheckResult::TotalSupply(0x0102_0304))
    ));

    let mut usage = vec![4u8];
    usage.extend_from_slice(&0x0a0b_0c0d_0e0fu64.to_le_bytes());
    assert!(matches!(
        MigrationCheckResult::decode(&usage),
        Some(MigrationCheckResult::StorageUsage(0x0a0b_0c0d_0e0f))
    ));

    let mut proofs = vec![5u8];
    proofs.extend_from_slice(&1u32.to_le_bytes());
    text(&mut proofs, "proof \u{e9}");
    match MigrationCheckResult::decode(&proofs) {
        Some(MigrationCheckResult::Proof(list)) => assert_eq!(list, vec!["proof \u{e9}".to_string()]),
        other => panic!("unexpected {other:?}"),
    }
    let mut none = vec![5u8];
    none.extend_from_slice(&0u32.to_le_bytes());
    assert!(matches!(MigrationCheckResult::decode(&none), Some(MigrationCheckResult::Proof(list)) if list.is_empty()));
}

#[test]
fn malformed_answers_are_refused() {
    assert!(MigrationCheckResult::decode(&[]).is_none());
    assert!(MigrationCheckResult::decode(&[6]).is_none());
    assert!(MigrationCheckResult::decode(&[0, 0]).is_none());
    assert!(MigrationCheckResult::decode(&[3, 1, 2]).is_none());
    assert!(MigrationCheckResult::decode(&[4, 0, 0, 0, 0, 0, 0, 0, 0, 0]).is_none());
    let mut short = vec![1u8];
    short.extend_from_slice(&2u32.to_le_bytes());
    text(&mut short, "alice.near");
    assert!(MigrationCheckResult::decode(&short).is_none());
    let mut invalid = vec![1u8];
    invalid.extend_from_slice(&1u32.to_le_bytes());
    text(&mut invalid, "Not Valid");
    assert!(MigrationCheckResult::decode(&invalid).is_none());
    let mut trailing = vec![5u8];
    trailing.extend_from_slice(&0u32.to_le_bytes());
    trailing.push(1);
    assert!(MigrationCheckResult::decode(&trailing).is_none());
    let mut bad_amount = vec![2u8];
    bad_amount.extend_from_slice(&1u32.to_le_bytes());
    text(&mut bad_amount, "alice.near");
    bad_amount.extend_from_slice(&[1, 2, 3]);
    assert!(MigrationCheckResult::decode(&bad_amount).is_none());
    let mut bad_name = vec![2u8];
    bad_name.extend_from_slice(&1u32.to_le_bytes());
    text(&mut bad_name, "A");
    bad_name.extend_from_slice(&1u128.to_le_bytes());
    assert!(MigrationCheckResult::decode(&bad_name).is_none());
}

#[test]
fn names_become_accounts_only_if_all_are_valid() {
    let good = vec!["alice.near".to_string(), "bob.near".to_string()];
    assert_eq!(accounts_from(&good), Some(vec![id("alice.near"), id("bob.near")]));
    let bad = vec!["alice.near".to_string(), "B".to_string()];
    assert_eq!(accounts_from(&bad), None);
    assert_eq!(accounts_from(&vec![]), Some(vec![]));
}

#[test]
fn payload_is_the_wire_form_of_the_call() {
    let input = MigrationInputData {
        accounts: ledger(&[("bob.near", 2), ("alice.near", 1)]),
        total_supply: None,
        account_storage_usage: None,
        used_proofs: vec![],
    };
    let mut expected = Vec::new();
    expected.extend_from_slice(&2u32.to_le_bytes());
    text(&mut expected, "alice.near");
    expected.extend_from_slice(&1u128.to_le_bytes());
    text(&mut expected, "bob.near");
    expected.extend_from_slice(&2u128.to_le_bytes());
    expected.push(0);
    expected.push(0);
    expected.extend_from_slice(&0u32.to_le_bytes());
    assert_eq!(input.payload(), Some(expected));

    let totals = MigrationInputData {
        accounts: AccountMap::new(),
        total_supply: Some(0x1122_3344_5566_7788_99aa_bbcc_ddee_ff00),
        account_storage_usage: Some(513),
        used_proofs: vec!["proof-a".to_string(), "\u{e9}".to_string()],
    };
    let mut expected = Vec::new();
    expected.extend_from_slice(&0u32.to_le_bytes());
    expected.push(1);
    expected.extend_from_slice(&0x1122_3344_5566_7788_99aa_bbcc_ddee_ff00u128.to_le_bytes());
    expected.push(1);
    expected.extend_from_slice(&[1, 2, 0, 0, 0, 0, 0, 0]);
    expected.extend_from_slice(&2u32.to_le_bytes());
    text(&mut expected, "proof-a");
    text(&mut expected, "\u{e9}");
    assert_eq!(totals.payload(), Some(expected));
}

#[test]
fn payload_is_put_together_behind_the_balances() {
    let bytes =
        MigrationInputData::assemble(vec![0xaa, 0xbb], Some(1), None, &vec!["x".to_string()]).unwrap();
    let mut expected = vec![0xaa, 0xbb, 1];
    expected.extend_from_slice(&1u128.to_le_bytes());
    expected.push(0);
    expected.extend_from_slice(&1u32.to_le_bytes());
    text(&mut expected, "x");
    assert_eq!(bytes, expected);
}

#[test]
fn same_batch_gives_the_same_payload_for_commit_and_check() {
    let data = state(&[("b.near", 20), ("a.near", 10), ("c.near", 30)], &["p"], totals(60, 3));
    let first: Vec<Option<Vec<u8>>> = plan_batches(&data, 2).iter().map(|b| b.data.payload()).collect();
    let second: Vec<Option<Vec<u8>>> = plan_batches(&data, 2).iter().map(|b| b.data.payload()).collect();
    assert_eq!(first, second);
    assert!(first.iter().all(|p| p.is_some()));
}

fn indexed(names: &[&str], proofs: &[&str]) -> IndexerData {
    let mut data = IndexerData::new();
    for name in names {
        data.data.accounts.insert(id(name));
    }
    for proof in proofs {
        data.data.proofs.insert(proof.to_string());
    }
    data
}

#[test]
fn balance_call_names_the_account() {
    assert_eq!(
        Migration::balance_arguments(&id("alice.near")),
        br#"{"account_id":"alice.near"}"#.to_vec()
    );
}

#[test]
fn indexed_accounts_become_a_ledger() {
    let data = indexed(&["alice.near", "bob.near"], &["proof-a"]);
    let answers = vec![br#""15""#.to_vec(), br#""340282366920938463463374607431768211455""#.to_vec()];
    let state = Migration::prepare_indexed(&data, br#""1000""#, &answers).unwrap();
    assert_eq!(
        entries(&state.accounts),
        vec![("alice.near".to_string(), 15), ("bob.near".to_string(), u128::MAX)]
    );
    assert_eq!(state.contract_data, totals(1000, 0));
    assert_eq!(state.accounts_counter, 2);
    assert_eq!(state.proofs, vec!["proof-a".to_string()]);
}

#[test]
fn answers_that_are_no_numbers_are_errors() {
    let data = indexed(&["alice.near", "bob.near"], &[]);
    let good = vec![br#""15""#.to_vec(), br#""16""#.to_vec()];
    assert_eq!(Migration::prepare_indexed(&data, b"1000", &good).err(), Some(PrepareError::TotalSupply));
    assert_eq!(Migration::prepare_indexed(&data, b"", &good).err(), Some(PrepareError::TotalSupply));
    let one = vec![br#""15""#.to_vec()];
    assert_eq!(
        Migration::prepare_indexed(&data, br#""1""#, &one).err(),
        Some(PrepareError::BalanceCount)
    );
    let bad = vec![br#""15""#.to_vec(), br#""x""#.to_vec()];
    assert_eq!(Migration::prepare_indexed(&data, br#""1""#, &bad).err(), Some(PrepareError::Balance(1)));
    let both = vec![b"null".to_vec(), br#""x""#.to_vec()];
    assert_eq!(Migration::prepare_indexed(&data, br#""1""#, &both).err(), Some(PrepareError::Balance(0)));
    let too_big = vec![br#""340282366920938463463374607431768211456""#.to_vec(), br#""1""#.to_vec()];
    assert_eq!(
        Migration::prepare_indexed(&data, br#""1""#, &too_big).err(),
        Some(PrepareError::Balance(0))
    );
}

#[test]
fn ledger_is_prepared_from_numbers() {
    let data = indexed(&["alice.near", "bob.near", "carol.near"], &["proof-a", "proof-b"]);
    let state = Migration::prepare_state(&data, 77, &vec![1, 2, 3]).unwrap();
    assert_eq!(
        entries(&state.accounts),
        vec![("alice.near".to_string(), 1), ("bob.near".to_string(), 2), ("carol.near".to_string(), 3)]
    );
    assert_eq!(state.accounts_counter, 3);
    assert_eq!(state.contract_data.total_eth_supply_on_near, 77);
    assert_eq!(state.proofs, vec!["proof-a".to_string(), "proof-b".to_string()]);
    assert!(Migration::prepare_state(&data, 77, &vec![1, 2]).is_none());
    assert!(Migration::prepare_state(&data, 77, &vec![1, 2, 3, 4]).is_none());
    let empty = Migration::prepare_state(&IndexerData::new(), 5, &vec![]).unwrap();
    assert_eq!(empty.accounts.len(), 0);
}

#[test]
fn combined_ledger_takes_balances_and_supply_of_the_indexed_one() {
    let base = StateData {
        contract_data: FungibleToken {
            total_eth_supply_on_near: 100,
            total_eth_supply_on_aurora: 40,
            account_storage_usage: 7,
        },
        accounts: ledger(&[("alice.near", 1), ("bob.near", 2)]),
        accounts_counter: 2,
        proofs: vec!["proof-a".to_string()],
    };
    let indexed = StateData {
        contract_data: totals(250, 99),
        accounts: ledger(&[("bob.near", 20), ("carol.near", 30)]),
        accounts_counter: 2,
        proofs: vec!["proof-b".to_string()],
    };
    let combined = Migration::combine_indexed_and_state_data(base, indexed);
    assert_eq!(
        entries(&combined.accounts),
        vec![("alice.near".to_string(), 1), ("bob.near".to_string(), 20), ("carol.near".to_string(), 30)]
    );
    assert_eq!(combined.accounts_counter, 3);
    assert_eq!(
        combined.contract_data,
        FungibleToken {
            total_eth_supply_on_near: 250,
            total_eth_supply_on_aurora: 40,
            account_storage_usage: 7,
        }
    );
    assert_eq!(combined.proofs, vec!["proof-a".to_string(), "proof-b".to_string()]);
}

#[test]
fn migration_into_a_correct_contract_verifies() {
    // Accounts A, B and C in batches of two, and the totals.
    let data = state(&[("aa", 10), ("bb", 20), ("cc", 30)], &[], totals(60, 0));
    let plan = plan_batches(&data, 2);
    let keys: Vec<Vec<String>> = plan
        .iter()
        .map(|b| entries(&b.data.accounts).into_iter().map(|(name, _)| name).collect())
        .collect();
    assert_eq!(keys, vec![vec!["aa".to_string(), "bb".to_string()], vec!["cc".to_string()], vec![]]);
    assert_eq!(plan[2].data.total_supply, Some(60));

    let client = Client::new();
    let mut target = TargetLedger::new();
    let mut run = MigrationRun::new(plan);
    let mut action = run.step(&client, MigrationEvent::Start);
    loop {
        action = match action {
            MigrationAction::Commit(i) => {
                let batch: MigrationBatch = run.batches()[i].clone();
                target.migrate(&batch.data);
                run.step(&client, MigrationEvent::Committed(success()))
            }
            MigrationAction::Check(i) => {
                let result = target.check_migration_correctness(&run.batches()[i].data);
                run.step(&client, MigrationEvent::Checked(result))
            }
            MigrationAction::Finish => break,
            MigrationAction::Abort => panic!("the run was aborted"),
        };
    }
    assert_eq!(run.report().len(), 3);
    assert!(run.report().iter().all(|r| matches!(r, MigrationCheckResult::Success)));
    assert_eq!(run.missed(), 0);
    assert_eq!(target.accounts.get(&id("bb")), Some(20));
    assert_eq!(target.total_supply, 60);
}
