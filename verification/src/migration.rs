//! Replay of the ledger into the target contract: the batches to send, the
//! order of commit and verification, and what the contract's answers mean.

use vstd::prelude::*;
use crate::account::{is_valid_account_id, AccountId};
use crate::indexer::IndexerData;
use crate::json::{is_plain, json_u128, member_text, parse_json_u128, write_json_member};
use crate::ledger::{read_balances, with_entries};
use crate::ledger::entry_amounts;
use crate::wire::{
    exact_u128, exact_u64, optional_written, put_optional_u128, put_optional_u64, put_text_list,
    read_exact_uint, read_text_list, sorted_pairs_bytes, sorted_pairs_written, take_text_list,
    text_list_written,
};
use crate::batch::{batches_joined, batches_of, lemma_batches_cover};
use crate::keyset::keys_of;
use crate::ledger::{entry_keys, lemma_entry_position_is, AccountMap, Entry};
use crate::rpc::{Client, CommitOutcome, CommitStep, CommitStepView, CommitTx, CommitTxView, commit_step, RETRIES_COUNT};
use crate::{FungibleToken, StateData, StateView};

verus! {

/// The method of the target contract that takes a batch in.
pub const MIGRATION_METHOD: &'static str = "migrate";

/// The method of the target contract that checks a batch.
pub const MIGRATION_CHECK_METHOD: &'static str = "check_migration_correctness";

/// The number of records that one transaction carries at most.
pub const RECORDS_COUNT_PER_TX: usize = 750;

/// Who signs the migration, and for which contract.
#[derive(Debug, Clone, PartialEq, Eq)]
pub struct MigrationConfig {
    pub signer_account_id: String,
    pub signer_secret_key: String,
    pub contract: String,
}

/// What one call of the target contract carries: balances, or used proofs,
/// or the totals.
#[derive(Debug, Clone)]
pub struct MigrationInputData {
    pub accounts: AccountMap,
    pub total_supply: Option<u128>,
    pub account_storage_usage: Option<u64>,
    pub used_proofs: Vec<String>,
}

/// What a `MigrationInputData` holds.
pub struct MigrationInputView {
    pub accounts: Seq<Entry>,
    pub total_supply: Option<u128>,
    pub account_storage_usage: Option<u64>,
    pub used_proofs: Seq<Seq<char>>,
}

impl View for MigrationInputData {
    type V = MigrationInputView;

    open spec fn view(&self) -> MigrationInputView {
        MigrationInputView {
            accounts: self.accounts.entries(),
            total_supply: self.total_supply,
            account_storage_usage: self.account_storage_usage,
            used_proofs: keys_of(self.used_proofs@),
        }
    }
}

impl MigrationInputView {
    /// A call that carries these balances and nothing else.
    pub open spec fn of_accounts(accounts: Seq<Entry>) -> MigrationInputView {
        MigrationInputView {
            accounts,
            total_supply: None,
            account_storage_usage: None,
            used_proofs: Seq::empty(),
        }
    }

    /// A call that carries these proofs and nothing else.
    pub open spec fn of_proofs(used_proofs: Seq<Seq<char>>) -> MigrationInputView {
        MigrationInputView {
            accounts: Seq::empty(),
            total_supply: None,
            account_storage_usage: None,
            used_proofs,
        }
    }

    /// A call that carries the totals and nothing else.
    pub open spec fn of_totals(totals: FungibleToken) -> MigrationInputView {
        MigrationInputView {
            accounts: Seq::empty(),
            total_supply: Some(totals.total_eth_supply_on_near),
            account_storage_usage: Some(totals.account_storage_usage),
            used_proofs: Seq::empty(),
        }
    }
}

/// One batch of the migration: what it carries, and the number of records
/// that are out once it is.
#[derive(Debug, Clone)]
pub struct MigrationBatch {
    pub data: MigrationInputData,
    pub counter: usize,
}

/// What a `MigrationBatch` holds.
pub struct BatchView {
    pub data: MigrationInputView,
    pub counter: nat,
}

impl View for MigrationBatch {
    type V = BatchView;

    open spec fn view(&self) -> BatchView {
        BatchView { data: self.data@, counter: self.counter as nat }
    }
}

/// What a list of batches holds.
pub open spec fn batches_view(batches: Seq<MigrationBatch>) -> Seq<BatchView> {
    batches.map_values(|b: MigrationBatch| b@)
}

/// What a list of balances in batches holds.
pub open spec fn account_batches_view(batches: Seq<(AccountMap, usize)>) -> Seq<(Seq<Entry>, nat)> {
    batches.map_values(|b: (AccountMap, usize)| (b.0.entries(), b.1 as nat))
}

/// What a list of proofs in batches holds.
pub open spec fn proof_batches_view(batches: Seq<(Vec<String>, usize)>) -> Seq<
    (Seq<Seq<char>>, nat),
> {
    batches.map_values(|b: (Vec<String>, usize)| (keys_of(b.0@), b.1 as nat))
}

/// A batch of proofs.
pub open spec fn proofs_batch(b: (Seq<Seq<char>>, nat)) -> BatchView {
    BatchView { data: MigrationInputView::of_proofs(b.0), counter: b.1 }
}

/// A batch of balances.
pub open spec fn accounts_batch(b: (Seq<Entry>, nat)) -> BatchView {
    BatchView { data: MigrationInputView::of_accounts(b.0), counter: b.1 }
}

/// The batch of the totals.
pub open spec fn totals_batch(totals: FungibleToken) -> BatchView {
    BatchView { data: MigrationInputView::of_totals(totals), counter: 1 }
}

/// The batches of a migration: the used proofs and the balances, each cut
/// into batches of `limit` records, and the totals in a batch of their own
/// at the end.
pub open spec fn migration_plan(state: StateView, limit: nat) -> Seq<BatchView> {
    batches_of(state.proofs, limit, 0).map_values(|b: (Seq<Seq<char>>, nat)| proofs_batch(b))
        + batches_of(state.accounts, limit, 0).map_values(|b: (Seq<Entry>, nat)| accounts_batch(b))
        + seq![totals_batch(state.contract_data)]
}

/// Cuts balances into batches of `limit` accounts.
pub fn account_batches(accounts: &AccountMap, limit: usize) -> (batches: Vec<(AccountMap, usize)>)
    requires
        limit > 0,
    ensures
        account_batches_view(batches@) == batches_of(accounts.entries(), limit as nat, 0),
{
    let n = accounts.len();
    let ghost entries = accounts.entries();
    let mut batches: Vec<(AccountMap, usize)> = Vec::new();
    let mut current = AccountMap::new();
    let mut count: usize = 0;
    let mut i: usize = 0;
    assert(entries.skip(0) =~= entries);
    assert(account_batches_view(batches@) =~= Seq::<(Seq<Entry>, nat)>::empty());
    assert(entries.subrange(0, 0) =~= Seq::<Entry>::empty());
    while i < n
        invariant
            limit > 0,
            n == entries.len(),
            entries == accounts.entries(),
            entry_keys(entries).no_duplicates(),
            count <= i <= n,
            count < limit,
            i == n ==> count == 0,
            current.entries() == entries.subrange(i - count, i as int),
            batches_of(entries, limit as nat, 0) == account_batches_view(batches@) + batches_of(
                entries.skip(i - count),
                limit as nat,
                (i - count) as nat,
            ),
        decreases n - i,
    {
        let ghost start = i - count;
        let ghost held = current.entries();
        let account = accounts.account_at(i).clone();
        let amount = accounts.amount_at(i);
        proof {
            assert forall|j: int| 0 <= j < held.len() implies (#[trigger] held[j]).0
                != account@ by {
                assert(entry_keys(entries)[start + j] == held[j].0);
                assert(entry_keys(entries)[i as int] == account@);
            }
            lemma_entry_position_is(held, account@, held.len() as int);
        }
        current.insert(account, amount);
        assert(current.entries() =~= entries.subrange(start, i + 1));
        count += 1;
        i += 1;
        if count == limit || i == n {
            let ghost rest = entries.skip(start);
            let ghost before = account_batches_view(batches@);
            proof {
                if rest.len() <= limit {
                    assert(rest =~= entries.subrange(start, i as int));
                    assert(entries.skip(i as int).len() == 0);
                } else {
                    assert(rest.take(limit as int) =~= entries.subrange(start, i as int));
                    assert(rest.skip(limit as int) =~= entries.skip(i as int));
                }
            }
            batches.push((current, i));
            assert(account_batches_view(batches@) =~= before.push(
                (entries.subrange(start, i as int), i as nat),
            ));
            current = AccountMap::new();
            count = 0;
            assert(entries.subrange(i as int, i as int) =~= Seq::<Entry>::empty());
        }
    }
    assert(account_batches_view(batches@) + Seq::<(Seq<Entry>, nat)>::empty()
        =~= account_batches_view(batches@));
    batches
}

/// Cuts a list of proofs into batches of `limit` proofs.
pub fn proof_batches(proofs: &Vec<String>, limit: usize) -> (batches: Vec<(Vec<String>, usize)>)
    requires
        limit > 0,
    ensures
        proof_batches_view(batches@) == batches_of(keys_of(proofs@), limit as nat, 0),
{
    let n = proofs.len();
    let ghost entries = keys_of(proofs@);
    let mut batches: Vec<(Vec<String>, usize)> = Vec::new();
    let mut current: Vec<String> = Vec::new();
    let mut i: usize = 0;
    assert(entries.skip(0) =~= entries);
    assert(proof_batches_view(batches@) =~= Seq::<(Seq<Seq<char>>, nat)>::empty());
    assert(keys_of(current@) =~= entries.subrange(0, 0));
    while i < n
        invariant
            limit > 0,
            n == entries.len(),
            entries == keys_of(proofs@),
            current@.len() <= i <= n,
            current@.len() < limit,
            i == n ==> current@.len() == 0,
            keys_of(current@) == entries.subrange(i - current@.len(), i as int),
            batches_of(entries, limit as nat, 0) == proof_batches_view(batches@) + batches_of(
                entries.skip(i - current@.len()),
                limit as nat,
                (i - current@.len()) as nat,
            ),
        decreases n - i,
    {
        let ghost start = i - current@.len();
        current.push(proofs[i].clone());
        assert(keys_of(current@) =~= entries.subrange(start, i + 1));
        i += 1;
        if current.len() == limit || i == n {
            let ghost rest = entries.skip(start);
            let ghost before = proof_batches_view(batches@);
            proof {
                if rest.len() <= limit {
                    assert(rest =~= entries.subrange(start, i as int));
                    assert(entries.skip(i as int).len() == 0);
                } else {
                    assert(rest.take(limit as int) =~= entries.subrange(start, i as int));
                    assert(rest.skip(limit as int) =~= entries.skip(i as int));
                }
            }
            batches.push((current, i));
            assert(proof_batches_view(batches@) =~= before.push(
                (entries.subrange(start, i as int), i as nat),
            ));
            current = Vec::new();
            assert(keys_of(current@) =~= entries.subrange(i as int, i as int));
        }
    }
    assert(proof_batches_view(batches@) + Seq::<(Seq<Seq<char>>, nat)>::empty()
        =~= proof_batches_view(batches@));
    batches
}

/// What the target contract answers to the check of a batch.
#[derive(Debug, Clone)]
pub enum MigrationCheckResult {
    /// The contract holds what the batch carries.
    Success,
    /// These accounts of the batch are not in the contract.
    AccountNotExist(Vec<AccountId>),
    /// These accounts have another balance in the contract; the balances
    /// are the contract's.
    AccountAmount(AccountMap),
    /// The contract has this total supply, not the batch's.
    TotalSupply(u128),
    /// The contract has this storage usage, not the batch's.
    StorageUsage(u64),
    /// These proofs of the batch are not in the contract.
    Proof(Vec<String>),
}

/// What a `MigrationCheckResult` holds.
pub enum CheckResultView {
    Success,
    AccountNotExist(Seq<Seq<char>>),
    AccountAmount(Seq<Entry>),
    TotalSupply(u128),
    StorageUsage(u64),
    Proof(Seq<Seq<char>>),
}

impl View for MigrationCheckResult {
    type V = CheckResultView;

    open spec fn view(&self) -> CheckResultView {
        match self {
            MigrationCheckResult::Success => CheckResultView::Success,
            MigrationCheckResult::AccountNotExist(accounts) => CheckResultView::AccountNotExist(
                keys_of(accounts@),
            ),
            MigrationCheckResult::AccountAmount(accounts) => CheckResultView::AccountAmount(
                accounts.entries(),
            ),
            MigrationCheckResult::TotalSupply(amount) => CheckResultView::TotalSupply(*amount),
            MigrationCheckResult::StorageUsage(usage) => CheckResultView::StorageUsage(*usage),
            MigrationCheckResult::Proof(proofs) => CheckResultView::Proof(keys_of(proofs@)),
        }
    }
}

impl CheckResultView {
    /// The number of things that the contract does not hold as the batch
    /// has them: accounts, proofs, or one of the totals.
    pub open spec fn missed(self) -> nat {
        match self {
            CheckResultView::Success => 0,
            CheckResultView::AccountNotExist(accounts) => accounts.len(),
            CheckResultView::AccountAmount(accounts) => accounts.len(),
            CheckResultView::TotalSupply(_) => 1,
            CheckResultView::StorageUsage(_) => 1,
            CheckResultView::Proof(proofs) => proofs.len(),
        }
    }
}

/// Why a migration cannot be set up.
#[derive(Debug, Clone, Copy, PartialEq, Eq)]
pub enum MigrationError {
    /// The ledger holds another number of accounts than the contract
    /// counted.
    InconsistentState,
}

/// A migration: the ledger to replay, who signs, and the connection.
#[derive(Debug)]
pub struct Migration {
    pub client: Client,
    pub data: StateData,
    pub config: MigrationConfig,
}

impl Migration {
    /// Sets a migration of `data` up. A ledger that is not consistent is
    /// refused.
    pub fn new(
        data: StateData,
        contract: String,
        signer_account_id: String,
        signer_secret_key: String,
    ) -> (r: Result<Self, MigrationError>)
        ensures
            r is Ok == data@.is_consistent(),
            r matches Ok(migration) ==> migration.data == data && migration.config.contract
                == contract && migration.config.signer_account_id == signer_account_id
                && migration.config.signer_secret_key == signer_secret_key
                && migration.client.unresolved_blocks@ == Set::<u64>::empty()
                && migration.client.last_call is None,
            r matches Err(e) ==> e == MigrationError::InconsistentState,
    {
        if data.accounts.len() as u64 != data.accounts_counter {
            return Err(MigrationError::InconsistentState);
        }
        Ok(
            Migration {
                client: Client::new(),
                data,
                config: MigrationConfig { signer_account_id, signer_secret_key, contract },
            },
        )
    }

    /// The balances in the batches in which they are sent and checked.
    pub fn get_reproducible_data_for_accounts(&self) -> (batches: Vec<(AccountMap, usize)>)
        ensures
            account_batches_view(batches@) == batches_of(
                self.data@.accounts,
                RECORDS_COUNT_PER_TX as nat,
                0,
            ),
    {
        account_batches(&self.data.accounts, RECORDS_COUNT_PER_TX)
    }

    /// The proofs in the batches in which they are sent and checked.
    pub fn get_reproducible_data_for_proofs(&self) -> (batches: Vec<(Vec<String>, usize)>)
        ensures
            proof_batches_view(batches@) == batches_of(
                self.data@.proofs,
                RECORDS_COUNT_PER_TX as nat,
                0,
            ),
    {
        proof_batches(&self.data.proofs, RECORDS_COUNT_PER_TX)
    }

    /// How many things of a batch the contract does not hold as the batch
    /// has them, from its answer to the check; none for `Success`.
    pub fn check_migration(result: &MigrationCheckResult) -> (missed: usize)
        ensures
            missed == result@.missed(),
    {
        match result {
            MigrationCheckResult::Success => 0,
            MigrationCheckResult::AccountNotExist(accounts) => accounts.len(),
            MigrationCheckResult::AccountAmount(accounts) => accounts.len(),
            MigrationCheckResult::TotalSupply(_) => 1,
            MigrationCheckResult::StorageUsage(_) => 1,
            MigrationCheckResult::Proof(proofs) => proofs.len(),
        }
    }
}

/// The batches of a ledger with at most `limit` records each: proofs, then
/// balances, then the totals.
pub fn plan_batches(data: &StateData, limit: usize) -> (batches: Vec<MigrationBatch>)
    requires
        limit > 0,
    ensures
        batches_view(batches@) == migration_plan(data@, limit as nat),
{
    let ghost proofs_spec = batches_of(data@.proofs, limit as nat, 0);
    let ghost accounts_spec = batches_of(data@.accounts, limit as nat, 0);
    let ghost of_proofs = |b: (Seq<Seq<char>>, nat)| proofs_batch(b);
    let ghost of_accounts = |b: (Seq<Entry>, nat)| accounts_batch(b);
    let mut batches: Vec<MigrationBatch> = Vec::new();
    assert(batches_view(batches@) =~= proofs_spec.take(0).map_values(of_proofs));

    let mut proofs = proof_batches(&data.proofs, limit);
    let ghost proofs_before = proofs@;
    while proofs.len() > 0
        invariant
            proof_batches_view(proofs_before) == proofs_spec,
            forall|b: (Seq<Seq<char>>, nat)| #[trigger] of_proofs(b) == proofs_batch(b),
            proofs@.len() <= proofs_before.len(),
            proofs@ == proofs_before.skip(proofs_before.len() - proofs@.len()),
            batches_view(batches@) == proofs_spec.take(
                proofs_before.len() - proofs@.len(),
            ).map_values(of_proofs),
        decreases proofs.len(),
    {
        let ghost at = proofs_before.len() - proofs@.len();
        let ghost before = batches_view(batches@);
        let (used_proofs, counter) = proofs.remove(0);
        assert(proofs@ =~= proofs_before.skip(at + 1));
        assert(proof_batches_view(proofs_before)[at] == (keys_of(used_proofs@), counter as nat));
        let input = MigrationInputData {
            accounts: AccountMap::new(),
            total_supply: None,
            account_storage_usage: None,
            used_proofs,
        };
        let batch = MigrationBatch { data: input, counter };
        assert(batch@ == proofs_batch(proofs_spec[at]));
        batches.push(batch);
        assert(batches_view(batches@) =~= before.push(batch@));
        assert(proofs_before.len() - proofs@.len() == at + 1);
        assert(proofs_spec.take(at + 1).map_values(of_proofs) =~= proofs_spec.take(at).map_values(
            of_proofs,
        ).push(of_proofs(proofs_spec[at])));
    }
    assert(proofs_spec.take(proofs_spec.len() as int) =~= proofs_spec);

    let ghost head = batches_view(batches@);
    let mut accounts = account_batches(&data.accounts, limit);
    let ghost accounts_before = accounts@;
    assert(head + accounts_spec.take(0).map_values(of_accounts) =~= head);
    while accounts.len() > 0
        invariant
            account_batches_view(accounts_before) == accounts_spec,
            forall|b: (Seq<Entry>, nat)| #[trigger] of_accounts(b) == accounts_batch(b),
            accounts@.len() <= accounts_before.len(),
            accounts@ == accounts_before.skip(accounts_before.len() - accounts@.len()),
            batches_view(batches@) == head + accounts_spec.take(
                accounts_before.len() - accounts@.len(),
            ).map_values(of_accounts),
        decreases accounts.len(),
    {
        let ghost at = accounts_before.len() - accounts@.len();
        let ghost before = batches_view(batches@);
        let (batch_accounts, counter) = accounts.remove(0);
        assert(accounts@ =~= accounts_before.skip(at + 1));
        assert(account_batches_view(accounts_before)[at] == (
            batch_accounts.entries(),
            counter as nat,
        ));
        let input = MigrationInputData {
            accounts: batch_accounts,
            total_supply: None,
            account_storage_usage: None,
            used_proofs: Vec::new(),
        };
        assert(input@.used_proofs =~= Seq::<Seq<char>>::empty());
        let batch = MigrationBatch { data: input, counter };
        assert(batch@ == accounts_batch(accounts_spec[at]));
        batches.push(batch);
        assert(batches_view(batches@) =~= before.push(batch@));
        assert(accounts_before.len() - accounts@.len() == at + 1);
        assert(accounts_spec.take(at + 1).map_values(of_accounts) =~= accounts_spec.take(
            at,
        ).map_values(of_accounts).push(of_accounts(accounts_spec[at])));
    }
    assert(accounts_spec.take(accounts_spec.len() as int) =~= accounts_spec);

    let totals = MigrationInputData {
        accounts: AccountMap::new(),
        total_supply: Some(data.contract_data.total_eth_supply_on_near),
        account_storage_usage: Some(data.contract_data.account_storage_usage),
        used_proofs: Vec::new(),
    };
    assert(totals@.used_proofs =~= Seq::<Seq<char>>::empty());
    let ghost before = batches_view(batches@);
    let last = MigrationBatch { data: totals, counter: 1 };
    batches.push(last);
    assert(batches_view(batches@) =~= before.push(last@));
    assert(batches_view(batches@) =~= migration_plan(data@, limit as nat));
    batches
}

/// Where a run of the migration stands.
#[derive(Debug, Clone, Copy, PartialEq, Eq)]
pub enum Phase {
    /// Batches are being committed.
    Commit,
    /// Batches are being checked.
    Verify,
    /// Every batch is checked.
    Finished,
    /// A commit failed for good.
    Aborted,
}

/// What a run is told.
#[derive(Debug, Clone)]
pub enum MigrationEvent {
    /// The run begins, or goes on after a stop.
    Start,
    /// What an attempt to commit the current batch gave.
    Committed(CommitOutcome),
    /// What the contract answered to the check of the current batch.
    Checked(MigrationCheckResult),
}

/// What a run asks for.
#[derive(Debug, Clone, Copy, PartialEq, Eq)]
pub enum MigrationAction {
    /// Commit the batch at this position.
    Commit(usize),
    /// Have the contract check the batch at this position.
    Check(usize),
    /// Every batch is checked: report.
    Finish,
    /// A commit failed for good: stop.
    Abort,
}

/// A run of the migration over its batches: first every batch is
/// committed, in order, then every batch is checked, in order.
#[derive(Debug)]
pub struct MigrationRun {
    batches: Vec<MigrationBatch>,
    phase: Phase,
    next: usize,
    retry: u8,
    report: Vec<MigrationCheckResult>,
    missed: usize,
    failure: Option<CommitTx>,
}

/// What a run holds besides its batches.
pub struct RunView {
    /// The number of batches.
    pub len: nat,
    /// Where the run stands.
    pub phase: Phase,
    /// The position of the batch to commit or to check next.
    pub next: nat,
    /// How many attempts to commit that batch have failed.
    pub retry: u8,
    /// The contract's answers to the checks so far, in the batches' order.
    pub report: Seq<MigrationCheckResult>,
    /// The number of things that the checks so far found missing or
    /// different.
    pub missed: nat,
    /// Why the run was aborted.
    pub failure: Option<CommitTxView>,
}

impl View for MigrationRun {
    type V = RunView;

    closed spec fn view(&self) -> RunView {
        RunView {
            len: self.batches@.len(),
            phase: self.phase,
            next: self.next as nat,
            retry: self.retry,
            report: self.report@,
            missed: self.missed as nat,
            failure: match self.failure {
                Some(error) => Some(error@),
                None => None,
            },
        }
    }
}

impl RunView {
    /// What the run waits for.
    pub open spec fn pending(self) -> MigrationAction {
        match self.phase {
            Phase::Commit => MigrationAction::Commit(self.next as usize),
            Phase::Verify => MigrationAction::Check(self.next as usize),
            Phase::Finished => MigrationAction::Finish,
            Phase::Aborted => MigrationAction::Abort,
        }
    }

    /// The run in its order: a position within the batches while it
    /// commits or checks, and no more retries than are allowed.
    pub open spec fn in_order(self) -> bool {
        &&& self.retry <= RETRIES_COUNT
        &&& self.phase is Commit || self.phase is Verify ==> self.next < self.len
        &&& self.missed <= usize::MAX
    }

    /// The run after an attempt to commit the current batch. After a
    /// success the next batch is due, and the first check after the last
    /// batch; a failure is tried again until the retries are used up, and
    /// aborts the run then.
    pub open spec fn committed(self, outcome: CommitOutcome) -> RunView {
        match commit_step(self.retry, outcome) {
            CommitStepView::Done => if self.next + 1 < self.len {
                RunView {
                    len: self.len,
                    phase: Phase::Commit,
                    next: self.next + 1,
                    retry: 0,
                    report: self.report,
                    missed: self.missed,
                    failure: self.failure,
                }
            } else {
                RunView {
                    len: self.len,
                    phase: Phase::Verify,
                    next: 0,
                    retry: 0,
                    report: self.report,
                    missed: self.missed,
                    failure: self.failure,
                }
            },
            CommitStepView::Retry { retry } => RunView {
                len: self.len,
                phase: Phase::Commit,
                next: self.next,
                retry,
                report: self.report,
                missed: self.missed,
                failure: self.failure,
            },
            CommitStepView::Fatal { error } => RunView {
                len: self.len,
                phase: Phase::Aborted,
                next: self.next,
                retry: self.retry,
                report: self.report,
                missed: self.missed,
                failure: Some(error),
            },
        }
    }

    /// The run after the contract's answer to the check of the current
    /// batch: the answer is kept, whatever it is, and the next batch is
    /// due, or the run is finished.
    pub open spec fn checked(self, result: MigrationCheckResult) -> RunView {
        RunView {
            len: self.len,
            phase: if self.next + 1 < self.len {
                Phase::Verify
            } else {
                Phase::Finished
            },
            next: self.next + 1,
            retry: self.retry,
            report: self.report.push(result),
            missed: if self.missed + result@.missed() <= usize::MAX {
                self.missed + result@.missed()
            } else {
                usize::MAX as nat
            },
            failure: self.failure,
        }
    }

    /// The run after an event. An event that the run does not wait for
    /// changes nothing.
    pub open spec fn stepped(self, event: MigrationEvent) -> RunView {
        match (self.phase, event) {
            (Phase::Commit, MigrationEvent::Committed(outcome)) => self.committed(outcome),
            (Phase::Verify, MigrationEvent::Checked(result)) => self.checked(result),
            _ => self,
        }
    }
}

impl MigrationRun {
    #[verifier::type_invariant]
    spec fn well_formed(self) -> bool {
        self@.in_order()
    }

    /// The batches of the run.
    pub closed spec fn plan(&self) -> Seq<MigrationBatch> {
        self.batches@
    }

    /// The batches of the run.
    pub fn batches(&self) -> (batches: &Vec<MigrationBatch>)
        ensures
            batches@ == self.plan(),
            self@.len == self.plan().len(),
            self@.in_order(),
    {
        proof {
            use_type_invariant(self);
        }
        &self.batches
    }

    /// Where the run stands.
    pub fn phase(&self) -> (phase: Phase)
        ensures
            phase == self@.phase,
    {
        self.phase
    }

    /// The position of the batch to commit or to check next.
    pub fn next(&self) -> (next: usize)
        ensures
            next == self@.next,
    {
        self.next
    }

    /// How many attempts to commit the current batch have failed.
    pub fn retry(&self) -> (retry: u8)
        ensures
            retry == self@.retry,
    {
        self.retry
    }

    /// The contract's answers to the checks so far.
    pub fn report(&self) -> (report: &Vec<MigrationCheckResult>)
        ensures
            report@ == self@.report,
    {
        &self.report
    }

    /// The number of things that the checks so far found missing or
    /// different.
    pub fn missed(&self) -> (missed: usize)
        ensures
            missed == self@.missed,
    {
        self.missed
    }

    /// Why the run was aborted, if it was.
    pub fn failure(&self) -> (failure: &Option<CommitTx>)
        ensures
            failure is Some == self@.failure is Some,
            failure matches Some(error) ==> self@.failure == Some(error@),
    {
        &self.failure
    }

    /// What the run waits for.
    pub fn pending(&self) -> (action: MigrationAction)
        ensures
            action == self@.pending(),
    {
        match self.phase {
            Phase::Commit => MigrationAction::Commit(self.next),
            Phase::Verify => MigrationAction::Check(self.next),
            Phase::Finished => MigrationAction::Finish,
            Phase::Aborted => MigrationAction::Abort,
        }
    }

    /// A run that commits `batches` and then checks them.
    pub fn new(batches: Vec<MigrationBatch>) -> (run: Self)
        ensures
            run.plan() == batches@,
            run@ == (RunView {
                len: batches@.len(),
                phase: if batches@.len() > 0 {
                    Phase::Commit
                } else {
                    Phase::Finished
                },
                next: 0,
                retry: 0,
                report: Seq::empty(),
                missed: 0,
                failure: None,
            }),
    {
        let phase = if batches.len() > 0 {
            Phase::Commit
        } else {
            Phase::Finished
        };
        MigrationRun {
            batches,
            phase,
            next: 0,
            retry: 0,
            report: Vec::new(),
            missed: 0,
            failure: None,
        }
    }

    /// A run that only checks `batches`, which were committed before.
    pub fn check_only(batches: Vec<MigrationBatch>) -> (run: Self)
        ensures
            run.plan() == batches@,
            run@ == (RunView {
                len: batches@.len(),
                phase: if batches@.len() > 0 {
                    Phase::Verify
                } else {
                    Phase::Finished
                },
                next: 0,
                retry: 0,
                report: Seq::empty(),
                missed: 0,
                failure: None,
            }),
    {
        let phase = if batches.len() > 0 {
            Phase::Verify
        } else {
            Phase::Finished
        };
        MigrationRun {
            batches,
            phase,
            next: 0,
            retry: 0,
            report: Vec::new(),
            missed: 0,
            failure: None,
        }
    }

    /// One step of the run: takes an event and says what to do next.
    pub fn step(&mut self, client: &Client, event: MigrationEvent) -> (action: MigrationAction)
        ensures
            final(self).plan() == old(self).plan(),
            final(self)@ == old(self)@.stepped(event),
            action == final(self)@.pending(),
    {
        proof {
            use_type_invariant(&*self);
        }
        let len = self.batches.len();
        match (self.phase, event) {
            (Phase::Commit, MigrationEvent::Committed(outcome)) => {
                match client.commit_tx(self.retry, outcome) {
                    CommitStep::Done => {
                        self.retry = 0;
                        if self.next + 1 < len {
                            self.next = self.next + 1;
                        } else {
                            self.next = 0;
                            self.phase = Phase::Verify;
                        }
                    },
                    CommitStep::Retry { retry } => {
                        self.retry = retry;
                    },
                    CommitStep::Fatal { error } => {
                        self.failure = Some(error);
                        self.phase = Phase::Aborted;
                    },
                }
            },
            (Phase::Verify, MigrationEvent::Checked(result)) => {
                let missed = Migration::check_migration(&result);
                self.missed = if missed <= usize::MAX - self.missed {
                    self.missed + missed
                } else {
                    usize::MAX
                };
                let mut report: Vec<MigrationCheckResult> = Vec::new();
                std::mem::swap(&mut report, &mut self.report);
                report.push(result);
                self.report = report;
                if self.next + 1 >= len {
                    self.phase = Phase::Finished;
                }
                self.next = self.next + 1;
            },
            _ => {},
        }
        self.pending()
    }
}

impl Migration {
    /// The batches of the migration: proofs, then balances, then the
    /// totals.
    pub fn batches(&self) -> (batches: Vec<MigrationBatch>)
        ensures
            batches_view(batches@) == migration_plan(self.data@, RECORDS_COUNT_PER_TX as nat),
    {
        plan_batches(&self.data, RECORDS_COUNT_PER_TX)
    }

    /// A run of the migration: every batch is committed, then every batch
    /// is checked.
    pub fn run(&self) -> (run: MigrationRun)
        ensures
            batches_view(run.plan()) == migration_plan(self.data@, RECORDS_COUNT_PER_TX as nat),
            run@.len == run.plan().len(),
            run@.phase is Commit,
            run@.next == 0 && run@.retry == 0 && run@.missed == 0,
            run@.report.len() == 0 && run@.failure is None,
    {
        let batches = self.batches();
        assert(batches_view(batches@).len() > 0);
        MigrationRun::new(batches)
    }

    /// A run that checks a migration that was made before: every batch is
    /// checked and none is committed.
    pub fn validate_migration(&self) -> (run: MigrationRun)
        ensures
            batches_view(run.plan()) == migration_plan(self.data@, RECORDS_COUNT_PER_TX as nat),
            run@.len == run.plan().len(),
            run@.phase is Verify,
            run@.next == 0 && run@.retry == 0 && run@.missed == 0,
            run@.report.len() == 0 && run@.failure is None,
    {
        let batches = self.batches();
        assert(batches_view(batches@).len() > 0);
        MigrationRun::check_only(batches)
    }
}

/// The batches of balances cover the ledger: for `M` accounts and at most
/// `K` in a batch there are `(M + K - 1) / K` batches, none with more than
/// `K` accounts; the accounts of all batches together are the ledger's, each
/// with its balance; and no account is in two batches.
pub proof fn lemma_account_batches_cover(entries: Seq<Entry>, limit: nat)
    requires
        limit > 0,
        entry_keys(entries).no_duplicates(),
    ensures
        batches_of(entries, limit, 0).len() == (entries.len() + limit - 1) / (limit as int),
        forall|j: int|
            0 <= j < batches_of(entries, limit, 0).len() ==> 0 < (#[trigger] batches_of(
                entries,
                limit,
                0,
            )[j]).0.len() <= limit,
        crate::batch::batches_union(batches_of(entries, limit, 0), batches_of(entries, limit, 0).len())
            == entries.to_set(),
        batches_joined(batches_of(entries, limit, 0), batches_of(entries, limit, 0).len())
            == entries,
        entry_keys(
            batches_joined(batches_of(entries, limit, 0), batches_of(entries, limit, 0).len()),
        ).no_duplicates(),
{
    lemma_batches_cover(entries, limit, 0);
}

/// A check never stops a run: whatever the contract answers, the run goes
/// on to the next batch or is finished, and the answer is in the report.
/// A run is aborted only by a commit that failed with the retries used up.
pub proof fn lemma_checks_never_abort(run: RunView, event: MigrationEvent)
    requires
        run.in_order(),
    ensures
        run.phase is Verify ==> !(run.stepped(event).phase is Aborted) && !(run.stepped(
            event,
        ).phase is Commit),
        event matches MigrationEvent::Checked(result) ==> (run.phase is Verify ==> run.stepped(
            event,
        ).report == run.report.push(result)),
        run.stepped(event).phase is Aborted && !(run.phase is Aborted) ==> run.phase is Commit
            && run.retry >= RETRIES_COUNT && (event matches MigrationEvent::Committed(outcome)
            && crate::rpc::attempt_error(outcome) is Some),
        run.stepped(event).in_order(),
{
}

/// No batch is checked before every batch is committed: a run leaves the
/// commits only after the last batch succeeded, or by failing.
pub proof fn lemma_commits_come_first(run: RunView, event: MigrationEvent)
    requires
        run.in_order(),
        run.phase is Commit,
    ensures
        run.stepped(event).phase is Verify ==> run.next + 1 == run.len && (
        event matches MigrationEvent::Committed(outcome) && crate::rpc::attempt_error(outcome)
            is None),
        run.stepped(event).phase is Commit ==> run.stepped(event).next == run.next
            || run.stepped(event).next == run.next + 1,
        !(run.stepped(event).phase is Finished),
{
}

/// Why the indexed accounts could not be made into a ledger.
#[derive(Debug, Clone, Copy, PartialEq, Eq)]
pub enum PrepareError {
    /// The contract's answer on the total supply is no number.
    TotalSupply,
    /// There is not one answer on a balance for each account.
    BalanceCount,
    /// The contract's answer on the balance of the account at this
    /// position is no number.
    Balance(usize),
}

/// The balances of `accounts`, one from each of `amounts` in turn.
pub open spec fn paired(accounts: Seq<Seq<char>>, amounts: Seq<u128>) -> Seq<Entry> {
    Seq::new(accounts.len(), |i: int| (accounts[i], amounts[i]))
}

/// The ledger of the indexed accounts with the balances `amounts` and the
/// total supply `total_supply`: one balance for each account in the order
/// in which the accounts were found, the used proofs that were found, and
/// as many accounts counted as there are.
pub open spec fn prepared(
    accounts: Seq<Seq<char>>,
    proofs: Seq<Seq<char>>,
    total_supply: u128,
    amounts: Seq<u128>,
) -> StateView {
    StateView {
        contract_data: FungibleToken {
            total_eth_supply_on_near: total_supply,
            total_eth_supply_on_aurora: 0,
            account_storage_usage: 0,
        },
        accounts: paired(accounts, amounts),
        accounts_counter: accounts.len() as u64,
        proofs,
    }
}

/// The numbers that the first `n` answers spell, or the position of the
/// first that spells none.
pub open spec fn amounts_read(answers: Seq<Vec<u8>>, n: nat) -> Result<Seq<u128>, PrepareError>
    decreases n,
{
    if n == 0 {
        Ok(Seq::empty())
    } else {
        match amounts_read(answers, (n - 1) as nat) {
            Ok(amounts) => match json_u128(answers[n - 1]@) {
                Some(amount) => Ok(amounts.push(amount)),
                None => Err(PrepareError::Balance((n - 1) as usize)),
            },
            Err(e) => Err(e),
        }
    }
}

/// The ledger that the indexed accounts and the contract's answers give:
/// `total_supply` is the answer on the total supply, `balances` the
/// answers on the balance of each account in turn.
pub open spec fn prepared_from(
    accounts: Seq<Seq<char>>,
    proofs: Seq<Seq<char>>,
    total_supply: Seq<u8>,
    balances: Seq<Vec<u8>>,
) -> Result<StateView, PrepareError> {
    match json_u128(total_supply) {
        None => Err(PrepareError::TotalSupply),
        Some(total) => if balances.len() != accounts.len() {
            Err(PrepareError::BalanceCount)
        } else {
            match amounts_read(balances, balances.len()) {
                Ok(amounts) => Ok(prepared(accounts, proofs, total, amounts)),
                Err(e) => Err(e),
            }
        },
    }
}

/// An answer that spells no number among the first stays the first such.
pub proof fn lemma_amounts_error_stays(answers: Seq<Vec<u8>>, n: nat, m: nat)
    requires
        n <= m,
        amounts_read(answers, n) is Err,
    ensures
        amounts_read(answers, m) == amounts_read(answers, n),
    decreases m,
{
    if n < m {
        lemma_amounts_error_stays(answers, n, (m - 1) as nat);
    }
}

/// The ledger that two ledgers give together: the balances of `state` with
/// those of `indexed` set over them, the used proofs of both, the total
/// supply of `indexed`, the other totals of `state`, and as many accounts
/// counted as there are.
pub open spec fn combined(state: StateView, indexed: StateView) -> StateView {
    let accounts = with_entries(state.accounts, indexed.accounts, indexed.accounts.len());
    StateView {
        contract_data: FungibleToken {
            total_eth_supply_on_near: indexed.contract_data.total_eth_supply_on_near,
            total_eth_supply_on_aurora: state.contract_data.total_eth_supply_on_aurora,
            account_storage_usage: state.contract_data.account_storage_usage,
        },
        accounts,
        accounts_counter: accounts.len() as u64,
        proofs: state.proofs + indexed.proofs,
    }
}

impl Migration {
    /// The arguments of the view call for the balance of `account`: the
    /// JSON object with the member `account_id`.
    pub fn balance_arguments(account: &AccountId) -> (args: Vec<u8>)
        ensures
            args@ == vstd::utf8::encode_utf8(member_text("account_id"@, account@)),
    {
        let name = account.as_str();
        proof {
            reveal_strlit("account_id");
            assert(is_plain("account_id"@));
            assert(is_plain(name@));
        }
        write_json_member("account_id", name)
    }

    /// The ledger of the indexed accounts, given the total supply and the
    /// balance of each account in the order in which the accounts were
    /// found. Nothing where there is not one balance for each account.
    pub fn prepare_state(indexer_data: &IndexerData, total_supply: u128, balances: &Vec<u128>) -> (r:
        Option<StateData>)
        ensures
            r.is_some() == (balances@.len() == indexer_data.data@.accounts.len()),
            r matches Some(state) ==> state@ == prepared(
                indexer_data.data@.accounts,
                indexer_data.data@.proofs,
                total_supply,
                balances@,
            ) && state@.is_consistent(),
    {
        let n = indexer_data.data.accounts.len();
        if balances.len() != n {
            return None;
        }
        let ghost names = indexer_data.data.accounts.keys();
        let mut accounts = AccountMap::new();
        let mut i: usize = 0;
        assert(accounts.entries() =~= paired(names, balances@).take(0));
        while i < n
            invariant
                i <= n,
                n == names.len(),
                n == balances@.len(),
                names == indexer_data.data.accounts.keys(),
                names.no_duplicates(),
                accounts.entries() == paired(names, balances@).take(i as int),
            decreases n - i,
        {
            let ghost held = accounts.entries();
            let account = indexer_data.data.accounts.get(i).clone();
            proof {
                assert forall|j: int| 0 <= j < held.len() implies (#[trigger] held[j]).0
                    != account@ by {
                    assert(held[j] == paired(names, balances@)[j]);
                }
                lemma_entry_position_is(held, account@, held.len() as int);
            }
            accounts.insert(account, balances[i]);
            assert(accounts.entries() =~= paired(names, balances@).take(i + 1));
            i += 1;
        }
        assert(paired(names, balances@).take(n as int) =~= paired(names, balances@));
        let mut proofs: Vec<String> = Vec::new();
        let found = &indexer_data.data.proofs;
        let count = found.len();
        let mut j: usize = 0;
        assert(keys_of(proofs@) =~= found.keys().take(0));
        while j < count
            invariant
                j <= count,
                count == found.keys().len(),
                keys_of(proofs@) == found.keys().take(j as int),
            decreases count - j,
        {
            let ghost before = keys_of(proofs@);
            let used = found.get(j).clone();
            proofs.push(used);
            assert(keys_of(proofs@) =~= before.push(used@));
            assert(found.keys().take(j + 1) =~= found.keys().take(j as int).push(
                found.keys()[j as int],
            ));
            j += 1;
        }
        assert(found.keys().take(count as int) =~= found.keys());
        Some(
            StateData {
                contract_data: FungibleToken {
                    total_eth_supply_on_near: total_supply,
                    total_eth_supply_on_aurora: 0,
                    account_storage_usage: 0,
                },
                accounts,
                accounts_counter: n as u64,
                proofs,
            },
        )
    }

    /// The ledger of the indexed accounts, from the contract's answers:
    /// `total_supply` to the view call for the total supply, `balances` to
    /// the view calls for the balance of each account in the order in which
    /// the accounts were found.
    pub fn prepare_indexed(
        indexer_data: &IndexerData,
        total_supply: &[u8],
        balances: &Vec<Vec<u8>>,
    ) -> (r: Result<StateData, PrepareError>)
        ensures
            r matches Ok(state) ==> prepared_from(
                indexer_data.data@.accounts,
                indexer_data.data@.proofs,
                total_supply@,
                balances@,
            ) == Ok::<StateView, PrepareError>(state@) && state@.is_consistent(),
            r matches Err(e) ==> prepared_from(
                indexer_data.data@.accounts,
                indexer_data.data@.proofs,
                total_supply@,
                balances@,
            ) == Err::<StateView, PrepareError>(e),
    {
        let Some(total) = parse_json_u128(total_supply) else {
            return Err(PrepareError::TotalSupply);
        };
        if balances.len() != indexer_data.data.accounts.len() {
            return Err(PrepareError::BalanceCount);
        }
        let mut amounts: Vec<u128> = Vec::new();
        let mut i: usize = 0;
        while i < balances.len()
            invariant
                i <= balances.len(),
                json_u128(total_supply@) == Some(total),
                balances@.len() == indexer_data.data@.accounts.len(),
                amounts_read(balances@, i as nat) == Ok::<Seq<u128>, PrepareError>(amounts@),
            decreases balances.len() - i,
        {
            let Some(amount) = parse_json_u128(balances[i].as_slice()) else {
                proof {
                    assert(amounts_read(balances@, (i + 1) as nat) == Err::<
                        Seq<u128>,
                        PrepareError,
                    >(PrepareError::Balance(i)));
                    lemma_amounts_error_stays(balances@, (i + 1) as nat, balances@.len());
                }
                return Err(PrepareError::Balance(i));
            };
            amounts.push(amount);
            i += 1;
        }
        proof {
            let n = balances@.len();
            assert(amounts@.len() == n) by {
                lemma_amounts_len(balances@, n);
            }
        }
        match Migration::prepare_state(indexer_data, total, &amounts) {
            Some(state) => Ok(state),
            None => Err(PrepareError::BalanceCount),
        }
    }

    /// The ledger that a decoded ledger and a ledger of indexed accounts
    /// give together.
    pub fn combine_indexed_and_state_data(state: StateData, indexed: StateData) -> (r: StateData)
        ensures
            r@ == combined(state@, indexed@),
            r@.is_consistent(),
    {
        let StateData { contract_data, accounts, accounts_counter: _, proofs } = state;
        let mut accounts = accounts;
        accounts.extend(&indexed.accounts);
        let mut proofs = proofs;
        let ghost proofs_before = proofs@;
        let StateData {
            contract_data: indexed_totals,
            accounts: _,
            accounts_counter: _,
            proofs: indexed_proofs,
        } = indexed;
        let mut more = indexed_proofs;
        let ghost added = more@;
        proofs.append(&mut more);
        assert(keys_of(proofs@) =~= keys_of(proofs_before) + keys_of(added));
        let count = accounts.len();
        StateData {
            contract_data: FungibleToken {
                total_eth_supply_on_near: indexed_totals.total_eth_supply_on_near,
                total_eth_supply_on_aurora: contract_data.total_eth_supply_on_aurora,
                account_storage_usage: contract_data.account_storage_usage,
            },
            accounts,
            accounts_counter: count as u64,
            proofs,
        }
    }
}

/// As many numbers are read as there are answers, where all spell one.
pub proof fn lemma_amounts_len(answers: Seq<Vec<u8>>, n: nat)
    ensures
        amounts_read(answers, n) matches Ok(amounts) ==> amounts.len() == n,
    decreases n,
{
    if n > 0 {
        lemma_amounts_len(answers, (n - 1) as nat);
    }
}

/// Whether every one of `names` is an account identifier.
pub open spec fn all_account_ids(names: Seq<Seq<char>>) -> bool {
    forall|i: int| 0 <= i < names.len() ==> is_valid_account_id(#[trigger] names[i])
}

/// The accounts that `names` are, where each is an account identifier.
pub fn accounts_from(names: &Vec<String>) -> (r: Option<Vec<AccountId>>)
    ensures
        r.is_some() == all_account_ids(keys_of(names@)),
        r matches Some(accounts) ==> keys_of(accounts@) == keys_of(names@),
{
    let mut accounts: Vec<AccountId> = Vec::new();
    let mut i: usize = 0;
    while i < names.len()
        invariant
            i <= names.len(),
            keys_of(accounts@) == keys_of(names@).take(i as int),
            all_account_ids(keys_of(names@).take(i as int)),
        decreases names.len() - i,
    {
        let Some(account) = AccountId::parse(names[i].as_str()) else {
            assert(!is_valid_account_id(keys_of(names@)[i as int]));
            return None;
        };
        let ghost before = keys_of(accounts@);
        accounts.push(account);
        assert(keys_of(accounts@) =~= before.push(account@));
        assert(keys_of(names@).take(i + 1) =~= keys_of(names@).take(i as int).push(account@));
        assert forall|j: int| 0 <= j < i + 1 implies is_valid_account_id(
            #[trigger] keys_of(names@).take(i + 1)[j],
        ) by {
            if j < i {
                assert(keys_of(names@).take(i + 1)[j] == keys_of(names@).take(i as int)[j]);
            }
        }
        i += 1;
    }
    assert(keys_of(names@).take(names@.len() as int) =~= keys_of(names@));
    Some(accounts)
}

/// The contract's answer to a check that `bytes` hold: a byte that tells
/// the kind of answer, then what the answer carries, and nothing behind
/// it. Accounts are account identifiers.
pub open spec fn read_check_result(bytes: Seq<u8>) -> Option<CheckResultView> {
    if bytes.len() == 0 {
        None
    } else {
        let body = bytes.skip(1);
        if bytes[0] == 0 {
            if body.len() == 0 {
                Some(CheckResultView::Success)
            } else {
                None
            }
        } else if bytes[0] == 1 {
            match read_text_list(body) {
                Some((names, rest)) => if rest.len() == 0 && all_account_ids(names) {
                    Some(CheckResultView::AccountNotExist(names))
                } else {
                    None
                },
                None => None,
            }
        } else if bytes[0] == 2 {
            match read_balances(body) {
                Some((entries, rest)) => if rest.len() == 0 {
                    Some(CheckResultView::AccountAmount(entries))
                } else {
                    None
                },
                None => None,
            }
        } else if bytes[0] == 3 {
            match read_exact_uint(body, 16) {
                Some(amount) => Some(CheckResultView::TotalSupply(amount as u128)),
                None => None,
            }
        } else if bytes[0] == 4 {
            match read_exact_uint(body, 8) {
                Some(usage) => Some(CheckResultView::StorageUsage(usage as u64)),
                None => None,
            }
        } else if bytes[0] == 5 {
            match read_text_list(body) {
                Some((proofs, rest)) => if rest.len() == 0 {
                    Some(CheckResultView::Proof(proofs))
                } else {
                    None
                },
                None => None,
            }
        } else {
            None
        }
    }
}

impl MigrationCheckResult {
    /// Reads the contract's answer to a check.
    pub fn decode(bytes: &[u8]) -> (r: Option<MigrationCheckResult>)
        ensures
            r is None ==> read_check_result(bytes@) is None,
            r matches Some(result) ==> read_check_result(bytes@) == Some(result@),
    {
        if bytes.len() == 0 {
            return None;
        }
        let kind = bytes[0];
        let body = vstd::slice::slice_subrange(bytes, 1, bytes.len());
        assert(body@ =~= bytes@.skip(1));
        if kind == 0 {
            if body.len() == 0 {
                Some(MigrationCheckResult::Success)
            } else {
                None
            }
        } else if kind == 1 {
            let Some((names, rest)) = take_text_list(body) else {
                return None;
            };
            if rest.len() != 0 {
                return None;
            }
            match accounts_from(&names) {
                Some(accounts) => Some(MigrationCheckResult::AccountNotExist(accounts)),
                None => None,
            }
        } else if kind == 2 {
            let Some((accounts, rest)) = AccountMap::take(body) else {
                return None;
            };
            if rest.len() != 0 {
                return None;
            }
            Some(MigrationCheckResult::AccountAmount(accounts))
        } else if kind == 3 {
            match exact_u128(body) {
                Some(amount) => Some(MigrationCheckResult::TotalSupply(amount)),
                None => None,
            }
        } else if kind == 4 {
            match exact_u64(body) {
                Some(usage) => Some(MigrationCheckResult::StorageUsage(usage)),
                None => None,
            }
        } else if kind == 5 {
            let Some((proofs, rest)) = take_text_list(body) else {
                return None;
            };
            if rest.len() != 0 {
                return None;
            }
            Some(MigrationCheckResult::Proof(proofs))
        } else {
            None
        }
    }
}

/// What an optional number holds.
pub open spec fn optional_number(value: Option<u128>) -> Option<nat> {
    match value {
        Some(v) => Some(v as nat),
        None => None,
    }
}

/// What an optional storage usage holds.
pub open spec fn optional_usage(value: Option<u64>) -> Option<nat> {
    match value {
        Some(v) => Some(v as nat),
        None => None,
    }
}

/// The bytes of a call, given the balances as they are written: the
/// balances, the total supply, the storage usage, the used proofs.
pub open spec fn payload_with(
    balances: Seq<u8>,
    total_supply: Option<u128>,
    account_storage_usage: Option<u64>,
    used_proofs: Seq<Seq<char>>,
) -> Option<Seq<u8>> {
    match text_list_written(used_proofs) {
        Some(proofs) => Some(
            balances + optional_written(optional_number(total_supply), 16) + optional_written(
                optional_usage(account_storage_usage),
                8,
            ) + proofs,
        ),
        None => None,
    }
}

/// The bytes that carry `input` to the target contract, for the commit and
/// for the check alike. Nothing where a part cannot be written.
pub open spec fn payload_written(input: MigrationInputView) -> Option<Seq<u8>> {
    match sorted_pairs_written(entry_keys(input.accounts), entry_amounts(input.accounts)) {
        Some(balances) => payload_with(
            balances,
            input.total_supply,
            input.account_storage_usage,
            input.used_proofs,
        ),
        None => None,
    }
}

impl MigrationInputData {
    /// Puts a call together behind the balances as they are written.
    pub fn assemble(
        balances: Vec<u8>,
        total_supply: Option<u128>,
        account_storage_usage: Option<u64>,
        used_proofs: &Vec<String>,
    ) -> (r: Option<Vec<u8>>)
        ensures
            r is None ==> payload_with(
                balances@,
                total_supply,
                account_storage_usage,
                keys_of(used_proofs@),
            ) is None,
            r matches Some(bytes) ==> payload_with(
                balances@,
                total_supply,
                account_storage_usage,
                keys_of(used_proofs@),
            ) == Some(bytes@),
    {
        let mut bytes = balances;
        put_optional_u128(&mut bytes, total_supply);
        put_optional_u64(&mut bytes, account_storage_usage);
        if put_text_list(&mut bytes, used_proofs) {
            Some(bytes)
        } else {
            None
        }
    }

    /// The bytes that carry the call to the target contract.
    pub fn payload(&self) -> (r: Option<Vec<u8>>)
        ensures
            r is None ==> payload_written(self@) is None,
            r matches Some(bytes) ==> payload_written(self@) == Some(bytes@),
    {
        let names = self.accounts.names();
        let Some(balances) = sorted_pairs_bytes(&names, self.accounts.amounts()) else {
            return None;
        };
        MigrationInputData::assemble(
            balances,
            self.total_supply,
            self.account_storage_usage,
            &self.used_proofs,
        )
    }
}

} // verus!
