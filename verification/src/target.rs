//! What the target contract has to do with the calls of a migration: a
//! model of its ledger, of taking a batch in and of checking one, against
//! which a migration can be tried out.

use vstd::prelude::*;
use crate::account::AccountId;
use crate::keyset::{keys_of, lemma_with_keys_grows, with_all_keys, KeySet};
use crate::ledger::{
    balance_of, entry_keys, lemma_with_entries_balance, with_entries, with_entry, AccountMap, Entry,
};
use crate::migration::{
    CheckResultView, MigrationCheckResult, MigrationInputData, MigrationInputView,
};

verus! {

/// The ledger of a target contract.
#[derive(Debug, Clone)]
pub struct TargetLedger {
    pub accounts: AccountMap,
    pub proofs: KeySet<String>,
    pub total_supply: u128,
    pub account_storage_usage: u64,
}

/// What a `TargetLedger` holds.
pub struct TargetView {
    pub accounts: Seq<Entry>,
    pub proofs: Seq<Seq<char>>,
    pub total_supply: u128,
    pub account_storage_usage: u64,
}

impl View for TargetLedger {
    type V = TargetView;

    open spec fn view(&self) -> TargetView {
        TargetView {
            accounts: self.accounts.entries(),
            proofs: self.proofs.keys(),
            total_supply: self.total_supply,
            account_storage_usage: self.account_storage_usage,
        }
    }
}

/// The accounts among the first `n` of `accounts` that `target` has no
/// balance for.
pub open spec fn missing_accounts(target: Seq<Entry>, accounts: Seq<Entry>, n: nat) -> Seq<
    Seq<char>,
>
    decreases n,
{
    if n == 0 {
        Seq::empty()
    } else {
        let before = missing_accounts(target, accounts, (n - 1) as nat);
        if balance_of(target, accounts[n - 1].0) is None {
            before.push(accounts[n - 1].0)
        } else {
            before
        }
    }
}

/// The accounts among the first `n` of `accounts` for which `target` has
/// another balance, each with the balance that `target` has.
pub open spec fn different_accounts(target: Seq<Entry>, accounts: Seq<Entry>, n: nat) -> Seq<Entry>
    decreases n,
{
    if n == 0 {
        Seq::empty()
    } else {
        let before = different_accounts(target, accounts, (n - 1) as nat);
        match balance_of(target, accounts[n - 1].0) {
            Some(held) => if held != accounts[n - 1].1 {
                with_entry(before, accounts[n - 1].0, held)
            } else {
                before
            },
            None => before,
        }
    }
}

/// The proofs among the first `n` of `proofs` that are not among `target`.
pub open spec fn missing_proofs(target: Seq<Seq<char>>, proofs: Seq<Seq<char>>, n: nat) -> Seq<
    Seq<char>,
>
    decreases n,
{
    if n == 0 {
        Seq::empty()
    } else {
        let before = missing_proofs(target, proofs, (n - 1) as nat);
        if target.contains(proofs[n - 1]) {
            before
        } else {
            before.push(proofs[n - 1])
        }
    }
}

impl TargetView {
    /// The ledger after a call was taken in: its balances set, its proofs
    /// added, its totals taken over where it carries them.
    pub open spec fn migrated(self, input: MigrationInputView) -> TargetView {
        TargetView {
            accounts: with_entries(self.accounts, input.accounts, input.accounts.len()),
            proofs: with_all_keys(self.proofs, input.used_proofs),
            total_supply: match input.total_supply {
                Some(amount) => amount,
                None => self.total_supply,
            },
            account_storage_usage: match input.account_storage_usage {
                Some(usage) => usage,
                None => self.account_storage_usage,
            },
        }
    }

    /// The answer to the check of a call: the accounts of the call that the
    /// ledger does not have; else those with another balance; else the
    /// proofs that it does not have; else its storage usage or its total
    /// supply where the call names another; else `Success`.
    pub open spec fn checked(self, input: MigrationInputView) -> CheckResultView {
        let missing = missing_accounts(self.accounts, input.accounts, input.accounts.len());
        let different = different_accounts(self.accounts, input.accounts, input.accounts.len());
        let proofs = missing_proofs(self.proofs, input.used_proofs, input.used_proofs.len());
        if missing.len() > 0 {
            CheckResultView::AccountNotExist(missing)
        } else if different.len() > 0 {
            CheckResultView::AccountAmount(different)
        } else if proofs.len() > 0 {
            CheckResultView::Proof(proofs)
        } else if input.account_storage_usage is Some && input.account_storage_usage != Some(
            self.account_storage_usage,
        ) {
            CheckResultView::StorageUsage(self.account_storage_usage)
        } else if input.total_supply is Some && input.total_supply != Some(self.total_supply) {
            CheckResultView::TotalSupply(self.total_supply)
        } else {
            CheckResultView::Success
        }
    }
}

impl TargetLedger {
    /// A ledger that holds nothing.
    pub fn new() -> (target: Self)
        ensures
            target@ == (TargetView {
                accounts: Seq::empty(),
                proofs: Seq::empty(),
                total_supply: 0,
                account_storage_usage: 0,
            }),
    {
        TargetLedger {
            accounts: AccountMap::new(),
            proofs: KeySet::new(),
            total_supply: 0,
            account_storage_usage: 0,
        }
    }

    /// Takes a call in.
    pub fn migrate(&mut self, input: &MigrationInputData)
        ensures
            final(self)@ == old(self)@.migrated(input@),
    {
        self.accounts.extend(&input.accounts);
        self.proofs.extend(&input.used_proofs);
        if let Some(amount) = input.total_supply {
            self.total_supply = amount;
        }
        if let Some(usage) = input.account_storage_usage {
            self.account_storage_usage = usage;
        }
    }

    /// Checks a call against the ledger.
    pub fn check_migration_correctness(&self, input: &MigrationInputData) -> (result:
        MigrationCheckResult)
        ensures
            result@ == self@.checked(input@),
    {
        let ghost held = self.accounts.entries();
        let ghost wanted = input.accounts.entries();
        let n = input.accounts.len();
        let mut missing: Vec<AccountId> = Vec::new();
        let mut different = AccountMap::new();
        let mut i: usize = 0;
        assert(keys_of(missing@) =~= Seq::<Seq<char>>::empty());
        while i < n
            invariant
                i <= n,
                n == wanted.len(),
                held == self.accounts.entries(),
                wanted == input.accounts.entries(),
                keys_of(missing@) == missing_accounts(held, wanted, i as nat),
                different.entries() == different_accounts(held, wanted, i as nat),
            decreases n - i,
        {
            let account = input.accounts.account_at(i);
            let amount = input.accounts.amount_at(i);
            match self.accounts.get(account) {
                Some(value) => {
                    if value != amount {
                        different.insert(account.clone(), value);
                    }
                },
                None => {
                    let ghost before = keys_of(missing@);
                    let copy = account.clone();
                    missing.push(copy);
                    assert(keys_of(missing@) =~= before.push(copy@));
                },
            }
            i += 1;
        }
        if missing.len() > 0 {
            return MigrationCheckResult::AccountNotExist(missing);
        }
        if different.len() > 0 {
            return MigrationCheckResult::AccountAmount(different);
        }
        let ghost known = self.proofs.keys();
        let ghost used = keys_of(input.used_proofs@);
        let mut proofs: Vec<String> = Vec::new();
        let mut j: usize = 0;
        assert(keys_of(proofs@) =~= Seq::<Seq<char>>::empty());
        while j < input.used_proofs.len()
            invariant
                j <= input.used_proofs.len(),
                known == self.proofs.keys(),
                used == keys_of(input.used_proofs@),
                keys_of(proofs@) == missing_proofs(known, used, j as nat),
            decreases input.used_proofs.len() - j,
        {
            if !self.proofs.contains(&input.used_proofs[j]) {
                let ghost before = keys_of(proofs@);
                let copy = input.used_proofs[j].clone();
                proofs.push(copy);
                assert(keys_of(proofs@) =~= before.push(copy@));
            }
            j += 1;
        }
        if proofs.len() > 0 {
            return MigrationCheckResult::Proof(proofs);
        }
        if let Some(usage) = input.account_storage_usage {
            if usage != self.account_storage_usage {
                return MigrationCheckResult::StorageUsage(self.account_storage_usage);
            }
        }
        if let Some(amount) = input.total_supply {
            if amount != self.total_supply {
                return MigrationCheckResult::TotalSupply(self.total_supply);
            }
        }
        MigrationCheckResult::Success
    }
}

/// No account is missing and none is different where the ledger has every
/// account with the balance that is asked for.
proof fn lemma_all_held(target: Seq<Entry>, accounts: Seq<Entry>, n: nat)
    requires
        n <= accounts.len(),
        forall|j: int|
            0 <= j < n ==> balance_of(target, (#[trigger] accounts[j]).0) == Some(accounts[j].1),
    ensures
        missing_accounts(target, accounts, n).len() == 0,
        different_accounts(target, accounts, n).len() == 0,
    decreases n,
{
    if n > 0 {
        lemma_all_held(target, accounts, (n - 1) as nat);
        assert(balance_of(target, accounts[n - 1].0) == Some(accounts[n - 1].1));
    }
}

/// No proof is missing where the ledger has every proof that is asked for.
proof fn lemma_all_proofs_held(target: Seq<Seq<char>>, proofs: Seq<Seq<char>>, n: nat)
    requires
        n <= proofs.len(),
        forall|j: int| 0 <= j < n ==> target.contains(#[trigger] proofs[j]),
    ensures
        missing_proofs(target, proofs, n).len() == 0,
    decreases n,
{
    if n > 0 {
        lemma_all_proofs_held(target, proofs, (n - 1) as nat);
    }
}

/// A call that was taken in checks as `Success`, whatever the ledger held
/// before.
pub proof fn lemma_migrated_is_correct(target: TargetView, input: MigrationInputView)
    requires
        entry_keys(input.accounts).no_duplicates(),
    ensures
        target.migrated(input).checked(input) == CheckResultView::Success,
{
    let after = target.migrated(input);
    let n = input.accounts.len();
    assert forall|j: int| 0 <= j < n implies balance_of(
        after.accounts,
        (#[trigger] input.accounts[j]).0,
    ) == Some(input.accounts[j].1) by {
        lemma_with_entries_balance(target.accounts, input.accounts, n, j);
    }
    lemma_all_held(after.accounts, input.accounts, n);
    lemma_with_keys_grows(target.proofs, input.used_proofs, input.used_proofs.len());
    lemma_all_proofs_held(after.proofs, input.used_proofs, input.used_proofs.len());
}

/// The accounts that a check reports as missing are exactly the accounts of
/// the call that the ledger has no balance for: where there is one, the
/// answer is `AccountNotExist` with all of them and no other.
pub proof fn lemma_missing_are_listed(target: TargetView, input: MigrationInputView)
    ensures
        ({
            let missing = missing_accounts(
                target.accounts,
                input.accounts,
                input.accounts.len(),
            );
            &&& forall|name: Seq<char>|
                missing.contains(name) <==> entry_keys(input.accounts).contains(name)
                    && balance_of(target.accounts, name) is None
            &&& missing.len() > 0 ==> target.checked(input) == CheckResultView::AccountNotExist(
                missing,
            )
            &&& missing.len() == 0 ==> !(target.checked(input) is AccountNotExist)
        }),
{
    lemma_missing_members(target.accounts, input.accounts, input.accounts.len());
    assert(entry_keys(input.accounts).take(input.accounts.len() as int) =~= entry_keys(
        input.accounts,
    ));
}

/// The members of the missing accounts among the first `n`.
proof fn lemma_missing_members(target: Seq<Entry>, accounts: Seq<Entry>, n: nat)
    requires
        n <= accounts.len(),
    ensures
        forall|name: Seq<char>|
            missing_accounts(target, accounts, n).contains(name) <==> entry_keys(accounts).take(
                n as int,
            ).contains(name) && balance_of(target, name) is None,
    decreases n,
{
    let missing = missing_accounts(target, accounts, n);
    let keys = entry_keys(accounts).take(n as int);
    if n == 0 {
    } else {
        let before = missing_accounts(target, accounts, (n - 1) as nat);
        let keys_before = entry_keys(accounts).take(n - 1);
        let last = accounts[n - 1].0;
        lemma_missing_members(target, accounts, (n - 1) as nat);
        assert(keys =~= keys_before.push(last));
        let absent = balance_of(target, last) is None;
        assert forall|name: Seq<char>| missing.contains(name) <==> keys.contains(name)
            && balance_of(target, name) is None by {
            let in_before = before.contains(name);
            let in_keys_before = keys_before.contains(name);
            assert(in_before <==> in_keys_before && balance_of(target, name) is None);
            if missing.contains(name) {
                let i = choose|i: int| 0 <= i < missing.len() && missing[i] == name;
                if i < before.len() {
                    assert(before[i] == name);
                    assert(in_before);
                    let k = choose|k: int| 0 <= k < keys_before.len() && keys_before[k] == name;
                    assert(keys[k] == name);
                } else {
                    assert(absent && name == last);
                    assert(keys[n - 1] == name);
                }
            }
            if keys.contains(name) && balance_of(target, name) is None {
                let k = choose|k: int| 0 <= k < keys.len() && keys[k] == name;
                if k < n - 1 {
                    assert(keys_before[k] == name);
                    assert(in_keys_before);
                    assert(in_before);
                    let i = choose|i: int| 0 <= i < before.len() && before[i] == name;
                    assert(missing[i] == name);
                } else {
                    assert(name == last);
                    assert(missing[before.len() as int] == name);
                }
            }
        }
    }
}

} // verus!
