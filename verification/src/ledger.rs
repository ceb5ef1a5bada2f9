//! Balances by account.

use vstd::prelude::*;
use crate::account::{is_valid_account_id, AccountId};
use crate::wire::{read_text, read_uint, take_text, take_u128, take_u32};
use crate::keyset::KeySet;

verus! {

/// One account with its balance.
pub type Entry = (Seq<char>, u128);

/// The position of the first entry with key `key`, or the length.
pub open spec fn entry_position(entries: Seq<Entry>, key: Seq<char>) -> int
    decreases entries.len(),
{
    if entries.len() == 0 {
        0
    } else if entries[0].0 == key {
        0
    } else {
        1 + entry_position(entries.drop_first(), key)
    }
}

/// `entries` with the balance of `key` set to `amount`: in place where the
/// key is there, at the end where it is new.
pub open spec fn with_entry(entries: Seq<Entry>, key: Seq<char>, amount: u128) -> Seq<Entry> {
    let at = entry_position(entries, key);
    if at < entries.len() {
        entries.update(at, (key, amount))
    } else {
        entries.push((key, amount))
    }
}

/// `entries` with the first `n` of `more` set one after the other.
pub open spec fn with_entries(entries: Seq<Entry>, more: Seq<Entry>, n: nat) -> Seq<Entry>
    decreases n,
{
    if n == 0 {
        entries
    } else {
        with_entry(with_entries(entries, more, (n - 1) as nat), more[n - 1].0, more[n - 1].1)
    }
}

/// The keys of `entries`, in order.
pub open spec fn entry_keys(entries: Seq<Entry>) -> Seq<Seq<char>> {
    entries.map_values(|e: Entry| e.0)
}

/// The balances of `entries`, in order.
pub open spec fn entry_amounts(entries: Seq<Entry>) -> Seq<u128> {
    entries.map_values(|e: Entry| e.1)
}

/// The map that `entries` spell out.
pub open spec fn entries_map(entries: Seq<Entry>) -> Map<Seq<char>, u128> {
    Map::new(
        |k: Seq<char>| entry_position(entries, k) < entries.len(),
        |k: Seq<char>| entries[entry_position(entries, k)].1,
    )
}

/// The balance that `entries` give `key`, if they give it one.
pub open spec fn balance_of(entries: Seq<Entry>, key: Seq<char>) -> Option<u128> {
    if entry_position(entries, key) < entries.len() {
        Some(entries[entry_position(entries, key)].1)
    } else {
        None
    }
}

/// Setting the balance of a key gives that key the balance and leaves every
/// other key with what it had.
pub proof fn lemma_with_entry_balance(
    entries: Seq<Entry>,
    key: Seq<char>,
    amount: u128,
    other: Seq<char>,
)
    ensures
        balance_of(with_entry(entries, key, amount), key) == Some(amount),
        other != key ==> balance_of(with_entry(entries, key, amount), other) == balance_of(
            entries,
            other,
        ),
        with_entry(entries, key, amount).len() >= entries.len(),
{
    let after = with_entry(entries, key, amount);
    let at = entry_position(entries, key);
    lemma_entry_position(entries, key);
    assert forall|i: int| 0 <= i < at implies (#[trigger] after[i]).0 != key by {
        assert(after[i] == entries[i]);
    }
    lemma_entry_position_is(after, key, at);
    if other != key {
        let p = entry_position(entries, other);
        lemma_entry_position(entries, other);
        assert forall|i: int| 0 <= i < p implies (#[trigger] after[i]).0 != other by {
            if i != at {
                assert(after[i] == entries[i]);
            }
        }
        if p < entries.len() {
            assert(p != at);
            assert(after[p] == entries[p]);
            lemma_entry_position_is(after, other, p);
        } else {
            assert forall|i: int| 0 <= i < after.len() implies (#[trigger] after[i]).0
                != other by {
                if i < entries.len() && i != at {
                    assert(after[i] == entries[i]);
                }
            }
            lemma_entry_position_is(after, other, after.len() as int);
        }
    }
}

/// Setting balances whose keys are all different gives each key its
/// balance.
pub proof fn lemma_with_entries_balance(entries: Seq<Entry>, more: Seq<Entry>, n: nat, j: int)
    requires
        n <= more.len(),
        0 <= j < n,
        entry_keys(more).no_duplicates(),
    ensures
        balance_of(with_entries(entries, more, n), more[j].0) == Some(more[j].1),
    decreases n,
{
    let before = with_entries(entries, more, (n - 1) as nat);
    lemma_with_entry_balance(before, more[n - 1].0, more[n - 1].1, more[j].0);
    if j < n - 1 {
        lemma_with_entries_balance(entries, more, (n - 1) as nat, j);
        assert(entry_keys(more)[j] != entry_keys(more)[n - 1]);
    }
}

/// Where the first entry with `key` stands.
pub proof fn lemma_entry_position(entries: Seq<Entry>, key: Seq<char>)
    ensures
        0 <= entry_position(entries, key) <= entries.len(),
        entry_position(entries, key) < entries.len() ==> entries[entry_position(
            entries,
            key,
        )].0 == key,
        forall|i: int| 0 <= i < entry_position(entries, key) ==> (#[trigger] entries[i]).0 != key,
    decreases entries.len(),
{
    if entries.len() > 0 && entries[0].0 != key {
        let rest = entries.drop_first();
        lemma_entry_position(rest, key);
        assert forall|i: int| 0 <= i < entry_position(entries, key) implies (#[trigger] entries[i]).0
            != key by {
            if i > 0 {
                assert(entries[i] == rest[i - 1]);
            }
        }
    }
}

/// A position that holds `key`, before which no entry holds it, is the
/// key's position.
pub proof fn lemma_entry_position_is(entries: Seq<Entry>, key: Seq<char>, at: int)
    requires
        0 <= at <= entries.len(),
        at < entries.len() ==> entries[at].0 == key,
        forall|i: int| 0 <= i < at ==> (#[trigger] entries[i]).0 != key,
    ensures
        entry_position(entries, key) == at,
{
    lemma_entry_position(entries, key);
    let p = entry_position(entries, key);
    if p < at {
        assert(entries[p].0 == key);
    }
}

/// Balances by account. No account occurs twice, and accounts keep the order
/// in which they first came.
#[derive(Debug)]
pub struct AccountMap {
    accounts: KeySet<AccountId>,
    amounts: Vec<u128>,
}

impl View for AccountMap {
    type V = Map<Seq<char>, u128>;

    open spec fn view(&self) -> Map<Seq<char>, u128> {
        entries_map(self.entries())
    }
}

impl AccountMap {
    #[verifier::type_invariant]
    spec fn aligned(self) -> bool {
        self.accounts.keys().len() == self.amounts@.len()
    }

    /// The accounts with their balances, in the order in which the accounts
    /// first came.
    pub closed spec fn entries(&self) -> Seq<Entry> {
        Seq::new(self.amounts@.len(), |i: int| (self.accounts.keys()[i], self.amounts@[i]))
    }

    /// The empty map.
    pub fn new() -> (m: Self)
        ensures
            m.entries() == Seq::<Entry>::empty(),
    {
        let m = AccountMap { accounts: KeySet::new(), amounts: Vec::new() };
        assert(m.entries() =~= Seq::<Entry>::empty());
        m
    }

    /// The number of accounts.
    pub fn len(&self) -> (n: usize)
        ensures
            n == self.entries().len(),
            n == self@.dom().len(),
            entry_keys(self.entries()).no_duplicates(),
    {
        proof {
            use_type_invariant(self);
        }
        let n = self.accounts.len();
        proof {
            let entries = self.entries();
            let keys = self.accounts.keys();
            assert(entry_keys(entries) =~= keys);
            assert(self@.dom() =~= keys.to_set()) by {
                assert forall|k: Seq<char>| self@.dom().contains(k) == keys.to_set().contains(
                    k,
                ) by {
                    lemma_entry_position(entries, k);
                    let p = entry_position(entries, k);
                    if p < entries.len() {
                        assert(keys[p] == k);
                    }
                    if keys.to_set().contains(k) {
                        let i = choose|i: int| 0 <= i < keys.len() && keys[i] == k;
                        assert(entries[i].0 == k);
                    }
                }
            }
        }
        n
    }

    /// The account at position `i`.
    pub fn account_at(&self, i: usize) -> (account: &AccountId)
        requires
            i < self.entries().len(),
        ensures
            account@ == self.entries()[i as int].0,
    {
        proof {
            use_type_invariant(self);
        }
        self.accounts.get(i)
    }

    /// The balance at position `i`.
    pub fn amount_at(&self, i: usize) -> (amount: u128)
        requires
            i < self.entries().len(),
        ensures
            amount == self.entries()[i as int].1,
    {
        self.amounts[i]
    }

    /// The names of the accounts, in order.
    pub fn names(&self) -> (names: Vec<String>)
        ensures
            crate::keyset::keys_of(names@) == entry_keys(self.entries()),
    {
        proof {
            use_type_invariant(self);
        }
        let n = self.accounts.len();
        let mut names: Vec<String> = Vec::new();
        let mut i: usize = 0;
        assert(crate::keyset::keys_of(names@) =~= entry_keys(self.entries()).take(0));
        while i < n
            invariant
                i <= n,
                n == self.entries().len(),
                n == self.accounts.keys().len(),
                crate::keyset::keys_of(names@) == entry_keys(self.entries()).take(i as int),
            decreases n - i,
        {
            let ghost before = crate::keyset::keys_of(names@);
            let name = self.accounts.get(i).as_str().to_owned();
            names.push(name);
            assert(crate::keyset::keys_of(names@) =~= before.push(name@));
            assert(entry_keys(self.entries()).take(i + 1) =~= entry_keys(self.entries()).take(
                i as int,
            ).push(name@));
            i += 1;
        }
        assert(entry_keys(self.entries()).take(n as int) =~= entry_keys(self.entries()));
        names
    }

    /// The balances, in the order of the accounts.
    pub fn amounts(&self) -> (amounts: &Vec<u128>)
        ensures
            amounts@ == entry_amounts(self.entries()),
    {
        assert(self.amounts@ =~= entry_amounts(self.entries()));
        &self.amounts
    }

    /// The balance of `account`, if it has one.
    pub fn get(&self, account: &AccountId) -> (amount: Option<u128>)
        ensures
            amount == if self@.dom().contains(account@) {
                Some(self@[account@])
            } else {
                None
            },
            amount == balance_of(self.entries(), account@),
    {
        proof {
            use_type_invariant(self);
        }
        let ghost entries = self.entries();
        let _ = self.accounts.len();
        match self.accounts.position(account) {
            Some(i) => {
                proof {
                    assert(entries[i as int].0 == account@);
                    assert forall|j: int| 0 <= j < i implies (#[trigger] entries[j]).0
                        != account@ by {
                        assert(self.accounts.keys()[j] != self.accounts.keys()[i as int]);
                    }
                    lemma_entry_position_is(entries, account@, i as int);
                }
                Some(self.amounts[i])
            },
            None => {
                proof {
                    assert forall|j: int| 0 <= j < entries.len() implies (#[trigger] entries[j]).0
                        != account@ by {
                        assert(self.accounts.keys()[j] == entries[j].0);
                        assert(self.accounts@.contains(self.accounts.keys()[j]));
                    }
                    lemma_entry_position_is(entries, account@, entries.len() as int);
                }
                None
            },
        }
    }

    /// Sets the balance of `account` to `amount`.
    pub fn insert(&mut self, account: AccountId, amount: u128)
        ensures
            final(self).entries() == with_entry(old(self).entries(), account@, amount),
    {
        proof {
            use_type_invariant(&*self);
        }
        let ghost entries = self.entries();
        let ghost key = account@;
        let _ = self.accounts.len();
        match self.accounts.position(&account) {
            Some(i) => {
                proof {
                    assert forall|j: int| 0 <= j < i implies (#[trigger] entries[j]).0 != key by {
                        assert(self.accounts.keys()[j] != self.accounts.keys()[i as int]);
                    }
                    lemma_entry_position_is(entries, key, i as int);
                }
                let mut taken = AccountMap::new();
                std::mem::swap(&mut taken, self);
                let AccountMap { accounts, mut amounts } = taken;
                amounts.set(i, amount);
                *self = AccountMap { accounts, amounts };
                assert(self.entries() =~= entries.update(i as int, (key, amount)));
            },
            None => {
                proof {
                    assert forall|j: int| 0 <= j < entries.len() implies (#[trigger] entries[j]).0
                        != key by {
                        assert(self.accounts.keys()[j] == entries[j].0);
                        assert(self.accounts@.contains(self.accounts.keys()[j]));
                    }
                    lemma_entry_position_is(entries, key, entries.len() as int);
                }
                let mut taken = AccountMap::new();
                std::mem::swap(&mut taken, self);
                let AccountMap { mut accounts, mut amounts } = taken;
                amounts.push(amount);
                accounts.insert(account);
                *self = AccountMap { accounts, amounts };
                assert(self.entries() =~= entries.push((key, amount)));
            },
        }
    }

    /// Sets the balance of every account of `other`, in `other`'s order.
    pub fn extend(&mut self, other: &AccountMap)
        ensures
            final(self).entries() == with_entries(
                old(self).entries(),
                other.entries(),
                other.entries().len(),
            ),
    {
        let n = other.len();
        let mut i: usize = 0;
        while i < n
            invariant
                i <= n,
                n == other.entries().len(),
                self.entries() == with_entries(old(self).entries(), other.entries(), i as nat),
            decreases n - i,
        {
            self.insert(other.account_at(i).clone(), other.amount_at(i));
            i += 1;
        }
    }
}

impl Clone for AccountMap {
    fn clone(&self) -> (r: Self)
        ensures
            r.entries() == self.entries(),
    {
        proof {
            use_type_invariant(self);
        }
        let accounts = self.accounts.clone();
        let amounts = self.amounts.clone();
        assert(amounts@ =~= self.amounts@);
        let r = AccountMap { accounts, amounts };
        assert(r.entries() =~= self.entries());
        r
    }
}

/// `count` pairs of a text and a 128-bit number at the front of `buf`, one
/// after the other.
pub open spec fn read_pairs(buf: Seq<u8>, count: nat) -> Option<(Seq<Entry>, Seq<u8>)>
    decreases count,
{
    if count == 0 {
        Some((Seq::empty(), buf))
    } else {
        match read_pairs(buf, (count - 1) as nat) {
            Some((pairs, rest)) => match read_text(rest) {
                Some((name, after_name)) => match read_uint(after_name, 16) {
                    Some((amount, left)) => Some((pairs.push((name, amount as u128)), left)),
                    None => None,
                },
                None => None,
            },
            None => None,
        }
    }
}

/// Whether every name among `pairs` is an account identifier.
pub open spec fn names_valid(pairs: Seq<Entry>) -> bool {
    forall|i: int| 0 <= i < pairs.len() ==> is_valid_account_id((#[trigger] pairs[i]).0)
}

/// Balances by account at the front of `buf`: a 32-bit count, then that
/// many pairs of an account and its balance. A later balance of an account
/// replaces an earlier one.
pub open spec fn read_balances(buf: Seq<u8>) -> Option<(Seq<Entry>, Seq<u8>)> {
    match read_uint(buf, 4) {
        Some((count, rest)) => match read_pairs(rest, count) {
            Some((pairs, left)) => if names_valid(pairs) {
                Some((with_entries(Seq::empty(), pairs, pairs.len()), left))
            } else {
                None
            },
            None => None,
        },
        None => None,
    }
}

/// Pairs that cannot be read up to a point cannot be read beyond it, and
/// an invalid name among the first stays among all.
pub proof fn lemma_read_pairs_more(buf: Seq<u8>, n: nat, m: nat)
    requires
        n <= m,
    ensures
        read_pairs(buf, n) is None ==> read_pairs(buf, m) is None,
        read_pairs(buf, n) is Some && read_pairs(buf, m) is Some ==> read_pairs(buf, n).unwrap().0
            == read_pairs(buf, m).unwrap().0.take(n as int),
        read_pairs(buf, n) matches Some((pairs, _)) ==> pairs.len() == n,
    decreases m,
{
    if n < m {
        lemma_read_pairs_more(buf, n, (m - 1) as nat);
        lemma_read_pairs_more(buf, (m - 1) as nat, (m - 1) as nat);
        if read_pairs(buf, n) is Some && read_pairs(buf, m) is Some {
            let all = read_pairs(buf, m).unwrap().0;
            let most = read_pairs(buf, (m - 1) as nat).unwrap().0;
            assert(most =~= all.take(m - 1));
            assert(all.take(m - 1).take(n as int) =~= all.take(n as int));
        }
    } else {
        if n > 0 {
            lemma_read_pairs_more(buf, (n - 1) as nat, (n - 1) as nat);
        }
        if read_pairs(buf, n) is Some {
            let all = read_pairs(buf, n).unwrap().0;
            assert(all.take(n as int) =~= all);
        }
    }
}

impl AccountMap {
    /// Reads balances by account: a 32-bit count, then that many pairs of
    /// an account and its balance.
    pub fn take<'a>(buf: &'a [u8]) -> (r: Option<(AccountMap, &'a [u8])>)
        ensures
            r is None ==> read_balances(buf@) is None,
            r matches Some((map, rest)) ==> read_balances(buf@) == Some((map.entries(), rest@)),
    {
        let Some((count, start)) = take_u32(buf) else {
            return None;
        };
        let mut map = AccountMap::new();
        let mut rest = start;
        let mut i: u32 = 0;
        let ghost mut pairs: Seq<Entry> = Seq::empty();
        while i < count
            invariant
                i <= count,
                read_uint(buf@, 4) == Some((count as nat, start@)),
                read_pairs(start@, i as nat) == Some((pairs, rest@)),
                pairs.len() == i,
                names_valid(pairs),
                map.entries() == with_entries(Seq::empty(), pairs, i as nat),
            decreases count - i,
        {
            proof {
                lemma_read_pairs_more(start@, (i + 1) as nat, count as nat);
            }
            let Some((name, after_name)) = take_text(rest) else {
                return None;
            };
            let Some((amount, left)) = take_u128(after_name) else {
                return None;
            };
            let ghost next = pairs.push((name@, amount));
            assert(read_pairs(start@, (i + 1) as nat) == Some((next, left@)));
            let Some(account) = AccountId::parse(name.as_str()) else {
                proof {
                    if read_pairs(start@, count as nat) is Some {
                        let all = read_pairs(start@, count as nat).unwrap().0;
                        lemma_read_pairs_more(start@, count as nat, count as nat);
                        assert(all.take(i + 1) == next);
                        assert(all[i as int] == next[i as int]);
                        assert(!names_valid(all));
                    }
                }
                return None;
            };
            map.insert(account, amount);
            proof {
                assert(pairs.take(i as int) =~= next.take(i as int));
                lemma_with_entries_prefix(Seq::empty(), pairs, next, i as nat);
                assert forall|j: int| 0 <= j < next.len() implies is_valid_account_id(
                    (#[trigger] next[j]).0,
                ) by {
                    if j < i {
                        assert(next[j] == pairs[j]);
                    }
                }
                pairs = next;
            }
            rest = left;
            i += 1;
        }
        Some((map, rest))
    }
}

/// Setting entries one after the other looks only at those that are set.
pub proof fn lemma_with_entries_prefix(entries: Seq<Entry>, a: Seq<Entry>, b: Seq<Entry>, n: nat)
    requires
        n <= a.len(),
        n <= b.len(),
        a.take(n as int) == b.take(n as int),
    ensures
        with_entries(entries, a, n) == with_entries(entries, b, n),
    decreases n,
{
    if n > 0 {
        assert(a.take(n as int).take(n - 1) =~= a.take(n - 1));
        assert(b.take(n as int).take(n - 1) =~= b.take(n - 1));
        lemma_with_entries_prefix(entries, a, b, (n - 1) as nat);
        assert(a[n - 1] == a.take(n as int)[n - 1]);
        assert(b[n - 1] == b.take(n as int)[n - 1]);
    }
}

} // verus!
