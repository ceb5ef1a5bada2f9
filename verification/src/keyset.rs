//! Insertion-ordered sets of named items.

use vstd::prelude::*;
use crate::account::AccountId;

verus! {

/// An item that is told apart by the text it carries.
pub trait Keyed: Sized {
    /// The text that identifies the item.
    spec fn key(&self) -> Seq<char>;

    /// Whether two items carry the same text.
    fn same_key(&self, other: &Self) -> (b: bool)
        ensures
            b == (self.key() == other.key()),
    ;

    /// A second item with the same text.
    fn duplicate(&self) -> (r: Self)
        ensures
            r.key() == self.key(),
    ;
}

impl Keyed for AccountId {
    open spec fn key(&self) -> Seq<char> {
        self@
    }

    fn same_key(&self, other: &Self) -> (b: bool) {
        self.same(other)
    }

    fn duplicate(&self) -> (r: Self) {
        self.clone()
    }
}

impl Keyed for String {
    open spec fn key(&self) -> Seq<char> {
        self@
    }

    fn same_key(&self, other: &Self) -> (b: bool) {
        *self == *other
    }

    fn duplicate(&self) -> (r: Self) {
        self.clone()
    }
}

/// The keys of a sequence of items, in order.
pub open spec fn keys_of<T: Keyed>(items: Seq<T>) -> Seq<Seq<char>> {
    items.map_values(|t: T| t.key())
}

/// `keys` with `key` at the end, unless it is there already.
pub open spec fn with_key(keys: Seq<Seq<char>>, key: Seq<char>) -> Seq<Seq<char>> {
    if keys.contains(key) {
        keys
    } else {
        keys.push(key)
    }
}

/// `keys` with the first `n` of `more` added one after the other.
pub open spec fn with_keys(keys: Seq<Seq<char>>, more: Seq<Seq<char>>, n: nat) -> Seq<Seq<char>>
    decreases n,
{
    if n == 0 {
        keys
    } else {
        with_key(with_keys(keys, more, (n - 1) as nat), more[n - 1])
    }
}

/// `keys` with all of `more` added one after the other.
pub open spec fn with_all_keys(keys: Seq<Seq<char>>, more: Seq<Seq<char>>) -> Seq<Seq<char>> {
    with_keys(keys, more, more.len())
}

/// Adding keys adds them to the set of keys, and nothing else.
pub proof fn lemma_with_keys_set(keys: Seq<Seq<char>>, more: Seq<Seq<char>>, n: nat)
    requires
        n <= more.len(),
    ensures
        with_keys(keys, more, n).to_set() == keys.to_set().union(more.take(n as int).to_set()),
    decreases n,
{
    if n == 0 {
        assert(more.take(0).to_set() =~= Set::<Seq<char>>::empty());
        assert(keys.to_set().union(Set::<Seq<char>>::empty()) =~= keys.to_set());
    } else {
        let before = with_keys(keys, more, (n - 1) as nat);
        lemma_with_keys_set(keys, more, (n - 1) as nat);
        let key = more[n - 1];
        assert(more.take(n as int) =~= more.take(n - 1).push(key));
        more.take(n - 1).lemma_push_to_set_commute(key);
        if before.contains(key) {
            assert(before.to_set().contains(key));
            assert(before.to_set().insert(key) =~= before.to_set());
        } else {
            before.lemma_push_to_set_commute(key);
        }
        assert(with_key(before, key).to_set() =~= before.to_set().insert(key));
        assert(before.to_set().insert(key) =~= keys.to_set().union(
            more.take(n as int).to_set(),
        ));
    }
}

/// Adding keys that are all there already changes nothing.
pub proof fn lemma_with_keys_present(keys: Seq<Seq<char>>, more: Seq<Seq<char>>, n: nat)
    requires
        n <= more.len(),
        forall|i: int| 0 <= i < n ==> keys.contains(#[trigger] more[i]),
    ensures
        with_keys(keys, more, n) == keys,
    decreases n,
{
    if n > 0 {
        lemma_with_keys_present(keys, more, (n - 1) as nat);
    }
}

/// Adding keys keeps the keys that were there, in their places, and every
/// added key is there afterwards.
pub proof fn lemma_with_keys_grows(keys: Seq<Seq<char>>, more: Seq<Seq<char>>, n: nat)
    requires
        n <= more.len(),
    ensures
        keys.len() <= with_keys(keys, more, n).len(),
        with_keys(keys, more, n).take(keys.len() as int) == keys,
        forall|i: int| 0 <= i < n ==> with_keys(keys, more, n).contains(#[trigger] more[i]),
        forall|k: Seq<char>| keys.contains(k) ==> with_keys(keys, more, n).contains(k),
    decreases n,
{
    if n == 0 {
        assert(keys.take(keys.len() as int) =~= keys);
    } else {
        let before = with_keys(keys, more, (n - 1) as nat);
        let after = with_keys(keys, more, n);
        lemma_with_keys_grows(keys, more, (n - 1) as nat);
        let key = more[n - 1];
        assert(after.take(keys.len() as int) =~= before.take(keys.len() as int));
        assert forall|k: Seq<char>| before.contains(k) implies after.contains(k) by {
            let i = choose|i: int| 0 <= i < before.len() && before[i] == k;
            assert(after[i] == k);
        }
        if !before.contains(key) {
            assert(after[before.len() as int] == key);
        }
        assert forall|i: int| 0 <= i < n implies after.contains(#[trigger] more[i]) by {
            if i < n - 1 {
                assert(before.contains(more[i]));
            }
        }
    }
}

/// Adding the same keys a second time changes nothing.
pub proof fn lemma_with_all_keys_twice(keys: Seq<Seq<char>>, more: Seq<Seq<char>>)
    ensures
        with_all_keys(with_all_keys(keys, more), more) == with_all_keys(keys, more),
{
    lemma_with_keys_grows(keys, more, more.len());
    lemma_with_keys_present(with_all_keys(keys, more), more, more.len());
}

/// A set of items in which no key occurs twice. Items keep the order in
/// which they were first inserted.
#[derive(Debug)]
pub struct KeySet<T: Keyed> {
    items: Vec<T>,
}

impl<T: Keyed> View for KeySet<T> {
    type V = Set<Seq<char>>;

    open spec fn view(&self) -> Set<Seq<char>> {
        self.keys().to_set()
    }
}

impl<T: Keyed> KeySet<T> {
    #[verifier::type_invariant]
    spec fn distinct(self) -> bool {
        keys_of(self.items@).no_duplicates()
    }

    /// The keys in insertion order.
    pub closed spec fn keys(&self) -> Seq<Seq<char>> {
        keys_of(self.items@)
    }

    /// The empty set.
    pub fn new() -> (s: Self)
        ensures
            s.keys() == Seq::<Seq<char>>::empty(),
            s@ == Set::<Seq<char>>::empty(),
    {
        let s = KeySet { items: Vec::new() };
        assert(s.keys() =~= Seq::<Seq<char>>::empty());
        assert(s@ =~= Set::<Seq<char>>::empty());
        s
    }

    /// The number of items.
    pub fn len(&self) -> (n: usize)
        ensures
            n == self.keys().len(),
            n == self@.len(),
            self.keys().no_duplicates(),
    {
        proof {
            use_type_invariant(self);
            self.keys().unique_seq_to_set();
        }
        self.items.len()
    }

    /// Whether the set is empty.
    pub fn is_empty(&self) -> (b: bool)
        ensures
            b == (self.keys().len() == 0),
            b == (self@ == Set::<Seq<char>>::empty()),
    {
        let b = self.items.len() == 0;
        proof {
            if b {
                assert(self@ =~= Set::<Seq<char>>::empty());
            } else {
                assert(self.keys()[0] == self.keys()[0]);
                assert(self@.contains(self.keys()[0]));
            }
        }
        b
    }

    /// The item at position `i` of the insertion order.
    pub fn get(&self, i: usize) -> (item: &T)
        requires
            i < self.keys().len(),
        ensures
            item.key() == self.keys()[i as int],
    {
        &self.items[i]
    }

    /// The position of the item with `item`'s key, if there is one.
    pub fn position(&self, item: &T) -> (at: Option<usize>)
        ensures
            at is None ==> !self@.contains(item.key()),
            at matches Some(i) ==> i < self.keys().len() && self.keys()[i as int] == item.key(),
    {
        let mut i: usize = 0;
        while i < self.items.len()
            invariant
                i <= self.items.len(),
                forall|j: int| 0 <= j < i ==> self.keys()[j] != item.key(),
            decreases self.items.len() - i,
        {
            if self.items[i].same_key(item) {
                return Some(i);
            }
            i += 1;
        }
        None
    }

    /// Whether an item with `item`'s key is in the set.
    pub fn contains(&self, item: &T) -> (b: bool)
        ensures
            b == self@.contains(item.key()),
    {
        match self.position(item) {
            Some(i) => {
                assert(self.keys()[i as int] == item.key());
                true
            },
            None => false,
        }
    }

    /// Adds `item` unless its key is already there. Returns whether it was
    /// added.
    pub fn insert(&mut self, item: T) -> (added: bool)
        ensures
            added == !old(self)@.contains(item.key()),
            final(self).keys() == if added {
                old(self).keys().push(item.key())
            } else {
                old(self).keys()
            },
            final(self).keys() == with_key(old(self).keys(), item.key()),
            final(self)@ == old(self)@.insert(item.key()),
    {
        proof {
            use_type_invariant(&*self);
        }
        if self.contains(&item) {
            assert(self@.insert(item.key()) =~= self@);
            false
        } else {
            let ghost before = self.keys();
            let ghost key = item.key();
            let mut items: Vec<T> = Vec::new();
            std::mem::swap(&mut items, &mut self.items);
            items.push(item);
            proof {
                assert(keys_of(items@) =~= before.push(key));
                assert(before.push(key).no_duplicates()) by {
                    assert forall|i: int, j: int|
                        0 <= i < before.len() + 1 && 0 <= j < before.len() + 1 && i != j implies before.push(
                        key,
                    )[i] != before.push(key)[j] by {
                        if i < before.len() {
                            assert(before.to_set().contains(before[i]));
                        }
                        if j < before.len() {
                            assert(before.to_set().contains(before[j]));
                        }
                    }
                }
                before.lemma_push_to_set_commute(key);
            }
            self.items = items;
            true
        }
    }

    /// Adds a copy of each of `items` in turn.
    pub fn extend(&mut self, items: &Vec<T>)
        ensures
            final(self).keys() == with_all_keys(old(self).keys(), keys_of(items@)),
            final(self)@ == old(self)@.union(keys_of(items@).to_set()),
    {
        let ghost more = keys_of(items@);
        let mut i: usize = 0;
        while i < items.len()
            invariant
                i <= items.len(),
                more == keys_of(items@),
                self.keys() == with_keys(old(self).keys(), more, i as nat),
            decreases items.len() - i,
        {
            let item = items[i].duplicate();
            self.insert(item);
            i += 1;
        }
        proof {
            lemma_with_keys_set(old(self).keys(), more, more.len());
            assert(more.take(more.len() as int) =~= more);
        }
    }

    /// Adds a copy of each item of `other` in turn.
    pub fn merge(&mut self, other: &KeySet<T>)
        ensures
            final(self).keys() == with_all_keys(old(self).keys(), other.keys()),
            final(self)@ == old(self)@.union(other@),
    {
        self.extend(&other.items);
    }
}

impl<T: Keyed> Clone for KeySet<T> {
    fn clone(&self) -> (r: Self)
        ensures
            r.keys() == self.keys(),
            r@ == self@,
    {
        proof {
            use_type_invariant(self);
        }
        let mut items: Vec<T> = Vec::new();
        let mut i: usize = 0;
        assert(keys_of(items@) =~= self.keys().take(0));
        while i < self.items.len()
            invariant
                i <= self.items.len(),
                keys_of(items@) == self.keys().take(i as int),
            decreases self.items.len() - i,
        {
            let ghost before = keys_of(items@);
            let item = self.items[i].duplicate();
            items.push(item);
            assert(keys_of(items@) =~= before.push(item.key()));
            assert(self.keys().take(i + 1) =~= self.keys().take(i as int).push(
                self.keys()[i as int],
            ));
            i += 1;
        }
        assert(self.keys().take(self.items@.len() as int) =~= self.keys());
        KeySet { items }
    }
}

} // verus!
