//! Migration of a fungible-token ledger between two contracts: discovery of
//! the accounts the tracked contract ever touched, decoding of a storage
//! export into typed records, and batched replay with verification.

use vstd::prelude::*;

pub mod account;
pub mod batch;
pub mod indexer;
pub mod json;
pub mod keyset;
pub mod ledger;
pub mod migration;
pub mod parser;
pub mod rpc;
pub mod target;
pub mod wire;

use crate::keyset::keys_of;
use crate::ledger::{AccountMap, Entry};

verus! {

/// One storage record of an export: key and value, both in base64.
#[derive(Debug, Clone, PartialEq, Eq)]
pub struct ResultValues {
    pub key: String,
    pub value: String,
}

/// A full export of the contract's storage at one block height.
#[derive(Debug, Clone, PartialEq, Eq)]
pub struct ResultData {
    pub block_height: u64,
    pub values: Vec<ResultValues>,
}

/// The export as the node hands it out.
#[derive(Debug, Clone, PartialEq, Eq)]
pub struct BlockData {
    pub result: ResultData,
}

impl BlockData {
    /// The records as pairs of key text and value text.
    pub open spec fn records(&self) -> Seq<(Seq<char>, Seq<char>)> {
        self.result.values@.map_values(|v: ResultValues| (v.key@, v.value@))
    }
}

/// The contract's totals: the two supplies and the storage that accounts use.
#[derive(Debug, Clone, Copy, PartialEq, Eq)]
pub struct FungibleToken {
    pub total_eth_supply_on_near: u128,
    pub total_eth_supply_on_aurora: u128,
    pub account_storage_usage: u64,
}

impl FungibleToken {
    /// Totals that are all zero.
    pub open spec fn zero() -> FungibleToken {
        FungibleToken {
            total_eth_supply_on_near: 0,
            total_eth_supply_on_aurora: 0,
            account_storage_usage: 0,
        }
    }
}

impl Default for FungibleToken {
    fn default() -> (r: Self)
        ensures
            r == FungibleToken::zero(),
    {
        FungibleToken {
            total_eth_supply_on_near: 0,
            total_eth_supply_on_aurora: 0,
            account_storage_usage: 0,
        }
    }
}

/// The ledger to migrate: totals, balances, the number of accounts the
/// contract counted, and the proofs it has used up.
#[derive(Debug, Clone)]
pub struct StateData {
    pub contract_data: FungibleToken,
    pub accounts: AccountMap,
    pub accounts_counter: u64,
    pub proofs: Vec<String>,
}

/// What a `StateData` holds.
pub struct StateView {
    pub contract_data: FungibleToken,
    pub accounts: Seq<Entry>,
    pub accounts_counter: u64,
    pub proofs: Seq<Seq<char>>,
}

impl StateView {
    /// No accounts, no proofs, totals and counter zero.
    pub open spec fn empty() -> StateView {
        StateView {
            contract_data: FungibleToken::zero(),
            accounts: Seq::empty(),
            accounts_counter: 0,
            proofs: Seq::empty(),
        }
    }

    /// The ledger holds as many accounts as the contract counted.
    pub open spec fn is_consistent(&self) -> bool {
        self.accounts.len() == self.accounts_counter
    }
}

impl View for StateData {
    type V = StateView;

    open spec fn view(&self) -> StateView {
        StateView {
            contract_data: self.contract_data,
            accounts: self.accounts.entries(),
            accounts_counter: self.accounts_counter,
            proofs: keys_of(self.proofs@),
        }
    }
}

impl Default for StateData {
    fn default() -> (r: Self)
        ensures
            r@ == StateView::empty(),
    {
        let r = StateData {
            contract_data: FungibleToken::default(),
            accounts: AccountMap::new(),
            accounts_counter: 0,
            proofs: Vec::new(),
        };
        assert(r@.proofs =~= Seq::<Seq<char>>::empty());
        r
    }
}

} // verus!
