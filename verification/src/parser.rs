//! Decoding of a storage export into the ledger to migrate.

use vstd::prelude::*;
use vstd::utf8::{decode_utf8, valid_utf8};
use crate::account::{is_valid_account_id, AccountId};
use crate::ledger::with_entry;
use crate::wire::{
    base64_decoded, decode_base64, exact_u128, exact_u64, optional_bytes, read_exact_uint, read_uint,
    starts_with,
    take_u128, take_u64, text_from_utf8,
};
use crate::{BlockData, FungibleToken, StateData, StateView};

verus! {

/// The parts of the connector's storage, as `aurora_engine_types` numbers
/// them.
#[derive(Debug, Clone, Copy, PartialEq, Eq)]
pub enum EthConnectorStorageId {
    Contract,
    FungibleToken,
    UsedEvent,
    PausedMask,
    StatisticsAuroraAccountsCounter,
    FungibleTokenMetadata,
}

impl EthConnectorStorageId {
    /// The byte that stands for the part in a storage key.
    pub open spec fn byte(self) -> u8 {
        match self {
            EthConnectorStorageId::Contract => 0x0,
            EthConnectorStorageId::FungibleToken => 0x1,
            EthConnectorStorageId::UsedEvent => 0x2,
            EthConnectorStorageId::PausedMask => 0x3,
            EthConnectorStorageId::StatisticsAuroraAccountsCounter => 0x4,
            EthConnectorStorageId::FungibleTokenMetadata => 0x5,
        }
    }
}

/// The byte of a storage part, from `aurora_engine_types`' conversion of its
/// `EthConnectorStorageId` to `u8`. The contract repeats the table in the
/// crate's source.
#[verifier::external_body]
fn storage_id_byte(id: EthConnectorStorageId) -> (b: u8)
    ensures
        b == id.byte(),
{
    u8::from(
        match id {
            EthConnectorStorageId::Contract => aurora_engine_types::storage::EthConnectorStorageId::Contract,
            EthConnectorStorageId::FungibleToken => aurora_engine_types::storage::EthConnectorStorageId::FungibleToken,
            EthConnectorStorageId::UsedEvent => aurora_engine_types::storage::EthConnectorStorageId::UsedEvent,
            EthConnectorStorageId::PausedMask => aurora_engine_types::storage::EthConnectorStorageId::PausedMask,
            EthConnectorStorageId::StatisticsAuroraAccountsCounter => aurora_engine_types::storage::EthConnectorStorageId::StatisticsAuroraAccountsCounter,
            EthConnectorStorageId::FungibleTokenMetadata => aurora_engine_types::storage::EthConnectorStorageId::FungibleTokenMetadata,
        },
    )
}

/// A key of the connector's storage, from
/// `aurora_engine_types::storage::bytes_to_key` with the connector's prefix:
/// the version byte 7, the connector's byte 6, then `bytes`.
#[verifier::external_body]
fn connector_key(bytes: &[u8]) -> (key: Vec<u8>)
    ensures
        key@ == seq![7u8, 6u8] + bytes@,
{
    aurora_engine_types::storage::bytes_to_key(
        aurora_engine_types::storage::KeyPrefix::EthConnector,
        bytes,
    )
}

/// The storage key of a part of the connector.
pub open spec fn contract_key(suffix: EthConnectorStorageId) -> Seq<u8> {
    seq![7u8, 6u8, suffix.byte()]
}

/// The storage key of a part of the connector.
pub fn construct_contract_key(suffix: EthConnectorStorageId) -> (key: Vec<u8>)
    ensures
        key@ == contract_key(suffix),
{
    let mut part: Vec<u8> = Vec::new();
    part.push(storage_id_byte(suffix));
    let key = connector_key(part.as_slice());
    assert(key@ =~= contract_key(suffix));
    key
}

/// The prefix of the keys under which balances are kept.
pub fn prefix_account_key() -> (key: Vec<u8>)
    ensures
        key@ == contract_key(EthConnectorStorageId::FungibleToken),
{
    construct_contract_key(EthConnectorStorageId::FungibleToken)
}

/// The key under which the contract's totals are kept.
pub fn get_contract_key() -> (key: Vec<u8>)
    ensures
        key@ == contract_key(EthConnectorStorageId::FungibleToken),
{
    construct_contract_key(EthConnectorStorageId::FungibleToken)
}

/// The prefix of the keys that mark a proof as used.
pub fn prefix_proof_key() -> (key: Vec<u8>)
    ensures
        key@ == contract_key(EthConnectorStorageId::UsedEvent),
{
    construct_contract_key(EthConnectorStorageId::UsedEvent)
}

/// The key under which the number of accounts is kept.
pub fn get_statistic_key() -> (key: Vec<u8>)
    ensures
        key@ == contract_key(EthConnectorStorageId::StatisticsAuroraAccountsCounter),
{
    construct_contract_key(EthConnectorStorageId::StatisticsAuroraAccountsCounter)
}

/// What a storage key stands for.
#[derive(Debug, Clone, PartialEq, Eq)]
pub enum KeyType {
    /// A balance; the bytes are the account's name.
    Accounts(Vec<u8>),
    /// The contract's totals.
    Contract,
    /// A used proof; the bytes are the proof's name.
    Proof(Vec<u8>),
    /// The number of accounts.
    AccountsCounter,
    /// Anything else.
    Unknown,
}

/// What a `KeyType` holds.
pub enum KeyKind {
    Accounts(Seq<u8>),
    Contract,
    Proof(Seq<u8>),
    AccountsCounter,
    Unknown,
}

impl View for KeyType {
    type V = KeyKind;

    open spec fn view(&self) -> KeyKind {
        match self {
            KeyType::Accounts(name) => KeyKind::Accounts(name@),
            KeyType::Contract => KeyKind::Contract,
            KeyType::Proof(name) => KeyKind::Proof(name@),
            KeyType::AccountsCounter => KeyKind::AccountsCounter,
            KeyType::Unknown => KeyKind::Unknown,
        }
    }
}

/// Whether `key` is `prefix` followed by at least one byte.
pub open spec fn extends(key: Seq<u8>, prefix: Seq<u8>) -> bool {
    key.len() > prefix.len() && key.take(prefix.len() as int) == prefix
}

/// The kind of a storage key.
pub open spec fn classify(key: Seq<u8>) -> KeyKind {
    if extends(key, contract_key(EthConnectorStorageId::FungibleToken)) {
        KeyKind::Accounts(key.skip(3))
    } else if key == contract_key(EthConnectorStorageId::FungibleToken) {
        KeyKind::Contract
    } else if extends(key, contract_key(EthConnectorStorageId::UsedEvent)) {
        KeyKind::Proof(key.skip(3))
    } else if key == contract_key(EthConnectorStorageId::StatisticsAuroraAccountsCounter) {
        KeyKind::AccountsCounter
    } else {
        KeyKind::Unknown
    }
}

/// Whether `key` names a balance.
pub fn is_account_prefix_key(key: &[u8]) -> (b: bool)
    ensures
        b == extends(key@, contract_key(EthConnectorStorageId::FungibleToken)),
{
    let account_prefix = prefix_account_key();
    key.len() > account_prefix.len() && starts_with(key, account_prefix.as_slice())
}

/// The bytes of `key` from position `from` on.
fn tail(key: &[u8], from: usize) -> (r: Vec<u8>)
    requires
        from <= key@.len(),
    ensures
        r@ == key@.skip(from as int),
{
    let mut r: Vec<u8> = Vec::new();
    let mut i: usize = from;
    while i < key.len()
        invariant
            from <= i <= key.len(),
            r@ == key@.subrange(from as int, i as int),
        decreases key.len() - i,
    {
        r.push(key[i]);
        assert(key@.subrange(from as int, i as int + 1) =~= key@.subrange(
            from as int,
            i as int,
        ).push(key@[i as int]));
        i += 1;
    }
    assert(key@.subrange(from as int, key@.len() as int) =~= key@.skip(from as int));
    r
}

/// Whether `key` is exactly `other`.
fn is_key(key: &[u8], other: &[u8]) -> (b: bool)
    ensures
        b == (key@ == other@),
{
    if key.len() != other.len() {
        return false;
    }
    let b = starts_with(key, other);
    assert(key@.take(other@.len() as int) =~= key@);
    b
}

/// The kind of a storage key.
pub fn key_type(key: &[u8]) -> (kind: KeyType)
    ensures
        kind@ == classify(key@),
{
    if is_account_prefix_key(key) {
        let account_prefix_len = prefix_account_key().len();
        KeyType::Accounts(tail(key, account_prefix_len))
    } else if is_key(key, get_contract_key().as_slice()) {
        KeyType::Contract
    } else {
        let proof_prefix = prefix_proof_key();
        if key.len() > proof_prefix.len() && starts_with(key, proof_prefix.as_slice()) {
            KeyType::Proof(tail(key, proof_prefix.len()))
        } else if is_key(key, get_statistic_key().as_slice()) {
            KeyType::AccountsCounter
        } else {
            KeyType::Unknown
        }
    }
}

/// Why an export was not accepted.
#[derive(Debug, Clone, Copy, PartialEq, Eq)]
pub enum ParseError {
    /// A key is not well-formed base64.
    KeyEncoding,
    /// A value that had to be read is not well-formed base64.
    ValueEncoding,
    /// The name in a balance key is not valid UTF-8.
    AccountText,
    /// A balance is not exactly 16 bytes long.
    BalanceLength,
    /// The name in a balance key is no account identifier.
    AccountId,
    /// The totals are not the fixed record of 40 bytes.
    ContractData,
    /// The name in a proof key is not valid UTF-8.
    ProofText,
    /// The number of accounts is not exactly 8 bytes long.
    CounterLength,
    /// The export holds another number of accounts than the contract counted.
    CounterMismatch,
}

/// The totals that `bytes` hold, where they are the two supplies in 16 bytes
/// each and the storage usage in 8.
pub open spec fn read_totals(bytes: Seq<u8>) -> Option<FungibleToken> {
    if bytes.len() == 40 {
        Some(
            FungibleToken {
                total_eth_supply_on_near: read_uint(bytes, 16).unwrap().0 as u128,
                total_eth_supply_on_aurora: read_uint(bytes.skip(16), 16).unwrap().0 as u128,
                account_storage_usage: read_uint(bytes.skip(32), 8).unwrap().0 as u64,
            },
        )
    } else {
        None
    }
}

/// Reads the contract's totals.
pub fn decode_totals(bytes: &[u8]) -> (r: Option<FungibleToken>)
    ensures
        r == read_totals(bytes@),
{
    let Some((total_eth_supply_on_near, rest)) = take_u128(bytes) else {
        return None;
    };
    let Some((total_eth_supply_on_aurora, rest2)) = take_u128(rest) else {
        return None;
    };
    let Some((account_storage_usage, rest3)) = take_u64(rest2) else {
        return None;
    };
    if rest3.len() != 0 {
        return None;
    }
    assert(bytes@.skip(16).skip(16) =~= bytes@.skip(32));
    Some(
        FungibleToken { total_eth_supply_on_near, total_eth_supply_on_aurora, account_storage_usage },
    )
}

/// Whether a record of this kind is read with its value.
pub open spec fn needs_value(kind: KeyKind) -> bool {
    kind is Accounts || kind is Contract || kind is AccountsCounter
}

/// The ledger after one more record, whose key is of kind `kind` and whose
/// value decoded to `value` (`None`: it is not well-formed base64).
pub open spec fn record_applied(state: StateView, kind: KeyKind, value: Option<Seq<u8>>) -> Result<
    StateView,
    ParseError,
> {
    match kind {
        KeyKind::Accounts(name) => {
            if !valid_utf8(name) {
                Err(ParseError::AccountText)
            } else if value is None {
                Err(ParseError::ValueEncoding)
            } else if read_exact_uint(value.unwrap(), 16) is None {
                Err(ParseError::BalanceLength)
            } else if !is_valid_account_id(decode_utf8(name)) {
                Err(ParseError::AccountId)
            } else {
                Ok(
                    StateView {
                        contract_data: state.contract_data,
                        accounts: with_entry(
                            state.accounts,
                            decode_utf8(name),
                            read_exact_uint(value.unwrap(), 16).unwrap() as u128,
                        ),
                        accounts_counter: state.accounts_counter,
                        proofs: state.proofs,
                    },
                )
            }
        },
        KeyKind::Contract => {
            if value is None {
                Err(ParseError::ValueEncoding)
            } else if read_totals(value.unwrap()) is None {
                Err(ParseError::ContractData)
            } else {
                Ok(
                    StateView {
                        contract_data: read_totals(value.unwrap()).unwrap(),
                        accounts: state.accounts,
                        accounts_counter: state.accounts_counter,
                        proofs: state.proofs,
                    },
                )
            }
        },
        KeyKind::Proof(name) => {
            if !valid_utf8(name) {
                Err(ParseError::ProofText)
            } else {
                Ok(
                    StateView {
                        contract_data: state.contract_data,
                        accounts: state.accounts,
                        accounts_counter: state.accounts_counter,
                        proofs: state.proofs.push(decode_utf8(name)),
                    },
                )
            }
        },
        KeyKind::AccountsCounter => {
            if value is None {
                Err(ParseError::ValueEncoding)
            } else if read_exact_uint(value.unwrap(), 8) is None {
                Err(ParseError::CounterLength)
            } else {
                Ok(
                    StateView {
                        contract_data: state.contract_data,
                        accounts: state.accounts,
                        accounts_counter: read_exact_uint(value.unwrap(), 8).unwrap() as u64,
                        proofs: state.proofs,
                    },
                )
            }
        },
        KeyKind::Unknown => Ok(state),
    }
}

/// Takes one record into the ledger. `value` is what the record's value
/// decoded to, `None` where it is not well-formed base64; it is looked at
/// only for the kinds that are read with their value. On an error the
/// ledger is unchanged.
pub fn apply_record(state: &mut StateData, kind: KeyType, value: Option<Vec<u8>>) -> (r: Result<
    (),
    ParseError,
>)
    ensures
        r is Ok ==> record_applied(old(state)@, kind@, optional_bytes(value)) == Ok::<
            StateView,
            ParseError,
        >(final(state)@),
        r matches Err(e) ==> record_applied(old(state)@, kind@, optional_bytes(value)) == Err::<
            StateView,
            ParseError,
        >(e) && final(state)@ == old(state)@,
{
    match kind {
        KeyType::Accounts(name) => {
            let Some(text) = text_from_utf8(name.as_slice()) else {
                return Err(ParseError::AccountText);
            };
            let Some(bytes) = value else {
                return Err(ParseError::ValueEncoding);
            };
            let Some(amount) = exact_u128(bytes.as_slice()) else {
                return Err(ParseError::BalanceLength);
            };
            let Some(account) = AccountId::parse(text.as_str()) else {
                return Err(ParseError::AccountId);
            };
            state.accounts.insert(account, amount);
            Ok(())
        },
        KeyType::Contract => {
            let Some(bytes) = value else {
                return Err(ParseError::ValueEncoding);
            };
            let Some(totals) = decode_totals(bytes.as_slice()) else {
                return Err(ParseError::ContractData);
            };
            state.contract_data = totals;
            Ok(())
        },
        KeyType::Proof(name) => {
            let Some(text) = text_from_utf8(name.as_slice()) else {
                return Err(ParseError::ProofText);
            };
            let ghost before = state.proofs@;
            state.proofs.push(text);
            assert(crate::keyset::keys_of(state.proofs@) =~= crate::keyset::keys_of(before).push(
                text@,
            ));
            Ok(())
        },
        KeyType::AccountsCounter => {
            let Some(bytes) = value else {
                return Err(ParseError::ValueEncoding);
            };
            let Some(count) = exact_u64(bytes.as_slice()) else {
                return Err(ParseError::CounterLength);
            };
            state.accounts_counter = count;
            Ok(())
        },
        KeyType::Unknown => Ok(()),
    }
}

/// The ledger after one more record of an export, given as the texts of its
/// key and its value.
pub open spec fn record_decoded(state: StateView, record: (Seq<char>, Seq<char>)) -> Result<
    StateView,
    ParseError,
> {
    match base64_decoded(record.0) {
        None => Err(ParseError::KeyEncoding),
        Some(key) => record_applied(
            state,
            classify(key),
            if needs_value(classify(key)) {
                base64_decoded(record.1)
            } else {
                None
            },
        ),
    }
}

/// The ledger after the first `n` records of an export, or the first error
/// among them.
pub open spec fn records_decoded(records: Seq<(Seq<char>, Seq<char>)>, n: nat) -> Result<
    StateView,
    ParseError,
>
    decreases n,
{
    if n == 0 {
        Ok(StateView::empty())
    } else {
        match records_decoded(records, (n - 1) as nat) {
            Ok(state) => record_decoded(state, records[n - 1]),
            Err(e) => Err(e),
        }
    }
}

/// The ledger that an export holds: all its records taken in, in order, and
/// the number of accounts checked against the contract's count.
pub open spec fn decoded(records: Seq<(Seq<char>, Seq<char>)>) -> Result<StateView, ParseError> {
    match records_decoded(records, records.len()) {
        Ok(state) => if state.is_consistent() {
            Ok(state)
        } else {
            Err(ParseError::CounterMismatch)
        },
        Err(e) => Err(e),
    }
}

/// An error among the first records of an export is the error of the whole.
pub proof fn lemma_error_stays(records: Seq<(Seq<char>, Seq<char>)>, n: nat, m: nat)
    requires
        n <= m,
        records_decoded(records, n) is Err,
    ensures
        records_decoded(records, m) == records_decoded(records, n),
    decreases m,
{
    if n < m {
        lemma_error_stays(records, n, (m - 1) as nat);
    }
}

/// An export is accepted only with as many accounts as the contract counted:
/// whatever else it holds, one whose records give another number is refused
/// with `CounterMismatch`, and no accepted ledger is inconsistent.
pub proof fn lemma_counter_decides(records: Seq<(Seq<char>, Seq<char>)>)
    ensures
        decoded(records) matches Ok(state) ==> state.is_consistent(),
        records_decoded(records, records.len()) matches Ok(state) && !state.is_consistent()
            ==> decoded(records) == Err::<StateView, ParseError>(ParseError::CounterMismatch),
{
}

/// Decodes an export into the ledger to migrate. Nothing is handed out for
/// an export with a record that cannot be read or with a wrong number of
/// accounts.
pub fn parse(data: &BlockData) -> (r: Result<StateData, ParseError>)
    ensures
        r matches Ok(state) ==> decoded(data.records()) == Ok::<StateView, ParseError>(state@)
            && state@.is_consistent(),
        r matches Err(e) ==> decoded(data.records()) == Err::<StateView, ParseError>(e),
{
    let mut state = StateData::default();
    let ghost records = data.records();
    let mut i: usize = 0;
    while i < data.result.values.len()
        invariant
            i <= data.result.values.len(),
            records == data.records(),
            records.len() == data.result.values.len(),
            records_decoded(records, i as nat) == Ok::<StateView, ParseError>(state@),
        decreases data.result.values.len() - i,
    {
        let record = &data.result.values[i];
        assert(records[i as int] == (record.key@, record.value@));
        let Some(key) = decode_base64(record.key.as_str()) else {
            proof {
                lemma_error_stays(records, (i + 1) as nat, records.len());
            }
            return Err(ParseError::KeyEncoding);
        };
        let kind = key_type(key.as_slice());
        let value = match kind {
            KeyType::Accounts(_) | KeyType::Contract | KeyType::AccountsCounter => decode_base64(
                record.value.as_str(),
            ),
            _ => None,
        };
        match apply_record(&mut state, kind, value) {
            Ok(()) => {},
            Err(e) => {
                proof {
                    lemma_error_stays(records, (i + 1) as nat, records.len());
                }
                return Err(e);
            },
        }
        i += 1;
    }
    if state.accounts.len() as u64 != state.accounts_counter {
        return Err(ParseError::CounterMismatch);
    }
    Ok(state)
}

} // verus!
