//! What the indexer and the migration read from the chain and say to it:
//! the recognised contract calls and their arguments, the data that a block
//! yields, and the rules for calling the node.

use std::collections::HashSet;
use vstd::prelude::*;
use crate::account::{is_valid_account_id, AccountId};
use crate::json::{
    decimal_u128, field_value, fields_view, find_field, json_object_fields, parse_json_object,
    parse_u128, JsonField, JsonKind, JsonValue,
};
use crate::keyset::{keys_of, with_all_keys, KeySet, Keyed};
use crate::wire::{
    read_optional_bytes, read_text, read_uint, take_optional_bytes, take_text, take_u128,
};

verus! {

/// Height of a block.
pub type BlockHeight = u64;

/// The least time between two calls to the node, in milliseconds. The node
/// answers 600 requests a minute.
pub const REQUEST_TIMEOUT: u64 = 90;

/// Gas attached to a committed transaction (300 TGas).
pub const GAS_FOR_COMMIT_TX: u64 = 300_000_000_000_000;

/// The tracked contract.
pub const AURORA_CONTRACT: &'static str = "aurora";

/// How often a failed commit is tried again.
pub const RETRIES_COUNT: u8 = 10;

/// Whether two texts read the same.
pub fn same_text(a: &str, b: &str) -> (r: bool)
    ensures
        r == (a@ == b@),
{
    let x = a.to_owned();
    let y = b.to_owned();
    x == y
}

/// The calls of the tracked contract that the indexer reads; every other
/// call is ignored.
#[derive(Debug, Clone, Copy, PartialEq, Eq)]
pub enum CallMethod {
    FtTransfer,
    Deposit,
    FtTransferCall,
    Withdraw,
    FinishDeposit,
    Ignored,
}

/// The call that a method name stands for.
pub open spec fn method_of(name: Seq<char>) -> CallMethod {
    if name == "ft_transfer"@ {
        CallMethod::FtTransfer
    } else if name == "deposit"@ {
        CallMethod::Deposit
    } else if name == "ft_transfer_call"@ {
        CallMethod::FtTransferCall
    } else if name == "withdraw"@ {
        CallMethod::Withdraw
    } else if name == "finish_deposit"@ {
        CallMethod::FinishDeposit
    } else {
        CallMethod::Ignored
    }
}

impl CallMethod {
    /// The call that a method name stands for.
    pub fn from_name(name: &str) -> (method: CallMethod)
        ensures
            method == method_of(name@),
    {
        if same_text(name, "ft_transfer") {
            CallMethod::FtTransfer
        } else if same_text(name, "deposit") {
            CallMethod::Deposit
        } else if same_text(name, "ft_transfer_call") {
            CallMethod::FtTransferCall
        } else if same_text(name, "withdraw") {
            CallMethod::Withdraw
        } else if same_text(name, "finish_deposit") {
            CallMethod::FinishDeposit
        } else {
            CallMethod::Ignored
        }
    }

    /// Whether the call is one that the indexer reads.
    pub fn is_recognized(self) -> (b: bool)
        ensures
            b == !(self is Ignored),
    {
        match self {
            CallMethod::Ignored => false,
            _ => true,
        }
    }
}

/// The arguments of `finish_deposit`.
#[derive(Debug, Clone, PartialEq, Eq)]
pub struct FinishDepositArgs {
    pub new_owner_id: AccountId,
    pub amount: u128,
    pub proof_key: String,
    pub relayer_id: AccountId,
    pub fee: u128,
    pub msg: Option<Vec<u8>>,
}

/// What a `FinishDepositArgs` holds.
pub struct FinishDepositView {
    pub new_owner_id: Seq<char>,
    pub amount: u128,
    pub proof_key: Seq<char>,
    pub relayer_id: Seq<char>,
    pub fee: u128,
    pub msg: Option<Seq<u8>>,
}

impl View for FinishDepositArgs {
    type V = FinishDepositView;

    open spec fn view(&self) -> FinishDepositView {
        FinishDepositView {
            new_owner_id: self.new_owner_id@,
            amount: self.amount,
            proof_key: self.proof_key@,
            relayer_id: self.relayer_id@,
            fee: self.fee,
            msg: crate::wire::optional_bytes(self.msg),
        }
    }
}

/// The arguments of `finish_deposit` that `args` hold: owner, amount, proof,
/// relayer, fee and message, one after the other and nothing behind them,
/// with owner and relayer valid account identifiers.
pub open spec fn read_finish_deposit(args: Seq<u8>) -> Option<FinishDepositView> {
    match read_text(args) {
        Some((new_owner_id, after_owner)) => match read_uint(after_owner, 16) {
            Some((amount, after_amount)) => match read_text(after_amount) {
                Some((proof_key, after_proof)) => match read_text(after_proof) {
                    Some((relayer_id, after_relayer)) => match read_uint(after_relayer, 16) {
                        Some((fee, after_fee)) => match read_optional_bytes(after_fee) {
                            Some((msg, rest)) => if rest.len() == 0 && is_valid_account_id(
                                new_owner_id,
                            ) && is_valid_account_id(relayer_id) {
                                Some(
                                    FinishDepositView {
                                        new_owner_id,
                                        amount: amount as u128,
                                        proof_key,
                                        relayer_id,
                                        fee: fee as u128,
                                        msg,
                                    },
                                )
                            } else {
                                None
                            },
                            None => None,
                        },
                        None => None,
                    },
                    None => None,
                },
                None => None,
            },
            None => None,
        },
        None => None,
    }
}

/// Reads the arguments of `finish_deposit`.
pub fn decode_finish_deposit(args: &[u8]) -> (r: Option<FinishDepositArgs>)
    ensures
        r is None ==> read_finish_deposit(args@) is None,
        r matches Some(a) ==> read_finish_deposit(args@) == Some(a@),
{
    let Some((owner_text, after_owner)) = take_text(args) else {
        return None;
    };
    let Some(new_owner_id) = AccountId::parse(owner_text.as_str()) else {
        return None;
    };
    let Some((amount, after_amount)) = take_u128(after_owner) else {
        return None;
    };
    let Some((proof_key, after_proof)) = take_text(after_amount) else {
        return None;
    };
    let Some((relayer_text, after_relayer)) = take_text(after_proof) else {
        return None;
    };
    let Some(relayer_id) = AccountId::parse(relayer_text.as_str()) else {
        return None;
    };
    let Some((fee, after_fee)) = take_u128(after_relayer) else {
        return None;
    };
    let Some((msg, rest)) = take_optional_bytes(after_fee) else {
        return None;
    };
    if rest.len() != 0 {
        return None;
    }
    Some(FinishDepositArgs { new_owner_id, amount, proof_key, relayer_id, fee, msg })
}

/// Whether a member that may be left out is a text, `null` or not there.
pub open spec fn is_optional_text(value: Option<JsonKind>) -> bool {
    value is None || value == Some(JsonKind::Null) || (value matches Some(JsonKind::Text(_)))
}

/// The receiver that the arguments of a transfer name: the members
/// `receiver_id`, a valid account identifier, and `amount`, a number in
/// decimal, both as texts; `memo`, a text where it is given; and, for a
/// transfer with a call, `msg`, a text.
pub open spec fn transfer_receiver(fields: Seq<(Seq<char>, JsonKind)>, with_message: bool) -> Option<
    Seq<char>,
> {
    let receiver = field_value(fields, "receiver_id"@);
    let amount = field_value(fields, "amount"@);
    let memo = field_value(fields, "memo"@);
    let msg = field_value(fields, "msg"@);
    if (receiver matches Some(JsonKind::Text(account)) && is_valid_account_id(account)) && (
    amount matches Some(JsonKind::Text(number)) && decimal_u128(number) is Some)
        && is_optional_text(memo) && (with_message ==> (msg matches Some(JsonKind::Text(_)))) {
        Some(receiver->Some_0->Text_0)
    } else {
        None
    }
}

/// The receiver that the arguments of a transfer name, from the members of
/// the JSON object they are.
pub fn transfer_receiver_of(fields: &Vec<JsonField>, with_message: bool) -> (r: Option<AccountId>)
    ensures
        r is None ==> transfer_receiver(fields_view(fields@), with_message) is None,
        r matches Some(account) ==> transfer_receiver(fields_view(fields@), with_message) == Some(
            account@,
        ),
{
    let Some(JsonValue::Text(receiver_text)) = find_field(fields, "receiver_id") else {
        return None;
    };
    let Some(receiver) = AccountId::parse(receiver_text.as_str()) else {
        return None;
    };
    let Some(JsonValue::Text(amount_text)) = find_field(fields, "amount") else {
        return None;
    };
    if parse_u128(amount_text.as_str()).is_none() {
        return None;
    }
    match find_field(fields, "memo") {
        Some(JsonValue::Other) => {
            return None;
        },
        _ => {},
    }
    if with_message {
        let Some(JsonValue::Text(_)) = find_field(fields, "msg") else {
            return None;
        };
    }
    Some(receiver)
}

/// What an optional text holds.
pub open spec fn optional_text(value: Option<String>) -> Option<Seq<char>> {
    match value {
        Some(text) => Some(text@),
        None => None,
    }
}

/// What the arguments of one call yield.
#[derive(Debug, Clone, PartialEq, Eq)]
pub struct ParsedCall {
    /// The accounts that the call names.
    pub accounts: Vec<AccountId>,
    /// The proof that the call uses up.
    pub proof: Option<String>,
    /// Whether the call is one that is read and its arguments could not be.
    pub malformed: bool,
}

/// What a `ParsedCall` holds.
pub struct ParsedCallView {
    pub accounts: Seq<Seq<char>>,
    pub proof: Option<Seq<char>>,
    pub malformed: bool,
}

impl View for ParsedCall {
    type V = ParsedCallView;

    open spec fn view(&self) -> ParsedCallView {
        ParsedCallView {
            accounts: keys_of(self.accounts@),
            proof: optional_text(self.proof),
            malformed: self.malformed,
        }
    }
}

impl ParsedCallView {
    /// Nothing: no account and no proof.
    pub open spec fn nothing(malformed: bool) -> ParsedCallView {
        ParsedCallView { accounts: Seq::empty(), proof: None, malformed }
    }
}

/// What a transfer yields, given the members of its arguments (`None`: the
/// arguments are no JSON object).
pub open spec fn transfer_parsed(
    fields: Option<Seq<(Seq<char>, JsonKind)>>,
    with_message: bool,
) -> ParsedCallView {
    match fields {
        Some(members) => match transfer_receiver(members, with_message) {
            Some(receiver) => ParsedCallView {
                accounts: seq![receiver],
                proof: None,
                malformed: false,
            },
            None => ParsedCallView::nothing(true),
        },
        None => ParsedCallView::nothing(true),
    }
}

/// What a call of `method` with the arguments `args` yields: the receiver of
/// a transfer; owner, relayer and proof of a finished deposit; nothing for a
/// deposit, a withdrawal and every call that is not read. Arguments that
/// cannot be read yield nothing and are marked.
pub open spec fn parsed_call(method: Seq<char>, args: Seq<u8>) -> ParsedCallView {
    match method_of(method) {
        CallMethod::FtTransfer => transfer_parsed(json_object_fields(args), false),
        CallMethod::FtTransferCall => transfer_parsed(json_object_fields(args), true),
        CallMethod::FinishDeposit => match read_finish_deposit(args) {
            Some(deposit) => ParsedCallView {
                accounts: seq![deposit.new_owner_id, deposit.relayer_id],
                proof: Some(deposit.proof_key),
                malformed: false,
            },
            None => ParsedCallView::nothing(true),
        },
        CallMethod::Withdraw => ParsedCallView::nothing(false),
        CallMethod::Deposit => ParsedCallView::nothing(false),
        CallMethod::Ignored => ParsedCallView::nothing(false),
    }
}

impl ParsedCall {
    /// Nothing: no account and no proof.
    pub fn nothing(malformed: bool) -> (r: ParsedCall)
        ensures
            r@ == ParsedCallView::nothing(malformed),
    {
        let r = ParsedCall { accounts: Vec::new(), proof: None, malformed };
        assert(r@.accounts =~= Seq::<Seq<char>>::empty());
        r
    }

    /// What a transfer yields, given the members of its arguments.
    pub fn of_transfer(fields: Option<Vec<JsonField>>, with_message: bool) -> (r: ParsedCall)
        ensures
            r@ == transfer_parsed(
                match fields {
                    Some(members) => Some(fields_view(members@)),
                    None => None,
                },
                with_message,
            ),
    {
        let Some(members) = fields else {
            return ParsedCall::nothing(true);
        };
        let Some(receiver) = transfer_receiver_of(&members, with_message) else {
            return ParsedCall::nothing(true);
        };
        let mut accounts: Vec<AccountId> = Vec::new();
        accounts.push(receiver);
        let r = ParsedCall { accounts, proof: None, malformed: false };
        assert(r@.accounts =~= seq![receiver@]);
        r
    }
}

/// Reads the arguments of one call.
pub fn parse_call(method: &str, args: &[u8]) -> (r: ParsedCall)
    ensures
        r@ == parsed_call(method@, args@),
{
    match CallMethod::from_name(method) {
        CallMethod::FtTransfer => ParsedCall::of_transfer(parse_json_object(args), false),
        CallMethod::FtTransferCall => ParsedCall::of_transfer(parse_json_object(args), true),
        CallMethod::FinishDeposit => {
            let Some(deposit) = decode_finish_deposit(args) else {
                return ParsedCall::nothing(true);
            };
            let ghost owner = deposit.new_owner_id@;
            let ghost relayer = deposit.relayer_id@;
            let mut accounts: Vec<AccountId> = Vec::new();
            accounts.push(deposit.new_owner_id);
            accounts.push(deposit.relayer_id);
            let r = ParsedCall { accounts, proof: Some(deposit.proof_key), malformed: false };
            assert(r@.accounts =~= seq![owner, relayer]);
            r
        },
        CallMethod::Withdraw => ParsedCall::nothing(false),
        CallMethod::Deposit => ParsedCall::nothing(false),
        CallMethod::Ignored => ParsedCall::nothing(false),
    }
}

/// Copies a list of accounts.
pub fn clone_accounts(accounts: &Vec<AccountId>) -> (r: Vec<AccountId>)
    ensures
        keys_of(r@) == keys_of(accounts@),
{
    let mut r: Vec<AccountId> = Vec::new();
    let mut i: usize = 0;
    while i < accounts.len()
        invariant
            i <= accounts.len(),
            keys_of(r@) == keys_of(accounts@).take(i as int),
        decreases accounts.len() - i,
    {
        let account = accounts[i].clone();
        let ghost before = r@;
        r.push(account);
        assert(keys_of(r@) =~= keys_of(before).push(account.key()));
        assert(keys_of(accounts@).take(i as int + 1) =~= keys_of(accounts@).take(i as int).push(
            accounts@[i as int].key(),
        ));
        i += 1;
    }
    assert(keys_of(accounts@).take(accounts@.len() as int) =~= keys_of(accounts@));
    r
}

/// One action of a transaction or of a receipt.
#[derive(Debug, Clone, PartialEq, Eq)]
pub enum ActionView {
    /// A call of a contract method.
    FunctionCall { method_name: String, args: Vec<u8> },
    /// Any other action.
    Other,
}

/// What one read call left in the log.
#[derive(Debug, PartialEq, Eq)]
pub struct ActionResultLog {
    pub accounts: Vec<AccountId>,
    pub proof: String,
    pub method: String,
}

/// What an `ActionResultLog` holds.
pub struct ActionLogView {
    pub accounts: Seq<Seq<char>>,
    pub proof: Seq<char>,
    pub method: Seq<char>,
}

impl View for ActionResultLog {
    type V = ActionLogView;

    open spec fn view(&self) -> ActionLogView {
        ActionLogView {
            accounts: keys_of(self.accounts@),
            proof: self.proof@,
            method: self.method@,
        }
    }
}

/// What a list of log entries holds.
pub open spec fn log_view(log: Seq<ActionResultLog>) -> Seq<ActionLogView> {
    log.map_values(|entry: ActionResultLog| entry@)
}

/// What the actions of one transaction or receipt yield.
#[derive(Debug, Clone, PartialEq, Eq)]
pub struct ActionResult {
    pub accounts: Vec<AccountId>,
    pub proofs: Vec<String>,
    pub is_action_found: bool,
    pub log: Vec<ActionResultLog>,
}

/// What an `ActionResult` holds.
pub struct ActionResultView {
    pub accounts: Seq<Seq<char>>,
    pub proofs: Seq<Seq<char>>,
    pub is_action_found: bool,
    pub log: Seq<ActionLogView>,
}

impl View for ActionResult {
    type V = ActionResultView;

    open spec fn view(&self) -> ActionResultView {
        ActionResultView {
            accounts: keys_of(self.accounts@),
            proofs: keys_of(self.proofs@),
            is_action_found: self.is_action_found,
            log: log_view(self.log@),
        }
    }
}

impl ActionResultView {
    /// Nothing found.
    pub open spec fn empty() -> ActionResultView {
        ActionResultView {
            accounts: Seq::empty(),
            proofs: Seq::empty(),
            is_action_found: false,
            log: Seq::empty(),
        }
    }
}

/// The text of a proof in a log entry: empty where the call used none.
pub open spec fn logged_proof(used: Option<Seq<char>>) -> Seq<char> {
    match used {
        Some(key) => key,
        None => Seq::empty(),
    }
}

/// `result` after one more action: a call that is read adds its accounts,
/// its proof and a log entry; any other action adds nothing.
pub open spec fn with_action(result: ActionResultView, action: ActionView) -> ActionResultView {
    match action {
        ActionView::FunctionCall { method_name, args } => {
            if method_of(method_name@) is Ignored {
                result
            } else {
                let parsed = parsed_call(method_name@, args@);
                ActionResultView {
                    accounts: result.accounts + parsed.accounts,
                    proofs: match parsed.proof {
                        Some(key) => result.proofs.push(key),
                        None => result.proofs,
                    },
                    is_action_found: true,
                    log: result.log.push(
                        ActionLogView {
                            accounts: parsed.accounts,
                            proof: logged_proof(parsed.proof),
                            method: method_name@,
                        },
                    ),
                }
            }
        },
        ActionView::Other => result,
    }
}

/// What the first `n` of `actions` yield.
pub open spec fn actions_result(actions: Seq<ActionView>, n: nat) -> ActionResultView
    decreases n,
{
    if n == 0 {
        ActionResultView::empty()
    } else {
        with_action(actions_result(actions, (n - 1) as nat), actions[n - 1])
    }
}

/// A call that is read leaves a log entry, so whatever found a call has a
/// log.
pub proof fn lemma_found_has_log(actions: Seq<ActionView>, n: nat)
    ensures
        actions_result(actions, n).is_action_found == (actions_result(actions, n).log.len() > 0),
    decreases n,
{
    if n > 0 {
        lemma_found_has_log(actions, (n - 1) as nat);
    }
}

/// Which block to ask the node for.
#[derive(Debug, Clone, Copy, PartialEq, Eq)]
pub enum BlockKind {
    /// The latest final block.
    Latest,
    /// The block at a height.
    Height(BlockHeight),
}

/// The library's side of the connection to the node: the heights whose
/// data could not be fetched, and when the last request went out.
#[derive(Debug)]
pub struct Client {
    /// Heights of blocks, or of blocks with a chunk, that could not be
    /// fetched.
    pub unresolved_blocks: HashSet<BlockHeight>,
    /// The time in milliseconds at which the last request went out.
    pub last_call: Option<u64>,
}

/// Copies a set of heights with `HashSet`'s `clone`, which std documents
/// to give a set with the same elements.
#[verifier::external_body]
pub(crate) fn clone_heights(heights: &HashSet<BlockHeight>) -> (r: HashSet<BlockHeight>)
    ensures
        r@ == heights@,
{
    heights.clone()
}

impl Client {
    /// A client that has asked for nothing yet.
    pub fn new() -> (client: Self)
        ensures
            client.unresolved_blocks@ == Set::<BlockHeight>::empty(),
            client.last_call is None,
    {
        Client { unresolved_blocks: HashSet::new(), last_call: None }
    }

    /// Takes over the heights that an earlier run could not fetch.
    pub fn set_missed_blocks(&mut self, missed_blocks: HashSet<BlockHeight>)
        ensures
            final(self).unresolved_blocks@ == missed_blocks@,
            final(self).last_call == old(self).last_call,
    {
        self.unresolved_blocks = missed_blocks;
    }

    /// Reads the arguments of one call: the accounts it names and the proof
    /// it uses up.
    pub fn parse_action_argument(&self, method: &str, args: &[u8]) -> (r: (
        Vec<AccountId>,
        Option<String>,
    ))
        ensures
            keys_of(r.0@) == parsed_call(method@, args@).accounts,
            optional_text(r.1) == parsed_call(method@, args@).proof,
    {
        let parsed = parse_call(method, args);
        (parsed.accounts, parsed.proof)
    }

    /// Collects the accounts, proofs and log entries of the calls among
    /// `actions` that the indexer reads.
    pub fn get_actions_data(&mut self, actions: Vec<ActionView>) -> (result: ActionResult)
        ensures
            result@ == actions_result(actions@, actions@.len()),
            *final(self) == *old(self),
    {
        collect_actions(&actions)
    }
}

impl Clone for Client {
    fn clone(&self) -> (client: Self)
        ensures
            client.unresolved_blocks@ == self.unresolved_blocks@,
            client.last_call == self.last_call,
    {
        Client {
            unresolved_blocks: clone_heights(&self.unresolved_blocks),
            last_call: self.last_call,
        }
    }
}

impl Clone for ActionResultLog {
    fn clone(&self) -> (entry: Self)
        ensures
            entry@ == self@,
    {
        ActionResultLog {
            accounts: clone_accounts(&self.accounts),
            proof: self.proof.clone(),
            method: self.method.clone(),
        }
    }
}

/// Copies the log entries of one transaction or receipt.
pub fn clone_log(log: &Vec<ActionResultLog>) -> (r: Vec<ActionResultLog>)
    ensures
        log_view(r@) == log_view(log@),
{
    let mut r: Vec<ActionResultLog> = Vec::new();
    let mut i: usize = 0;
    assert(log_view(r@) =~= log_view(log@).take(0));
    while i < log.len()
        invariant
            i <= log.len(),
            log_view(r@) == log_view(log@).take(i as int),
        decreases log.len() - i,
    {
        let ghost before = log_view(r@);
        let entry = log[i].clone();
        r.push(entry);
        assert(log_view(r@) =~= before.push(entry@));
        assert(log_view(log@).take(i + 1) =~= log_view(log@).take(i as int).push(log@[i as int]@));
        i += 1;
    }
    assert(log_view(log@).take(log@.len() as int) =~= log_view(log@));
    r
}

/// Collects the accounts, proofs and log entries of the calls among
/// `actions` that the indexer reads.
pub fn collect_actions(actions: &Vec<ActionView>) -> (result: ActionResult)
    ensures
        result@ == actions_result(actions@, actions@.len()),
{
    let mut result = ActionResult {
        accounts: Vec::new(),
        proofs: Vec::new(),
        is_action_found: false,
        log: Vec::new(),
    };
    assert(result@.accounts =~= Seq::<Seq<char>>::empty());
    assert(result@.proofs =~= Seq::<Seq<char>>::empty());
    assert(result@.log =~= Seq::<ActionLogView>::empty());
    let mut i: usize = 0;
    while i < actions.len()
        invariant
            i <= actions.len(),
            result@ == actions_result(actions@, i as nat),
        decreases actions.len() - i,
    {
        let ghost before = result@;
        match &actions[i] {
            ActionView::FunctionCall { method_name, args } => {
                if CallMethod::from_name(method_name.as_str()).is_recognized() {
                    let ParsedCall { accounts, proof: used, malformed: _ } = parse_call(
                        method_name.as_str(),
                        args.as_slice(),
                    );
                    let ghost parsed = parsed_call(method_name@, args@);
                    result.is_action_found = true;
                    let entry = ActionResultLog {
                        accounts: clone_accounts(&accounts),
                        proof: match &used {
                            Some(key) => key.clone(),
                            None => String::new(),
                        },
                        method: method_name.clone(),
                    };
                    assert(entry@ == ActionLogView {
                        accounts: parsed.accounts,
                        proof: logged_proof(parsed.proof),
                        method: method_name@,
                    });
                    let ghost log_before = result.log@;
                    result.log.push(entry);
                    assert(log_view(result.log@) =~= log_view(log_before).push(entry@));
                    let mut accounts = accounts;
                    let ghost accounts_before = result.accounts@;
                    let ghost added = accounts@;
                    result.accounts.append(&mut accounts);
                    assert(keys_of(result.accounts@) =~= keys_of(accounts_before) + keys_of(
                        added,
                    ));
                    match used {
                        Some(key) => {
                            let ghost proofs_before = result.proofs@;
                            result.proofs.push(key);
                            assert(keys_of(result.proofs@) =~= keys_of(proofs_before).push(
                                key@,
                            ));
                        },
                        None => {},
                    }
                }
            },
            ActionView::Other => {},
        }
        assert(result@ == with_action(before, actions@[i as int]));
        i += 1;
    }
    result
}

/// A transaction of a chunk.
#[derive(Debug, Clone, PartialEq, Eq)]
pub struct TransactionView {
    pub signer_id: AccountId,
    pub receiver_id: AccountId,
    pub actions: Vec<ActionView>,
}

/// What a receipt carries.
#[derive(Debug, Clone, PartialEq, Eq)]
pub enum ReceiptEnumView {
    /// Actions to run, and who signed for them.
    Action { signer_id: AccountId, actions: Vec<ActionView> },
    /// Data for another receipt.
    Data,
}

/// A receipt of a chunk.
#[derive(Debug, Clone, PartialEq, Eq)]
pub struct ReceiptView {
    pub predecessor_id: AccountId,
    pub receiver_id: AccountId,
    pub receipt: ReceiptEnumView,
}

/// The content of a chunk.
#[derive(Debug, Clone, PartialEq, Eq)]
pub struct ChunkView {
    pub transactions: Vec<TransactionView>,
    pub receipts: Vec<ReceiptView>,
}

/// The log entries of one transaction or receipt, with the height of its
/// block.
#[derive(Debug, PartialEq, Eq)]
pub struct IndexedResultLog {
    pub block_height: BlockHeight,
    pub actions: Vec<ActionResultLog>,
}

/// What an `IndexedResultLog` holds.
pub struct BlockLogView {
    pub block_height: BlockHeight,
    pub actions: Seq<ActionLogView>,
}

impl View for IndexedResultLog {
    type V = BlockLogView;

    open spec fn view(&self) -> BlockLogView {
        BlockLogView { block_height: self.block_height, actions: log_view(self.actions@) }
    }
}

/// What a list of such entries holds.
pub open spec fn logs_view(logs: Seq<IndexedResultLog>) -> Seq<BlockLogView> {
    logs.map_values(|entry: IndexedResultLog| entry@)
}

/// What indexing found: accounts, proofs, and the log.
#[derive(Debug)]
pub struct IndexedData {
    pub accounts: KeySet<AccountId>,
    pub proofs: KeySet<String>,
    pub logs: Vec<IndexedResultLog>,
}

/// What an `IndexedData` holds: accounts and proofs in the order in which
/// they were found, each once, and the log.
pub struct IndexedView {
    pub accounts: Seq<Seq<char>>,
    pub proofs: Seq<Seq<char>>,
    pub logs: Seq<BlockLogView>,
}

impl View for IndexedData {
    type V = IndexedView;

    open spec fn view(&self) -> IndexedView {
        IndexedView {
            accounts: self.accounts.keys(),
            proofs: self.proofs.keys(),
            logs: logs_view(self.logs@),
        }
    }
}

impl Clone for IndexedResultLog {
    fn clone(&self) -> (entry: Self)
        ensures
            entry@ == self@,
    {
        IndexedResultLog { block_height: self.block_height, actions: clone_log(&self.actions) }
    }
}

impl Clone for IndexedData {
    fn clone(&self) -> (data: Self)
        ensures
            data@ == self@,
    {
        let mut logs: Vec<IndexedResultLog> = Vec::new();
        let mut i: usize = 0;
        assert(logs_view(logs@) =~= logs_view(self.logs@).take(0));
        while i < self.logs.len()
            invariant
                i <= self.logs.len(),
                logs_view(logs@) == logs_view(self.logs@).take(i as int),
            decreases self.logs.len() - i,
        {
            let ghost before = logs_view(logs@);
            let entry = self.logs[i].clone();
            logs.push(entry);
            assert(logs_view(logs@) =~= before.push(entry@));
            assert(logs_view(self.logs@).take(i + 1) =~= logs_view(self.logs@).take(
                i as int,
            ).push(self.logs@[i as int]@));
            i += 1;
        }
        assert(logs_view(self.logs@).take(self.logs@.len() as int) =~= logs_view(self.logs@));
        IndexedData { accounts: self.accounts.clone(), proofs: self.proofs.clone(), logs }
    }
}

impl IndexedView {
    /// Nothing found.
    pub open spec fn empty() -> IndexedView {
        IndexedView { accounts: Seq::empty(), proofs: Seq::empty(), logs: Seq::empty() }
    }
}

impl IndexedData {
    /// Nothing found.
    pub fn new() -> (data: Self)
        ensures
            data@ == IndexedView::empty(),
    {
        let data = IndexedData { accounts: KeySet::new(), proofs: KeySet::new(), logs: Vec::new() };
        assert(data@.logs =~= Seq::<BlockLogView>::empty());
        data
    }
}

/// A log in which the first entry also names the accounts `involved`.
pub open spec fn log_with_involved(log: Seq<ActionLogView>, involved: Seq<Seq<char>>) -> Seq<
    ActionLogView,
> {
    if log.len() == 0 {
        log
    } else {
        log.update(
            0,
            ActionLogView {
                accounts: log[0].accounts + involved,
                proof: log[0].proof,
                method: log[0].method,
            },
        )
    }
}

/// `data` after the actions of one transaction or receipt of the block at
/// `height`. Where a call was read among them, the accounts `involved` in
/// the transaction are taken in, and the log gets an entry. The accounts and
/// proofs that the calls name are taken in either way.
pub open spec fn with_result(
    data: IndexedView,
    result: ActionResultView,
    involved: Seq<Seq<char>>,
    height: BlockHeight,
) -> IndexedView {
    let accounts = if result.is_action_found {
        with_all_keys(data.accounts, involved)
    } else {
        data.accounts
    };
    IndexedView {
        accounts: with_all_keys(accounts, result.accounts),
        proofs: with_all_keys(data.proofs, result.proofs),
        logs: if result.is_action_found {
            data.logs.push(
                BlockLogView {
                    block_height: height,
                    actions: log_with_involved(result.log, involved),
                },
            )
        } else {
            data.logs
        },
    }
}

/// `data` after one transaction: one sent to the tracked contract counts,
/// with its signer and the contract as the accounts involved.
pub open spec fn with_transaction(
    data: IndexedView,
    tx: TransactionView,
    height: BlockHeight,
) -> IndexedView {
    if tx.receiver_id@ != AURORA_CONTRACT@ {
        data
    } else {
        with_result(
            data,
            actions_result(tx.actions@, tx.actions@.len()),
            seq![tx.signer_id@, AURORA_CONTRACT@],
            height,
        )
    }
}

/// `data` after one receipt: one with actions for the tracked contract
/// counts, with its signer, its predecessor and the contract as the accounts
/// involved.
pub open spec fn with_receipt(data: IndexedView, receipt: ReceiptView, height: BlockHeight) -> IndexedView {
    if receipt.receiver_id@ != AURORA_CONTRACT@ {
        data
    } else {
        match receipt.receipt {
            ReceiptEnumView::Action { signer_id, actions } => with_result(
                data,
                actions_result(actions@, actions@.len()),
                seq![signer_id@, receipt.predecessor_id@, receipt.receiver_id@],
                height,
            ),
            ReceiptEnumView::Data => data,
        }
    }
}

/// `data` after the first `n` of `txs`.
pub open spec fn with_transactions(
    data: IndexedView,
    txs: Seq<TransactionView>,
    n: nat,
    height: BlockHeight,
) -> IndexedView
    decreases n,
{
    if n == 0 {
        data
    } else {
        with_transaction(with_transactions(data, txs, (n - 1) as nat, height), txs[n - 1], height)
    }
}

/// `data` after the first `n` of `receipts`.
pub open spec fn with_receipts(
    data: IndexedView,
    receipts: Seq<ReceiptView>,
    n: nat,
    height: BlockHeight,
) -> IndexedView
    decreases n,
{
    if n == 0 {
        data
    } else {
        with_receipt(
            with_receipts(data, receipts, (n - 1) as nat, height),
            receipts[n - 1],
            height,
        )
    }
}

/// `data` after one chunk: its transactions, then its receipts. A chunk that
/// could not be fetched adds nothing.
pub open spec fn with_chunk(data: IndexedView, chunk: Option<ChunkView>, height: BlockHeight) -> IndexedView {
    match chunk {
        Some(content) => with_receipts(
            with_transactions(data, content.transactions@, content.transactions@.len(), height),
            content.receipts@,
            content.receipts@.len(),
            height,
        ),
        None => data,
    }
}

/// `data` after the first `n` of `chunks`.
pub open spec fn with_chunks(
    data: IndexedView,
    chunks: Seq<Option<ChunkView>>,
    n: nat,
    height: BlockHeight,
) -> IndexedView
    decreases n,
{
    if n == 0 {
        data
    } else {
        with_chunk(with_chunks(data, chunks, (n - 1) as nat, height), chunks[n - 1], height)
    }
}

/// Whether one of the first `n` of `chunks` could not be fetched.
pub open spec fn chunk_missing(chunks: Seq<Option<ChunkView>>, n: nat) -> bool {
    exists|i: int| 0 <= i < n && (#[trigger] chunks[i]) is None
}

/// The tracked contract's account.
pub fn aurora_account() -> (account: AccountId)
    ensures
        account@ == AURORA_CONTRACT@,
{
    proof {
        reveal_strlit("aurora");
        assert(is_valid_account_id(AURORA_CONTRACT@));
    }
    match AccountId::parse(AURORA_CONTRACT) {
        Some(account) => account,
        None => unreached(),
    }
}

impl IndexedData {
    /// Takes in what the actions of one transaction or receipt yielded.
    pub fn absorb(&mut self, result: ActionResult, involved: Vec<AccountId>, height: BlockHeight)
        ensures
            final(self)@ == with_result(old(self)@, result@, keys_of(involved@), height),
    {
        let ActionResult { accounts, proofs, is_action_found, log } = result;
        if is_action_found {
            self.accounts.extend(&involved);
            let mut log = log;
            let ghost entries = log_view(log@);
            if log.len() > 0 {
                let mut first = log.remove(0);
                let ghost head = first@;
                let ghost rest = log@;
                let ghost names = first.accounts@;
                let mut involved = involved;
                let ghost more = involved@;
                first.accounts.append(&mut involved);
                assert(keys_of(first.accounts@) =~= keys_of(names) + keys_of(more));
                log.insert(0, first);
                assert(log_view(log@) =~= log_with_involved(entries, keys_of(more))) by {
                    assert(log_view(log@).len() == entries.len());
                    assert forall|i: int| 0 <= i < entries.len() implies log_view(log@)[i]
                        == log_with_involved(entries, keys_of(more))[i] by {
                        if i > 0 {
                            assert(log@[i] == rest[i - 1]);
                        }
                    }
                }
            }
            let entry = IndexedResultLog { block_height: height, actions: log };
            let ghost logs_before = self.logs@;
            self.logs.push(entry);
            assert(logs_view(self.logs@) =~= logs_view(logs_before).push(entry@));
        }
        self.accounts.extend(&accounts);
        self.proofs.extend(&proofs);
    }
}

/// Takes in the transactions of a chunk of the block at `height`.
pub fn index_transactions(data: &mut IndexedData, txs: &Vec<TransactionView>, height: BlockHeight)
    ensures
        final(data)@ == with_transactions(old(data)@, txs@, txs@.len(), height),
{
    let mut i: usize = 0;
    while i < txs.len()
        invariant
            i <= txs.len(),
            data@ == with_transactions(old(data)@, txs@, i as nat, height),
        decreases txs.len() - i,
    {
        let tx = &txs[i];
        // Only what is sent to the tracked contract counts.
        if same_text(tx.receiver_id.as_str(), AURORA_CONTRACT) {
            let result = collect_actions(&tx.actions);
            let mut involved: Vec<AccountId> = Vec::new();
            involved.push(tx.signer_id.clone());
            involved.push(aurora_account());
            assert(keys_of(involved@) =~= seq![tx.signer_id@, AURORA_CONTRACT@]);
            data.absorb(result, involved, height);
        }
        i += 1;
    }
}

/// Takes in the receipts of a chunk of the block at `height`.
pub fn index_receipts(data: &mut IndexedData, receipts: &Vec<ReceiptView>, height: BlockHeight)
    ensures
        final(data)@ == with_receipts(old(data)@, receipts@, receipts@.len(), height),
{
    let mut i: usize = 0;
    while i < receipts.len()
        invariant
            i <= receipts.len(),
            data@ == with_receipts(old(data)@, receipts@, i as nat, height),
        decreases receipts.len() - i,
    {
        let receipt = &receipts[i];
        // Only what is sent to the tracked contract counts.
        if same_text(receipt.receiver_id.as_str(), AURORA_CONTRACT) {
            match &receipt.receipt {
                ReceiptEnumView::Action { signer_id, actions } => {
                    let result = collect_actions(actions);
                    let mut involved: Vec<AccountId> = Vec::new();
                    involved.push(signer_id.clone());
                    involved.push(receipt.predecessor_id.clone());
                    involved.push(receipt.receiver_id.clone());
                    assert(keys_of(involved@) =~= seq![
                        signer_id@,
                        receipt.predecessor_id@,
                        receipt.receiver_id@,
                    ]);
                    data.absorb(result, involved, height);
                },
                ReceiptEnumView::Data => {},
            }
        }
        i += 1;
    }
}

impl Client {
    /// Indexes the chunks of the block at `block_height`, given what the
    /// node answered for each of them in turn (`None`: the chunk could not
    /// be fetched). The block is unresolved afterwards exactly if one of its
    /// chunks is missing.
    pub fn get_chunk_indexed_data(
        &mut self,
        chunks: Vec<Option<ChunkView>>,
        block_height: BlockHeight,
    ) -> (results: IndexedData)
        ensures
            results@ == with_chunks(IndexedView::empty(), chunks@, chunks@.len(), block_height),
            final(self).unresolved_blocks@ == if chunk_missing(chunks@, chunks@.len()) {
                old(self).unresolved_blocks@.insert(block_height)
            } else {
                old(self).unresolved_blocks@.remove(block_height)
            },
            final(self).last_call == old(self).last_call,
    {
        broadcast use vstd::std_specs::hash::group_hash_axioms;

        let mut results = IndexedData::new();
        let mut missing = false;
        let mut i: usize = 0;
        while i < chunks.len()
            invariant
                i <= chunks.len(),
                results@ == with_chunks(IndexedView::empty(), chunks@, i as nat, block_height),
                missing == chunk_missing(chunks@, i as nat),
            decreases chunks.len() - i,
        {
            match &chunks[i] {
                Some(content) => {
                    index_transactions(&mut results, &content.transactions, block_height);
                    index_receipts(&mut results, &content.receipts, block_height);
                    proof {
                        if chunk_missing(chunks@, (i + 1) as nat) {
                            let j = choose|j: int| 0 <= j < i + 1 && (#[trigger] chunks@[j]) is None;
                            assert(j < i);
                        }
                    }
                },
                None => {
                    missing = true;
                    assert(chunks@[i as int] is None);
                },
            }
            i += 1;
        }
        if missing {
            self.unresolved_blocks.insert(block_height);
        } else {
            self.unresolved_blocks.remove(&block_height);
        }
        results
    }
}

/// The hash of a block or of a chunk.
#[derive(Debug, Clone, Copy, PartialEq, Eq)]
pub struct CryptoHash(pub [u8; 32]);

impl View for CryptoHash {
    type V = Seq<u8>;

    open spec fn view(&self) -> Seq<u8> {
        self.0@
    }
}

impl CryptoHash {
    /// Whether two hashes are the same.
    pub fn same(&self, other: &CryptoHash) -> (b: bool)
        ensures
            b == (self@ == other@),
    {
        let mut i: usize = 0;
        while i < 32
            invariant
                i <= 32,
                forall|j: int| 0 <= j < i ==> self@[j] == other@[j],
            decreases 32 - i,
        {
            if self.0[i] != other.0[i] {
                return false;
            }
            i += 1;
        }
        assert(self@ =~= other@);
        true
    }
}

/// What the node says of a block.
#[derive(Debug, Clone, PartialEq, Eq)]
pub struct BlockView {
    pub height: BlockHeight,
    pub hash: CryptoHash,
    pub prev_hash: CryptoHash,
    pub chunks: Vec<CryptoHash>,
}

/// Why the node's data could not be had.
#[derive(Debug, Clone, Copy, PartialEq, Eq)]
pub enum FetchError {
    /// The latest final block could not be fetched.
    LatestUnavailable,
    /// The block at this height could not be fetched.
    BlockUnavailable(BlockHeight),
}

/// Why a commit or a view failed.
#[derive(Debug, Clone, PartialEq, Eq)]
pub enum CommitTx {
    /// The node did not answer with the signer's access key.
    AccessKey,
    /// The node could not be reached with the transaction.
    Commit(String),
    /// The node did not answer a view call with a result.
    View,
    /// The transaction did not succeed.
    Status(String),
}

/// What a `CommitTx` holds.
pub enum CommitTxView {
    AccessKey,
    Commit(Seq<char>),
    View,
    Status(Seq<char>),
}

impl View for CommitTx {
    type V = CommitTxView;

    open spec fn view(&self) -> CommitTxView {
        match self {
            CommitTx::AccessKey => CommitTxView::AccessKey,
            CommitTx::Commit(msg) => CommitTxView::Commit(msg@),
            CommitTx::View => CommitTxView::View,
            CommitTx::Status(msg) => CommitTxView::Status(msg@),
        }
    }
}

impl CommitTxView {
    /// The text that names the failure.
    pub open spec fn message(self) -> Seq<char> {
        match self {
            CommitTxView::AccessKey => "ERR_FAILED_GET_ACCESS_KEY"@,
            CommitTxView::Commit(msg) => "ERR_FAILED_COMMIT_TX: "@ + msg,
            CommitTxView::View => "ERR_FAILED_VIEW_TX"@,
            CommitTxView::Status(msg) => "ERR_TX_STATUS_FAIL: "@ + msg,
        }
    }
}

impl CommitTx {
    /// The text that names the failure.
    pub fn message(&self) -> (text: String)
        ensures
            text@ == self@.message(),
    {
        match self {
            CommitTx::AccessKey => "ERR_FAILED_GET_ACCESS_KEY".to_owned(),
            CommitTx::Commit(msg) => "ERR_FAILED_COMMIT_TX: ".to_owned().concat(msg.as_str()),
            CommitTx::View => "ERR_FAILED_VIEW_TX".to_owned(),
            CommitTx::Status(msg) => "ERR_TX_STATUS_FAIL: ".to_owned().concat(msg.as_str()),
        }
    }
}

/// What the node answers to a query.
#[derive(Debug, Clone, PartialEq, Eq)]
pub enum QueryResponse {
    /// The result of a view call.
    CallResult(Vec<u8>),
    /// An access key, with the nonce it has reached.
    AccessKey { nonce: u64 },
    /// Any other answer.
    Other,
}

/// How a transaction ended.
#[derive(Debug, Clone, PartialEq, Eq)]
pub enum FinalExecutionStatus {
    NotStarted,
    Started,
    Failure(String),
    SuccessValue(Vec<u8>),
}

/// What one attempt to commit a transaction gave: how the transaction
/// ended, or why the node could not be reached.
#[derive(Debug, Clone, PartialEq, Eq)]
pub enum CommitOutcome {
    Status(FinalExecutionStatus),
    Unreachable(String),
}

/// What to do after an attempt to commit.
#[derive(Debug, Clone, PartialEq, Eq)]
pub enum CommitStep {
    /// The transaction is committed.
    Done,
    /// Send it again; `retry` counts the attempts that failed.
    Retry { retry: u8 },
    /// Give up: every retry failed, the last one with `error`.
    Fatal { error: CommitTx },
}

/// What a `CommitStep` holds.
pub enum CommitStepView {
    Done,
    Retry { retry: u8 },
    Fatal { error: CommitTxView },
}

impl View for CommitStep {
    type V = CommitStepView;

    open spec fn view(&self) -> CommitStepView {
        match self {
            CommitStep::Done => CommitStepView::Done,
            CommitStep::Retry { retry } => CommitStepView::Retry { retry: *retry },
            CommitStep::Fatal { error } => CommitStepView::Fatal { error: error@ },
        }
    }
}

/// Why an attempt failed; nothing for one that succeeded.
pub open spec fn attempt_error(outcome: CommitOutcome) -> Option<CommitTxView> {
    match outcome {
        CommitOutcome::Status(FinalExecutionStatus::SuccessValue(_)) => None,
        CommitOutcome::Status(FinalExecutionStatus::Failure(msg)) => Some(
            CommitTxView::Status(msg@),
        ),
        CommitOutcome::Status(_) => Some(CommitTxView::Status("Other"@)),
        CommitOutcome::Unreachable(msg) => Some(CommitTxView::Commit(msg@)),
    }
}

/// What to do after an attempt, `retry` attempts having failed before it: a
/// success ends the commit; a failure is tried again until `RETRIES_COUNT`
/// retries have failed, and is fatal then.
pub open spec fn commit_step(retry: u8, outcome: CommitOutcome) -> CommitStepView {
    match attempt_error(outcome) {
        None => CommitStepView::Done,
        Some(error) => if retry < RETRIES_COUNT {
            CommitStepView::Retry { retry: (retry + 1) as u8 }
        } else {
            CommitStepView::Fatal { error }
        },
    }
}

/// A transaction that calls one method of a contract.
#[derive(Debug, Clone, PartialEq, Eq)]
pub struct TransactionRequest {
    pub signer_id: AccountId,
    pub receiver_id: AccountId,
    pub nonce: u64,
    pub block_hash: CryptoHash,
    pub method_name: String,
    pub args: Vec<u8>,
    pub gas: u64,
    pub deposit: u128,
}

/// A read-only call of one method of a contract, on the latest final block.
#[derive(Debug, Clone, PartialEq, Eq)]
pub struct ViewRequest {
    pub account_id: AccountId,
    pub method_name: String,
    pub args: Vec<u8>,
}

/// The time at which a request goes out that is scheduled at `now`.
pub open spec fn request_time(now: u64) -> u64 {
    if now + REQUEST_TIMEOUT <= u64::MAX {
        (now + REQUEST_TIMEOUT) as u64
    } else {
        u64::MAX
    }
}

impl Client {
    /// Schedules the next request: it goes out `REQUEST_TIMEOUT` after
    /// `now`, or at the end of time where that is sooner. Returns the time
    /// at which it goes out. Requests that are scheduled one after the
    /// other, each no sooner than the one before went out, are at least
    /// `REQUEST_TIMEOUT` apart.
    pub fn call(&mut self, now: u64) -> (at: u64)
        ensures
            at == request_time(now),
            final(self).last_call == Some(at),
            final(self).unresolved_blocks == old(self).unresolved_blocks,
            old(self).last_call matches Some(before) ==> (before <= now && now + REQUEST_TIMEOUT
                <= u64::MAX ==> at - before >= REQUEST_TIMEOUT),
    {
        let at = if now <= u64::MAX - REQUEST_TIMEOUT {
            now + REQUEST_TIMEOUT
        } else {
            u64::MAX
        };
        self.last_call = Some(at);
        at
    }

    /// Takes the node's answer to a request for a block (`None`: it gave
    /// none). A block asked for by height that did not come is unresolved
    /// from then on.
    pub fn get_block(&mut self, kind: BlockKind, fetched: Option<BlockView>) -> (r: Result<
        BlockView,
        FetchError,
    >)
        ensures
            final(self).last_call == old(self).last_call,
            match fetched {
                Some(block) => r == Ok::<BlockView, FetchError>(block)
                    && final(self).unresolved_blocks@ == old(self).unresolved_blocks@,
                None => match kind {
                    BlockKind::Height(height) => r == Err::<BlockView, FetchError>(
                        FetchError::BlockUnavailable(height),
                    ) && final(self).unresolved_blocks@ == old(self).unresolved_blocks@.insert(
                        height,
                    ),
                    BlockKind::Latest => r == Err::<BlockView, FetchError>(
                        FetchError::LatestUnavailable,
                    ) && final(self).unresolved_blocks@ == old(self).unresolved_blocks@,
                },
            },
    {
        broadcast use vstd::std_specs::hash::group_hash_axioms;

        match fetched {
            Some(block) => Ok(block),
            None => match kind {
                BlockKind::Height(height) => {
                    self.unresolved_blocks.insert(height);
                    Err(FetchError::BlockUnavailable(height))
                },
                BlockKind::Latest => Err(FetchError::LatestUnavailable),
            },
        }
    }

    /// The nonce that the signer's access key has reached, from the node's
    /// answer to the query for the key.
    pub fn access_key_nonce(&self, response: &QueryResponse) -> (r: Result<u64, CommitTx>)
        ensures
            match *response {
                QueryResponse::AccessKey { nonce } => r == Ok::<u64, CommitTx>(nonce),
                _ => r == Err::<u64, CommitTx>(CommitTx::AccessKey),
            },
    {
        match response {
            QueryResponse::AccessKey { nonce } => Ok(*nonce),
            _ => Err(CommitTx::AccessKey),
        }
    }

    /// The transaction that calls `method` of `contract` for `signer`, whose
    /// access key has reached `current_nonce`.
    pub fn prepare_transaction(
        &self,
        signer: AccountId,
        contract: AccountId,
        current_nonce: u64,
        block_hash: CryptoHash,
        method: String,
        args: Vec<u8>,
    ) -> (tx: TransactionRequest)
        requires
            current_nonce < u64::MAX,
        ensures
            tx.signer_id == signer,
            tx.receiver_id == contract,
            tx.nonce == current_nonce + 1,
            tx.block_hash == block_hash,
            tx.method_name == method,
            tx.args == args,
            tx.gas == GAS_FOR_COMMIT_TX,
            tx.deposit == 0,
    {
        TransactionRequest {
            signer_id: signer,
            receiver_id: contract,
            nonce: current_nonce + 1,
            block_hash,
            method_name: method,
            args,
            gas: GAS_FOR_COMMIT_TX,
            deposit: 0,
        }
    }

    /// Decides what follows an attempt to commit a transaction, `retry`
    /// attempts having failed before it.
    pub fn commit_tx(&self, retry: u8, outcome: CommitOutcome) -> (step: CommitStep)
        ensures
            step@ == commit_step(retry, outcome),
    {
        let error = match outcome {
            CommitOutcome::Status(FinalExecutionStatus::SuccessValue(_)) => {
                return CommitStep::Done;
            },
            CommitOutcome::Status(FinalExecutionStatus::Failure(msg)) => CommitTx::Status(msg),
            CommitOutcome::Status(FinalExecutionStatus::NotStarted) => CommitTx::Status(
                "Other".to_owned(),
            ),
            CommitOutcome::Status(FinalExecutionStatus::Started) => CommitTx::Status(
                "Other".to_owned(),
            ),
            CommitOutcome::Unreachable(msg) => CommitTx::Commit(msg),
        };
        if retry < RETRIES_COUNT {
            CommitStep::Retry { retry: retry + 1 }
        } else {
            CommitStep::Fatal { error }
        }
    }

    /// The read-only call of `method` of `contract`; nothing where
    /// `contract` is no account identifier.
    pub fn view_request(&self, contract: &str, method: String, args: Vec<u8>) -> (r: Option<
        ViewRequest,
    >)
        ensures
            r.is_some() == is_valid_account_id(contract@),
            r matches Some(request) ==> request.account_id@ == contract@ && request.method_name
                == method && request.args == args,
    {
        match AccountId::parse(contract) {
            Some(account_id) => Some(ViewRequest { account_id, method_name: method, args }),
            None => None,
        }
    }

    /// The result of a view call, from the node's answer to it. Any answer
    /// but a result is an error.
    pub fn request_view(&self, response: QueryResponse) -> (r: Result<Vec<u8>, CommitTx>)
        ensures
            match response {
                QueryResponse::CallResult(result) => r == Ok::<Vec<u8>, CommitTx>(result),
                _ => r == Err::<Vec<u8>, CommitTx>(CommitTx::View),
            },
    {
        match response {
            QueryResponse::CallResult(result) => Ok(result),
            _ => Err(CommitTx::View),
        }
    }
}

impl Default for Client {
    fn default() -> (client: Self)
        ensures
            client.unresolved_blocks@ == Set::<BlockHeight>::empty(),
            client.last_call is None,
    {
        Client::new()
    }
}

/// A commit that succeeds is done whatever came before; one that fails is
/// tried again while fewer than `RETRIES_COUNT` attempts have failed before
/// it, and is given up then and not before.
pub proof fn lemma_commit_retries(retry: u8, outcome: CommitOutcome)
    ensures
        commit_step(retry, outcome) is Done <==> attempt_error(outcome) is None,
        commit_step(retry, outcome) is Fatal <==> attempt_error(outcome) is Some && retry
            >= RETRIES_COUNT,
        commit_step(retry, outcome) matches CommitStepView::Retry { retry: next } ==> next == retry
            + 1 && next <= RETRIES_COUNT,
{
}

} // verus!
