use aurora_engine_migration_tool::account::AccountId;
use aurora_engine_migration_tool::json::{find_field, JsonField, JsonValue};
use aurora_engine_migration_tool::rpc::{
    collect_actions, decode_finish_deposit, parse_call, transfer_receiver_of, ActionResultLog,
    ActionView, CallMethod, Client, ParsedCall,
};

fn id(name: &str) -> AccountId {
    AccountId::parse(name).unwrap()
}

fn text(out: &mut Vec<u8>, value: &str) {
    out.extend_from_slice(&(value.len() as u32).to_le_bytes());
    out.extend_from_slice(value.as_bytes());
}

fn finish_deposit_args(
    owner: &str,
    amount: u128,
    proof: &str,
    relayer: &str,
    fee: u128,
    msg: Option<&[u8]>,
) -> Vec<u8> {
    let mut out = Vec::new();
    text(&mut out, owner);
    out.extend_from_slice(&amount.to_le_bytes());
    text(&mut out, proof);
    text(&mut out, relayer);
    out.extend_from_slice(&fee.to_le_bytes());
    match msg {
        None => out.push(0),
        Some(bytes) => {
            out.push(1);
            out.extend_from_slice(&(bytes.len() as u32).to_le_bytes());
            out.extend_from_slice(bytes);
        }
    }
    out
}

fn call(method: &str, args: &[u8]) -> ActionView {
    ActionView::FunctionCall { method_name: method.to_string(), args: args.to_vec() }
}

#[test]
fn method_names_map_to_the_calls_that_are_read() {
    assert_eq!(CallMethod::from_name("ft_transfer"), CallMethod::FtTransfer);
    assert_eq!(CallMethod::from_name("deposit"), CallMethod::Deposit);
    assert_eq!(CallMethod::from_name("ft_transfer_call"), CallMethod::FtTransferCall);
    assert_eq!(CallMethod::from_name("withdraw"), CallMethod::Withdraw);
    assert_eq!(CallMethod::from_name("finish_deposit"), CallMethod::FinishDeposit);
    assert_eq!(CallMethod::from_name("ft_balance_of"), CallMethod::Ignored);
    assert_eq!(CallMethod::from_name(""), CallMethod::Ignored);
    assert_eq!(CallMethod::from_name("FT_TRANSFER"), CallMethod::Ignored);
    assert!(CallMethod::FtTransfer.is_recognized());
    assert!(CallMethod::Withdraw.is_recognized());
    assert!(!CallMethod::Ignored.is_recognized());
}

#[test]
fn transfer_names_its_receiver() {
    let args = br#"{"receiver_id":"bob.near","amount":"1000","memo":null}"#;
    let parsed = parse_call("ft_transfer", args);
    assert_eq!(parsed, ParsedCall { accounts: vec![id("bob.near")], proof: None, malformed: false });
    let without_memo = br#"{"amount":"0","receiver_id":"bob.near"}"#;
    assert_eq!(parse_call("ft_transfer", without_memo).accounts, vec![id("bob.near")]);
    let with_memo = br#"{"amount":"+7","receiver_id":"bob.near","memo":"hi","extra":[1,2]}"#;
    assert_eq!(parse_call("ft_transfer", with_memo).accounts, vec![id("bob.near")]);
}

#[test]
fn transfer_with_bad_arguments_yields_nothing() {
    let cases: Vec<&[u8]> = vec![
        b"",
        b"not json",
        br#"["bob.near","1000",null]"#,
        br#"{"amount":"1000"}"#,
        br#"{"receiver_id":"bob.near"}"#,
        br#"{"receiver_id":"Bob.near","amount":"1000"}"#,
        br#"{"receiver_id":"bob.near","amount":1000}"#,
        br#"{"receiver_id":"bob.near","amount":"12x"}"#,
        br#"{"receiver_id":"bob.near","amount":""}"#,
        br#"{"receiver_id":"bob.near","amount":"-1"}"#,
        br#"{"receiver_id":"bob.near","amount":"340282366920938463463374607431768211456"}"#,
        br#"{"receiver_id":"bob.near","amount":"1","memo":5}"#,
        br#"{"receiver_id":17,"amount":"1"}"#,
    ];
    for args in cases {
        let parsed = parse_call("ft_transfer", args);
        assert_eq!(parsed, ParsedCall { accounts: vec![], proof: None, malformed: true });
    }
    let largest = br#"{"receiver_id":"bob.near","amount":"340282366920938463463374607431768211455"}"#;
    assert_eq!(parse_call("ft_transfer", largest).accounts, vec![id("bob.near")]);
}

#[test]
fn transfer_call_needs_a_message() {
    let with_msg = br#"{"receiver_id":"bob.near","amount":"5","msg":"go"}"#;
    assert_eq!(
        parse_call("ft_transfer_call", with_msg),
        ParsedCall { accounts: vec![id("bob.near")], proof: None, malformed: false }
    );
    let without_msg = br#"{"receiver_id":"bob.near","amount":"5"}"#;
    assert_eq!(
        parse_call("ft_transfer_call", without_msg),
        ParsedCall { accounts: vec![], proof: None, malformed: true }
    );
    let null_msg = br#"{"receiver_id":"bob.near","amount":"5","msg":null}"#;
    assert!(parse_call("ft_transfer_call", null_msg).malformed);
    // A plain transfer does not look at the message.
    assert!(!parse_call("ft_transfer", null_msg).malformed);
}

#[test]
fn finish_deposit_names_owner_relayer_and_proof() {
    let args = finish_deposit_args("alice.near", 500, "proof-key-1", "relayer.near", 3, None);
    let deposit = decode_finish_deposit(&args).unwrap();
    assert_eq!(deposit.new_owner_id, id("alice.near"));
    assert_eq!(deposit.amount, 500);
    assert_eq!(deposit.proof_key, "proof-key-1");
    assert_eq!(deposit.relayer_id, id("relayer.near"));
    assert_eq!(deposit.fee, 3);
    assert_eq!(deposit.msg, None);
    assert_eq!(
        parse_call("finish_deposit", &args),
        ParsedCall {
            accounts: vec![id("alice.near"), id("relayer.near")],
            proof: Some("proof-key-1".to_string()),
            malformed: false,
        }
    );

    let big = (1u128 << 127) + 12345;
    let with_msg =
        finish_deposit_args("alice.near", big, "p", "relayer.near", u128::MAX, Some(&[9, 8, 7]));
    let deposit = decode_finish_deposit(&with_msg).unwrap();
    assert_eq!(deposit.amount, big);
    assert_eq!(deposit.fee, u128::MAX);
    assert_eq!(deposit.msg, Some(vec![9, 8, 7]));
    let empty_msg = finish_deposit_args("alice.near", 1, "", "relayer.near", 0, Some(&[]));
    let deposit = decode_finish_deposit(&empty_msg).unwrap();
    assert_eq!(deposit.proof_key, "");
    assert_eq!(deposit.msg, Some(vec![]));
}

#[test]
fn finish_deposit_with_bad_arguments_yields_nothing() {
    let good = finish_deposit_args("alice.near", 500, "key", "relayer.near", 3, None);
    let malformed = ParsedCall { accounts: vec![], proof: None, malformed: true };
    assert_eq!(parse_call("finish_deposit", &[]), malformed);
    assert_eq!(parse_call("finish_deposit", &good[..good.len() - 1]), malformed);
    let mut trailing = good.clone();
    trailing.push(0);
    assert_eq!(parse_call("finish_deposit", &trailing), malformed);
    let mut bad_flag = good.clone();
    *bad_flag.last_mut().unwrap() = 2;
    assert_eq!(parse_call("finish_deposit", &bad_flag), malformed);
    let bad_owner = finish_deposit_args("Alice", 500, "key", "relayer.near", 3, None);
    assert_eq!(parse_call("finish_deposit", &bad_owner), malformed);
    let bad_relayer = finish_deposit_args("alice.near", 500, "key", "r", 3, None);
    assert_eq!(parse_call("finish_deposit", &bad_relayer), malformed);
    let mut bad_text = Vec::new();
    bad_text.extend_from_slice(&2u32.to_le_bytes());
    bad_text.extend_from_slice(&[0xff, 0xff]);
    assert_eq!(parse_call("finish_deposit", &bad_text), malformed);
    let mut short_text = Vec::new();
    short_text.extend_from_slice(&10u32.to_le_bytes());
    short_text.extend_from_slice(b"alice");
    assert_eq!(parse_call("finish_deposit", &short_text), malformed);
    assert_eq!(parse_call("finish_deposit", br#"{"new_owner_id":"alice.near"}"#), malformed);
}

#[test]
fn calls_without_accounts_and_unknown_calls_yield_nothing() {
    let nothing = ParsedCall { accounts: vec![], proof: None, malformed: false };
    assert_eq!(parse_call("withdraw", b"anything"), nothing);
    assert_eq!(parse_call("deposit", b""), nothing);
    assert_eq!(parse_call("storage_deposit", br#"{"receiver_id":"bob.near","amount":"1"}"#), nothing);
    assert_eq!(parse_call("", b""), nothing);
}

#[test]
fn parse_action_argument_gives_accounts_and_proof() {
    let client = Client::new();
    let transfer = br#"{"receiver_id":"bob.near","amount":"1000"}"#;
    assert_eq!(client.parse_action_argument("ft_transfer", transfer), (vec![id("bob.near")], None));
    let deposit = finish_deposit_args("alice.near", 1, "k", "relayer.near", 0, None);
    assert_eq!(
        client.parse_action_argument("finish_deposit", &deposit),
        (vec![id("alice.near"), id("relayer.near")], Some("k".to_string()))
    );
    assert_eq!(client.parse_action_argument("ft_transfer", b"{"), (vec![], None));
    assert_eq!(client.parse_action_argument("other", transfer), (vec![], None));
}

#[test]
fn receiver_is_read_from_the_members() {
    let member = |name: &str, value: JsonValue| JsonField { name: name.to_string(), value };
    let fields = vec![
        member("amount", JsonValue::Text("12".to_string())),
        member("memo", JsonValue::Null),
        member("receiver_id", JsonValue::Text("bob.near".to_string())),
    ];
    assert_eq!(find_field(&fields, "amount"), Some(&JsonValue::Text("12".to_string())));
    assert_eq!(find_field(&fields, "memo"), Some(&JsonValue::Null));
    assert_eq!(find_field(&fields, "msg"), None);
    assert_eq!(transfer_receiver_of(&fields, false), Some(id("bob.near")));
    assert_eq!(transfer_receiver_of(&fields, true), None);
    let other_memo = vec![
        member("amount", JsonValue::Text("12".to_string())),
        member("memo", JsonValue::Other),
        member("receiver_id", JsonValue::Text("bob.near".to_string())),
    ];
    assert_eq!(transfer_receiver_of(&other_memo, false), None);
    let twice = vec![
        member("receiver_id", JsonValue::Text("first.near".to_string())),
        member("receiver_id", JsonValue::Text("second.near".to_string())),
        member("amount", JsonValue::Text("1".to_string())),
        member("msg", JsonValue::Text(String::new())),
    ];
    assert_eq!(transfer_receiver_of(&twice, true), Some(id("first.near")));
    assert_eq!(transfer_receiver_of(&vec![], false), None);
}

#[test]
fn actions_are_collected_in_order() {
    let transfer = br#"{"receiver_id":"bob.near","amount":"1"}"#;
    let deposit = finish_deposit_args("alice.near", 1, "key-1", "relayer.near", 0, None);
    let actions = vec![
        ActionView::Other,
        call("ft_transfer", transfer),
        call("storage_deposit", b"{}"),
        call("withdraw", b""),
        call("finish_deposit", &deposit),
        call("ft_transfer", b"broken"),
    ];
    let result = collect_actions(&actions);
    assert!(result.is_action_found);
    assert_eq!(result.accounts, vec![id("bob.near"), id("alice.near"), id("relayer.near")]);
    assert_eq!(result.proofs, vec!["key-1".to_string()]);
    assert_eq!(
        result.log,
        vec![
            ActionResultLog {
                accounts: vec![id("bob.near")],
                proof: String::new(),
                method: "ft_transfer".to_string(),
            },
            ActionResultLog { accounts: vec![], proof: String::new(), method: "withdraw".to_string() },
            ActionResultLog {
                accounts: vec![id("alice.near"), id("relayer.near")],
                proof: "key-1".to_string(),
                method: "finish_deposit".to_string(),
            },
            ActionResultLog {
                accounts: vec![],
                proof: String::new(),
                method: "ft_transfer".to_string(),
            },
        ]
    );
    let mut client = Client::new();
    assert_eq!(client.get_actions_data(actions), result);
}

#[test]
fn actions_that_are_not_read_find_nothing() {
    let mut client = Client::new();
    let result =
        client.get_actions_data(vec![ActionView::Other, call("new", b""), call("ft_mint", b"{}")]);
    assert!(!result.is_action_found);
    assert!(result.accounts.is_empty());
    assert!(result.proofs.is_empty());
    assert!(result.log.is_empty());
    let empty = client.get_actions_data(vec![]);
    assert!(!empty.is_action_found);
    assert!(empty.log.is_empty());
}
