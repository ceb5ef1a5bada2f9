use aurora_engine_migration_tool::account::AccountId;

#[test]
fn account_id_accepts_plain_names() {
    let id = AccountId::parse("alice.near").unwrap();
    assert_eq!(id.as_str(), "alice.near");
    assert!(AccountId::parse("aa").is_some());
    assert!(AccountId::parse("b-o_w_e-n").is_some());
}

#[test]
fn account_id_rejects_malformed_names() {
    assert!(AccountId::parse("a").is_none());
    assert!(AccountId::parse("").is_none());
    assert!(AccountId::parse("Alice.near").is_none());
    assert!(AccountId::parse("alice.").is_none());
    assert!(AccountId::parse(".alice").is_none());
    assert!(AccountId::parse("alice..near").is_none());
    assert!(AccountId::parse("alice-.near").is_none());
    let long: String = std::iter::repeat('a').take(65).collect();
    assert!(AccountId::parse(&long).is_none());
    let max: String = std::iter::repeat('a').take(64).collect();
    assert!(AccountId::parse(&max).is_some());
}
