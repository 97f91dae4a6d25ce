//! Tests of the query service: lookup, paginated listing, and validator
//! resolution.

use name_service::contract::{execute, instantiate, query, query_list, query_lookup, query_validator_info};
use name_service::error::ContractError;
use name_service::msg::{
    ExecuteMsg, InstantiateMsg, MessageInfo, QueryAnswer, QueryMsg, RegistrationMsg, ValidatorInfo,
};
use name_service::state::{Coin, Entry, Metadata, Registry};

fn coin(amount: u128, denom: &str) -> Coin {
    Coin { denom: denom.to_string(), amount }
}

fn fresh_registry() -> Registry {
    instantiate(InstantiateMsg {
        registration_fee: coin(100, "ucosm"),
        transfer_fee: coin(100, "ucosm"),
    })
}

fn register(registry: &mut Registry, sender: &str, name: &str, metadata: Metadata) {
    execute(
        registry,
        MessageInfo { sender: sender.to_string(), funds: vec![coin(100, "ucosm")] },
        ExecuteMsg::Register(RegistrationMsg { name: name.to_string(), metadata }),
    )
    .unwrap();
}

fn no_metadata() -> Metadata {
    Metadata { url: None, validator_address: None }
}

fn names(page: &[(String, Entry)]) -> Vec<String> {
    page.iter().map(|(n, _)| n.clone()).collect()
}

#[test]
fn list_pages_walk_the_whole_registry_in_order() {
    let mut registry = fresh_registry();
    // Registered out of order on purpose.
    for name in ["dave", "adam", "erin", "bob1", "carl"] {
        register(&mut registry, "user", name, no_metadata());
    }

    let mut seen: Vec<String> = Vec::new();
    let mut cursor: Option<String> = None;
    loop {
        let page = query_list(&registry, cursor.clone(), Some(2)).entries;
        assert!(page.len() <= 2);
        if page.is_empty() {
            break;
        }
        cursor = Some(page.last().unwrap().0.clone());
        seen.extend(names(&page));
    }
    assert_eq!(seen, vec!["adam", "bob1", "carl", "dave", "erin"]);
}

#[test]
fn list_defaults_to_a_hundred_and_honors_the_cursor() {
    let mut registry = fresh_registry();
    for name in ["dave", "adam", "erin", "bob1", "carl"] {
        register(&mut registry, "user", name, no_metadata());
    }

    let all = query_list(&registry, None, None).entries;
    assert_eq!(names(&all), vec!["adam", "bob1", "carl", "dave", "erin"]);

    // The cursor is exclusive.
    let after = query_list(&registry, Some("bob1".to_string()), None).entries;
    assert_eq!(names(&after), vec!["carl", "dave", "erin"]);

    // A cursor between two names starts at the next one.
    let between = query_list(&registry, Some("bob2".to_string()), None).entries;
    assert_eq!(names(&between), vec!["carl", "dave", "erin"]);

    let none = query_list(&registry, Some("erin".to_string()), None).entries;
    assert!(none.is_empty());

    let limited = query_list(&registry, None, Some(0)).entries;
    assert!(limited.is_empty());
}

#[test]
fn lookup_agrees_with_the_full_listing() {
    let mut registry = fresh_registry();
    for name in ["dave", "adam", "carl"] {
        register(&mut registry, "user", name, no_metadata());
    }

    let entry = query_lookup(&registry, "carl".to_string()).unwrap();
    let all = query_list(&registry, None, None).entries;
    let hits: Vec<&(String, Entry)> = all.iter().filter(|(n, _)| n == "carl").collect();
    assert_eq!(hits.len(), 1);
    assert_eq!(hits[0].1, entry);
}

#[test]
fn lookup_unknown_name_is_not_found() {
    let registry = fresh_registry();
    let err = query_lookup(&registry, "ghost".to_string()).unwrap_err();
    assert!(matches!(err, ContractError::NotFound));
}

fn validator(address: &str) -> ValidatorInfo {
    ValidatorInfo {
        address: address.to_string(),
        commission: 5,
        max_commission: 20,
        max_change_rate: 1,
    }
}

#[test]
fn validator_info_resolves_through_the_directory() {
    let mut registry = fresh_registry();
    register(
        &mut registry,
        "user",
        "vala",
        Metadata { url: None, validator_address: Some("valoper-a".to_string()) },
    );
    register(&mut registry, "user", "plain", no_metadata());

    let directory = vec![validator("valoper-z"), validator("valoper-a")];

    let found = query_validator_info(&registry, &directory, "vala".to_string()).unwrap();
    assert_eq!(found, validator("valoper-a"));

    // No validator address recorded.
    let err = query_validator_info(&registry, &directory, "plain".to_string()).unwrap_err();
    assert!(matches!(err, ContractError::NotAValidator));

    // Recorded, but the directory has no such validator.
    let empty: Vec<ValidatorInfo> = Vec::new();
    let err = query_validator_info(&registry, &empty, "vala".to_string()).unwrap_err();
    assert!(matches!(err, ContractError::NotAValidator));

    // Unknown name.
    let err = query_validator_info(&registry, &directory, "ghost".to_string()).unwrap_err();
    assert!(matches!(err, ContractError::NotFound));
}

#[test]
fn query_dispatches_every_kind() {
    let mut registry = fresh_registry();
    register(
        &mut registry,
        "user",
        "vala",
        Metadata { url: None, validator_address: Some("valoper-a".to_string()) },
    );
    let directory = vec![validator("valoper-a")];

    match query(&registry, &directory, QueryMsg::Lookup { name: "vala".to_string() }).unwrap() {
        QueryAnswer::Entry(e) => assert_eq!(e.owner, "user"),
        other => panic!("expected an entry, got {:?}", other),
    }

    match query(&registry, &directory, QueryMsg::List { start_after: None, limit: None }).unwrap()
    {
        QueryAnswer::List(l) => assert_eq!(l.entries.len(), 1),
        other => panic!("expected a listing, got {:?}", other),
    }

    match query(
        &registry,
        &directory,
        QueryMsg::QueryValidatorInfo { name: "vala".to_string() },
    )
    .unwrap()
    {
        QueryAnswer::ValidatorInfo(v) => assert_eq!(v.address, "valoper-a"),
        other => panic!("expected validator info, got {:?}", other),
    }

    let err =
        query(&registry, &directory, QueryMsg::Lookup { name: "ghost".to_string() }).unwrap_err();
    assert!(matches!(err, ContractError::NotFound));
}

#[test]
fn reopening_a_registry_keeps_its_contents() {
    let mut registry = fresh_registry();
    for name in ["dave", "adam", "carl"] {
        register(&mut registry, "user", name, no_metadata());
    }
    let stored = query_list(&registry, None, None).entries;
    let config = registry.config().clone();

    let reopened = Registry::open(config.clone(), stored).unwrap();
    let all = query_list(&reopened, None, None).entries;
    assert_eq!(names(&all), vec!["adam", "carl", "dave"]);

    // An out-of-order entry list is refused.
    let entry = Entry { owner: "user".to_string(), metadata: no_metadata() };
    let unsorted = vec![
        ("bob1".to_string(), entry.clone()),
        ("adam".to_string(), entry),
    ];
    assert!(Registry::open(config, unsorted).is_none());
}
