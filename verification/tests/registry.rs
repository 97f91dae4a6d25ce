//! Tests of the state-mutating operations: register, transfer, fund
//! forwarding, and the fee rule.

use name_service::contract::{execute, instantiate, query_lookup};
use name_service::error::ContractError;
use name_service::msg::{BankSendMsg, ExecuteMsg, InstantiateMsg, MessageInfo, RegistrationMsg};
use name_service::state::{Coin, Metadata};

fn coin(amount: u128, denom: &str) -> Coin {
    Coin { denom: denom.to_string(), amount }
}

fn no_metadata() -> Metadata {
    Metadata { url: None, validator_address: None }
}

fn register_msg(name: &str) -> ExecuteMsg {
    ExecuteMsg::Register(RegistrationMsg { name: name.to_string(), metadata: no_metadata() })
}

fn info(sender: &str, funds: Vec<Coin>) -> MessageInfo {
    MessageInfo { sender: sender.to_string(), funds }
}

fn make_addr(label: &str) -> String {
    cosmwasm_std::testing::MockApi::default().addr_make(label).into_string()
}

#[test]
fn cannot_steal_entry() {
    let fee = coin(100, "ucosm");
    let mut registry = instantiate(InstantiateMsg {
        registration_fee: fee.clone(),
        transfer_fee: fee.clone(),
    });
    let user1 = make_addr("user1");
    let user2 = make_addr("user2");

    // user1 registers
    execute(&mut registry, info(&user1, vec![fee.clone()]), register_msg("myname")).unwrap();

    // user2 tries to register it
    execute(&mut registry, info(&user2, vec![fee.clone()]), register_msg("myname")).unwrap_err();

    // user2 tries to transfer it
    execute(
        &mut registry,
        info(&user2, vec![fee.clone()]),
        ExecuteMsg::Transfer { name: "myname".to_string(), to: user2.clone() },
    )
    .unwrap_err();
}

#[test]
fn register_then_transfer_lifecycle() {
    let fee = coin(100, "ucosm");
    let mut registry = instantiate(InstantiateMsg {
        registration_fee: fee.clone(),
        transfer_fee: fee.clone(),
    });
    let user_a = "user-a";
    let user_b = "user-b";
    let b_addr = make_addr("user-b");

    // A registers "alice" paying the exact fee.
    execute(&mut registry, info(user_a, vec![fee.clone()]), register_msg("alice")).unwrap();

    // B cannot register the taken name, even paying the fee.
    let err = execute(&mut registry, info(user_b, vec![fee.clone()]), register_msg("alice"))
        .unwrap_err();
    assert!(matches!(err, ContractError::Unauthorized));

    // B cannot transfer a name it does not own.
    let err = execute(
        &mut registry,
        info(user_b, vec![fee.clone()]),
        ExecuteMsg::Transfer { name: "alice".to_string(), to: b_addr.clone() },
    )
    .unwrap_err();
    assert!(matches!(err, ContractError::Unauthorized));

    // A transfers to B with the correct transfer fee.
    execute(
        &mut registry,
        info(user_a, vec![fee.clone()]),
        ExecuteMsg::Transfer { name: "alice".to_string(), to: b_addr.clone() },
    )
    .unwrap();

    let entry = query_lookup(&registry, "alice".to_string()).unwrap();
    assert_eq!(entry.owner, b_addr);
    assert_eq!(entry.metadata, no_metadata());
}

#[test]
fn register_rejects_bad_name_lengths() {
    let fee = coin(100, "ucosm");
    let mut registry = instantiate(InstantiateMsg {
        registration_fee: fee.clone(),
        transfer_fee: fee.clone(),
    });

    // Two characters: too short.
    let err =
        execute(&mut registry, info("user", vec![fee.clone()]), register_msg("ab")).unwrap_err();
    assert_eq!(err, ContractError::Validation { field: "name".to_string() });

    // Sixty-five characters: too long.
    let long = "a".repeat(65);
    let err =
        execute(&mut registry, info("user", vec![fee.clone()]), register_msg(&long)).unwrap_err();
    assert_eq!(err, ContractError::Validation { field: "name".to_string() });

    // The bounds themselves are fine.
    execute(&mut registry, info("user", vec![fee.clone()]), register_msg("abc")).unwrap();
    let max = "a".repeat(64);
    execute(&mut registry, info("user", vec![fee.clone()]), register_msg(&max)).unwrap();
}

#[test]
fn register_rejects_bad_url() {
    let fee = coin(100, "ucosm");
    let mut registry = instantiate(InstantiateMsg {
        registration_fee: fee.clone(),
        transfer_fee: fee.clone(),
    });

    let err = execute(
        &mut registry,
        info("user", vec![fee.clone()]),
        ExecuteMsg::Register(RegistrationMsg {
            name: "site".to_string(),
            metadata: Metadata { url: Some("not a url".to_string()), validator_address: None },
        }),
    )
    .unwrap_err();
    assert_eq!(err, ContractError::Validation { field: "url".to_string() });

    execute(
        &mut registry,
        info("user", vec![fee.clone()]),
        ExecuteMsg::Register(RegistrationMsg {
            name: "site".to_string(),
            metadata: Metadata {
                url: Some("https://example.com".to_string()),
                validator_address: None,
            },
        }),
    )
    .unwrap();
}

#[test]
fn underpaying_reports_given_and_expected() {
    let mut registry = instantiate(InstantiateMsg {
        registration_fee: coin(100, "ucosm"),
        transfer_fee: coin(100, "ucosm"),
    });

    let err = execute(
        &mut registry,
        info("user", vec![coin(99, "ucosm")]),
        register_msg("myname"),
    )
    .unwrap_err();
    assert_eq!(
        err,
        ContractError::InvalidRegistrationFee {
            given: vec![coin(99, "ucosm")],
            expected: coin(100, "ucosm"),
        }
    );
}

#[test]
fn fee_must_be_exactly_one_matching_coin() {
    let fee = coin(100, "ucosm");
    let mut registry = instantiate(InstantiateMsg {
        registration_fee: fee.clone(),
        transfer_fee: fee.clone(),
    });

    // No funds at all.
    let err = execute(&mut registry, info("user", vec![]), register_msg("myname")).unwrap_err();
    assert!(matches!(err, ContractError::InvalidRegistrationFee { .. }));

    // Overpaying fails too.
    let err = execute(&mut registry, info("user", vec![coin(101, "ucosm")]), register_msg("myname"))
        .unwrap_err();
    assert!(matches!(err, ContractError::InvalidRegistrationFee { .. }));

    // The right amount in the wrong denomination.
    let err = execute(&mut registry, info("user", vec![coin(100, "uatom")]), register_msg("myname"))
        .unwrap_err();
    assert!(matches!(err, ContractError::InvalidRegistrationFee { .. }));

    // Two units, even if one matches.
    let err = execute(
        &mut registry,
        info("user", vec![coin(100, "ucosm"), coin(1, "uatom")]),
        register_msg("myname"),
    )
    .unwrap_err();
    assert!(matches!(err, ContractError::InvalidRegistrationFee { .. }));

    // Nothing was registered by any of the failed attempts.
    let err = query_lookup(&registry, "myname".to_string()).unwrap_err();
    assert!(matches!(err, ContractError::NotFound));

    // The exact fee is accepted.
    execute(&mut registry, info("user", vec![fee.clone()]), register_msg("myname")).unwrap();
}

#[test]
fn transfer_unknown_name_is_not_found() {
    let fee = coin(100, "ucosm");
    let mut registry = instantiate(InstantiateMsg {
        registration_fee: fee.clone(),
        transfer_fee: fee.clone(),
    });

    let err = execute(
        &mut registry,
        info("user", vec![fee.clone()]),
        ExecuteMsg::Transfer { name: "ghost".to_string(), to: make_addr("user-b") },
    )
    .unwrap_err();
    assert!(matches!(err, ContractError::NotFound));
}

#[test]
fn transfer_rejects_invalid_destination() {
    let fee = coin(100, "ucosm");
    let mut registry = instantiate(InstantiateMsg {
        registration_fee: fee.clone(),
        transfer_fee: fee.clone(),
    });

    execute(&mut registry, info("user-a", vec![fee.clone()]), register_msg("myname")).unwrap();

    let err = execute(
        &mut registry,
        info("user-a", vec![fee.clone()]),
        ExecuteMsg::Transfer { name: "myname".to_string(), to: "NOT AN ADDRESS".to_string() },
    )
    .unwrap_err();
    assert_eq!(err, ContractError::Validation { field: "to".to_string() });

    // The owner is unchanged.
    let entry = query_lookup(&registry, "myname".to_string()).unwrap();
    assert_eq!(entry.owner, "user-a");
}

#[test]
fn send_funds_to_forwards_to_owner() {
    let fee = coin(100, "ucosm");
    let mut registry = instantiate(InstantiateMsg {
        registration_fee: fee.clone(),
        transfer_fee: fee.clone(),
    });

    execute(&mut registry, info("owner-a", vec![fee.clone()]), register_msg("myname")).unwrap();

    // Any caller may forward its attached funds; no fee is charged.
    let resp = execute(
        &mut registry,
        info("anyone", vec![coin(7, "ucosm"), coin(3, "uatom")]),
        ExecuteMsg::SendFundsTo { name: "myname".to_string() },
    )
    .unwrap();
    assert_eq!(
        resp.messages,
        vec![BankSendMsg {
            to_address: "owner-a".to_string(),
            amount: vec![coin(7, "ucosm"), coin(3, "uatom")],
        }]
    );

    let err = execute(
        &mut registry,
        info("anyone", vec![coin(7, "ucosm")]),
        ExecuteMsg::SendFundsTo { name: "ghost".to_string() },
    )
    .unwrap_err();
    assert!(matches!(err, ContractError::NotFound));
}
