use anchor_contracts::address::Address;
use anchor_contracts::xlm_wrapper::{WrapperError, XLMWrapper};

fn addr(n: u8) -> Address {
    Address::from_bytes(vec![0, 0, 0, 18, 0, 0, 0, 1, n, n, n, n])
}

fn contract_addr() -> Address {
    addr(250)
}

fn setup() -> (XLMWrapper, Address) {
    let mut c = XLMWrapper::new();
    let admin = addr(200);
    c.initialize(addr(200), "Wrapped XLM".to_string(), "wXLM".to_string(), &contract_addr())
        .unwrap();
    (c, admin)
}

#[test]
fn lib_test_initialize() {
    let (client, _admin) = setup();
    assert_eq!(client.name(), Some("Wrapped XLM".to_string()));
    assert_eq!(client.symbol(), Some("wXLM".to_string()));
    assert_eq!(client.decimals(), 7);
    assert_eq!(client.total_supply(), 0);
}

#[test]
fn initialize_authorizes_the_contract_itself() {
    let (mut client, admin) = setup();
    assert!(client.is_amm_authorized(&contract_addr()));
    assert!(client.is_lending_authorized(&contract_addr()));
    assert!(!client.is_paused());
    assert_eq!(
        client.initialize(admin, "X".to_string(), "X".to_string(), &contract_addr()),
        Err(WrapperError::AlreadyInitialized)
    );
}

#[test]
fn test_deposit_withdraw() {
    let (mut client, _admin) = setup();
    let user = addr(1);
    let deposit_amount = 1000_i128;
    assert_eq!(client.deposit(&user, deposit_amount), Ok(deposit_amount));
    assert_eq!(client.balance_of(&user), deposit_amount);
    assert_eq!(client.total_supply(), deposit_amount);
    let withdraw_amount = 500_i128;
    assert_eq!(client.withdraw(&user, withdraw_amount), Ok(withdraw_amount));
    assert_eq!(client.balance_of(&user), deposit_amount - withdraw_amount);
    assert_eq!(client.total_supply(), deposit_amount - withdraw_amount);
}

#[test]
fn lib_test_transfer() {
    let (mut client, _admin) = setup();
    let alice = addr(1);
    let bob = addr(2);
    client.deposit(&alice, 1000).unwrap();
    client.transfer(&alice, &bob, 300).unwrap();
    assert_eq!(client.balance_of(&alice), 700);
    assert_eq!(client.balance_of(&bob), 300);
    assert_eq!(client.total_supply(), 1000);
}

#[test]
fn lib_test_approve_and_transfer_from() {
    let (mut client, _admin) = setup();
    let alice = addr(1);
    let bob = addr(2);
    let carol = addr(3);
    client.deposit(&alice, 1000).unwrap();
    client.approve(&alice, &bob, 500).unwrap();
    assert_eq!(client.allowance(&alice, &bob), 500);
    client.transfer_from(&bob, &alice, &carol, 300).unwrap();
    assert_eq!(client.balance_of(&alice), 700);
    assert_eq!(client.balance_of(&carol), 300);
    assert_eq!(client.allowance(&alice, &bob), 200);
}

#[test]
fn test_operator_approval() {
    let (mut client, _admin) = setup();
    let alice = addr(1);
    let operator = addr(4);
    let bob = addr(2);
    client.deposit(&alice, 1000).unwrap();
    client.set_approval_for_all(&alice, &operator, true);
    assert!(client.is_approved_for_all(&alice, &operator));
    client.transfer_from(&operator, &alice, &bob, 300).unwrap();
    assert_eq!(client.balance_of(&alice), 700);
    assert_eq!(client.balance_of(&bob), 300);
}

#[test]
fn revoked_operator_needs_an_allowance() {
    let (mut client, _admin) = setup();
    let alice = addr(1);
    let operator = addr(4);
    client.deposit(&alice, 1000).unwrap();
    client.set_approval_for_all(&alice, &operator, true);
    client.set_approval_for_all(&alice, &operator, false);
    assert!(!client.is_approved_for_all(&alice, &operator));
    assert_eq!(
        client.transfer_from(&operator, &alice, &operator, 1),
        Err(WrapperError::InsufficientAllowance)
    );
}

#[test]
fn lib_test_burn() {
    let (mut client, _admin) = setup();
    let alice = addr(1);
    client.deposit(&alice, 1000).unwrap();
    client.burn(&alice, 300).unwrap();
    assert_eq!(client.balance_of(&alice), 700);
    assert_eq!(client.total_supply(), 700);
}

#[test]
fn test_amm_authorization() {
    let (mut client, admin) = setup();
    let amm_address = addr(5);
    assert!(!client.is_amm_authorized(&amm_address));
    client.authorize_amm(&admin, &amm_address).unwrap();
    assert!(client.is_amm_authorized(&amm_address));
    client.revoke_amm(&admin, &amm_address).unwrap();
    assert!(!client.is_amm_authorized(&amm_address));
}

#[test]
fn test_lending_authorization() {
    let (mut client, admin) = setup();
    let lending_address = addr(6);
    assert!(!client.is_lending_authorized(&lending_address));
    client.authorize_lending(&admin, &lending_address).unwrap();
    assert!(client.is_lending_authorized(&lending_address));
    client.revoke_lending(&admin, &lending_address).unwrap();
    assert!(!client.is_lending_authorized(&lending_address));
}

#[test]
fn non_admin_settings_are_refused() {
    let (mut client, _admin) = setup();
    let mallory = addr(7);
    assert_eq!(client.authorize_amm(&mallory, &mallory), Err(WrapperError::Unauthorized));
    assert_eq!(client.authorize_lending(&mallory, &mallory), Err(WrapperError::Unauthorized));
    assert_eq!(client.pause(&mallory), Err(WrapperError::Unauthorized));
    assert!(!client.is_amm_authorized(&mallory));
    assert!(!client.is_paused());
    let mut fresh = XLMWrapper::new();
    assert_eq!(fresh.pause(&mallory), Err(WrapperError::NotInitialized));
}

#[test]
fn test_pause_unpause() {
    let (mut client, admin) = setup();
    assert!(!client.is_paused());
    client.pause(&admin).unwrap();
    assert!(client.is_paused());
    client.unpause(&admin).unwrap();
    assert!(!client.is_paused());
}

#[test]
fn test_deposit_when_paused() {
    let (mut client, admin) = setup();
    let user = addr(1);
    client.pause(&admin).unwrap();
    assert_eq!(client.deposit(&user, 1000), Err(WrapperError::Paused));
    assert_eq!(client.total_supply(), 0);
}

#[test]
fn test_withdraw_when_paused() {
    let (mut client, admin) = setup();
    let user = addr(1);
    client.deposit(&user, 1000).unwrap();
    client.pause(&admin).unwrap();
    assert_eq!(client.withdraw(&user, 500), Err(WrapperError::Paused));
    assert_eq!(client.balance_of(&user), 1000);
}

#[test]
fn test_one_to_one_peg() {
    let (mut client, _admin) = setup();
    let user = addr(1);
    client.deposit(&user, 1000).unwrap();
    assert_eq!(client.balance_of(&user), 1000);
    assert_eq!(client.total_supply(), 1000);
    client.withdraw(&user, 1000).unwrap();
    assert_eq!(client.balance_of(&user), 0);
    assert_eq!(client.total_supply(), 0);
}

#[test]
fn wrapper_refusals() {
    let (mut client, _admin) = setup();
    let user = addr(1);
    assert_eq!(client.deposit(&user, 0), Err(WrapperError::NonPositiveAmount));
    assert_eq!(client.withdraw(&user, 1), Err(WrapperError::InsufficientBalance));
    assert_eq!(client.approve(&user, &addr(2), -5), Err(WrapperError::NegativeAmount));
    assert_eq!(client.burn(&user, -5), Err(WrapperError::NonPositiveAmount));
    client.deposit(&user, i128::MAX).unwrap();
    assert_eq!(client.deposit(&addr(2), 1), Err(WrapperError::Overflow));
    assert_eq!(client.transfer(&user, &addr(2), 0), Err(WrapperError::NonPositiveAmount));
}
