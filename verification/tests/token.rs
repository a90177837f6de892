use anchor_contracts::address::Address;
use anchor_contracts::token::{TokenContract, TokenError};

fn addr(n: u8) -> Address {
    Address::from_bytes(vec![0, 0, 0, 18, 0, 0, 0, 0, n, n, n, n])
}

fn setup_with(decimals: u32, name: &str, symbol: &str) -> (TokenContract, Address) {
    let mut c = TokenContract::new();
    let admin = addr(200);
    c.initialize(addr(200), decimals, name.to_string(), symbol.to_string()).unwrap();
    (c, admin)
}

fn setup() -> (TokenContract, Address) {
    setup_with(7, "AnchorToken", "ANCT")
}

fn setup_sft() -> (TokenContract, Address) {
    setup_with(0, "AnchorSFT", "ASFT")
}

// ── fungible token ───────────────────────────────────────────────────────

#[test]
fn test_initialize() {
    let (client, _) = setup();
    assert_eq!(client.decimals(), 7);
    assert_eq!(client.name(), Some("AnchorToken".to_string()));
    assert_eq!(client.symbol(), Some("ANCT".to_string()));
    assert_eq!(client.total_supply(), 0);
}

#[test]
fn test_double_initialize_panics() {
    let (mut client, admin) = setup();
    assert_eq!(
        client.initialize(admin, 7, "X".to_string(), "X".to_string()),
        Err(TokenError::AlreadyInitialized)
    );
    assert_eq!(client.name(), Some("AnchorToken".to_string()));
}

#[test]
fn test_mint() {
    let (mut client, _) = setup();
    let user = addr(1);
    client.mint(&user, 1000).unwrap();
    assert_eq!(client.balance_of(&user), 1000);
    assert_eq!(client.total_supply(), 1000);
}

#[test]
fn test_mint_zero_panics() {
    let (mut client, _) = setup();
    let user = addr(1);
    assert_eq!(client.mint(&user, 0), Err(TokenError::NonPositiveAmount));
}

#[test]
fn test_transfer() {
    let (mut client, _) = setup();
    let alice = addr(1);
    let bob = addr(2);
    client.mint(&alice, 500).unwrap();
    client.transfer(&alice, &bob, 200).unwrap();
    assert_eq!(client.balance_of(&alice), 300);
    assert_eq!(client.balance_of(&bob), 200);
}

#[test]
fn test_transfer_insufficient_balance() {
    let (mut client, _) = setup();
    let alice = addr(1);
    let bob = addr(2);
    client.mint(&alice, 100).unwrap();
    assert_eq!(client.transfer(&alice, &bob, 200), Err(TokenError::InsufficientBalance));
    assert_eq!(client.balance_of(&alice), 100);
    assert_eq!(client.balance_of(&bob), 0);
}

#[test]
fn test_approve_and_transfer_from() {
    let (mut client, _) = setup();
    let alice = addr(1);
    let bob = addr(2);
    let carol = addr(3);
    client.mint(&alice, 1000).unwrap();
    client.approve(&alice, &bob, 300).unwrap();
    assert_eq!(client.allowance(&alice, &bob), 300);
    client.transfer_from(&bob, &alice, &carol, 200).unwrap();
    assert_eq!(client.balance_of(&alice), 800);
    assert_eq!(client.balance_of(&carol), 200);
    assert_eq!(client.allowance(&alice, &bob), 100);
}

#[test]
fn test_transfer_from_exceeds_allowance() {
    let (mut client, _) = setup();
    let alice = addr(1);
    let bob = addr(2);
    let carol = addr(3);
    client.mint(&alice, 1000).unwrap();
    client.approve(&alice, &bob, 50).unwrap();
    assert_eq!(
        client.transfer_from(&bob, &alice, &carol, 100),
        Err(TokenError::InsufficientAllowance)
    );
    assert_eq!(client.allowance(&alice, &bob), 50);
}

#[test]
fn test_burn() {
    let (mut client, _) = setup();
    let alice = addr(1);
    client.mint(&alice, 500).unwrap();
    client.burn(&alice, 200).unwrap();
    assert_eq!(client.balance_of(&alice), 300);
    assert_eq!(client.total_supply(), 300);
}

#[test]
fn test_burn_exceeds_balance() {
    let (mut client, _) = setup();
    let alice = addr(1);
    client.mint(&alice, 100).unwrap();
    assert_eq!(client.burn(&alice, 200), Err(TokenError::InsufficientBalance));
    assert_eq!(client.total_supply(), 100);
}

// ── sft_mint ─────────────────────────────────────────────────────────────

#[test]
fn test_sft_mint_basic() {
    let (mut client, _) = setup_sft();
    let user = addr(1);
    client.sft_mint(&user, 1, 500).unwrap();
    assert_eq!(client.sft_balance_of(&user, 1), 500);
    assert_eq!(client.sft_total_supply(1), 500);
}

#[test]
fn test_sft_mint_accumulates() {
    let (mut client, _) = setup_sft();
    let user = addr(1);
    client.sft_mint(&user, 1, 300).unwrap();
    client.sft_mint(&user, 1, 200).unwrap();
    assert_eq!(client.sft_balance_of(&user, 1), 500);
    assert_eq!(client.sft_total_supply(1), 500);
}

#[test]
fn test_sft_mint_multiple_ids_isolated() {
    let (mut client, _) = setup_sft();
    let user = addr(1);
    client.sft_mint(&user, 1, 100).unwrap();
    client.sft_mint(&user, 2, 999).unwrap();
    assert_eq!(client.sft_balance_of(&user, 1), 100);
    assert_eq!(client.sft_balance_of(&user, 2), 999);
    assert_eq!(client.sft_total_supply(1), 100);
    assert_eq!(client.sft_total_supply(2), 999);
}

#[test]
fn test_sft_mint_multiple_accounts_same_id() {
    let (mut client, _) = setup_sft();
    let alice = addr(1);
    let bob = addr(2);
    client.sft_mint(&alice, 42, 1000).unwrap();
    client.sft_mint(&bob, 42, 500).unwrap();
    assert_eq!(client.sft_balance_of(&alice, 42), 1000);
    assert_eq!(client.sft_balance_of(&bob, 42), 500);
    assert_eq!(client.sft_total_supply(42), 1500);
}

#[test]
fn test_sft_mint_zero_panics() {
    let (mut client, _) = setup_sft();
    let user = addr(1);
    assert_eq!(client.sft_mint(&user, 1, 0), Err(TokenError::NonPositiveAmount));
}

#[test]
fn test_sft_mint_negative_panics() {
    let (mut client, _) = setup_sft();
    let user = addr(1);
    assert_eq!(client.sft_mint(&user, 1, -1), Err(TokenError::NonPositiveAmount));
}

// ── sft_burn ─────────────────────────────────────────────────────────────

#[test]
fn test_sft_burn_basic() {
    let (mut client, _) = setup_sft();
    let user = addr(1);
    client.sft_mint(&user, 1, 500).unwrap();
    client.sft_burn(&user, 1, 200).unwrap();
    assert_eq!(client.sft_balance_of(&user, 1), 300);
    assert_eq!(client.sft_total_supply(1), 300);
}

#[test]
fn test_sft_burn_full_balance() {
    let (mut client, _) = setup_sft();
    let user = addr(1);
    client.sft_mint(&user, 5, 100).unwrap();
    client.sft_burn(&user, 5, 100).unwrap();
    assert_eq!(client.sft_balance_of(&user, 5), 0);
    assert_eq!(client.sft_total_supply(5), 0);
}

#[test]
fn test_sft_burn_exceeds_balance() {
    let (mut client, _) = setup_sft();
    let user = addr(1);
    client.sft_mint(&user, 1, 100).unwrap();
    assert_eq!(client.sft_burn(&user, 1, 200), Err(TokenError::InsufficientBalance));
}

#[test]
fn test_sft_burn_zero_panics() {
    let (mut client, _) = setup_sft();
    let user = addr(1);
    client.sft_mint(&user, 1, 100).unwrap();
    assert_eq!(client.sft_burn(&user, 1, 0), Err(TokenError::NonPositiveAmount));
}

// ── sft_transfer ─────────────────────────────────────────────────────────

#[test]
fn test_sft_transfer_basic() {
    let (mut client, _) = setup_sft();
    let alice = addr(1);
    let bob = addr(2);
    client.sft_mint(&alice, 7, 1000).unwrap();
    client.sft_transfer(&alice, &bob, 7, 400).unwrap();
    assert_eq!(client.sft_balance_of(&alice, 7), 600);
    assert_eq!(client.sft_balance_of(&bob, 7), 400);
    assert_eq!(client.sft_total_supply(7), 1000);
}

#[test]
fn test_sft_transfer_does_not_affect_other_ids() {
    let (mut client, _) = setup_sft();
    let alice = addr(1);
    let bob = addr(2);
    client.sft_mint(&alice, 1, 500).unwrap();
    client.sft_mint(&alice, 2, 300).unwrap();
    client.sft_transfer(&alice, &bob, 1, 200).unwrap();
    assert_eq!(client.sft_balance_of(&alice, 1), 300);
    assert_eq!(client.sft_balance_of(&alice, 2), 300);
    assert_eq!(client.sft_balance_of(&bob, 1), 200);
    assert_eq!(client.sft_balance_of(&bob, 2), 0);
}

#[test]
fn test_sft_transfer_exceeds_balance() {
    let (mut client, _) = setup_sft();
    let alice = addr(1);
    let bob = addr(2);
    client.sft_mint(&alice, 1, 100).unwrap();
    assert_eq!(
        client.sft_transfer(&alice, &bob, 1, 200),
        Err(TokenError::InsufficientBalance)
    );
}

#[test]
fn test_sft_transfer_zero_panics() {
    let (mut client, _) = setup_sft();
    let alice = addr(1);
    let bob = addr(2);
    client.sft_mint(&alice, 1, 100).unwrap();
    assert_eq!(client.sft_transfer(&alice, &bob, 1, 0), Err(TokenError::NonPositiveAmount));
}

// ── batch_transfer ───────────────────────────────────────────────────────

#[test]
fn test_batch_transfer_basic() {
    let (mut client, _) = setup_sft();
    let alice = addr(1);
    let bob = addr(2);
    client.sft_mint(&alice, 1, 1000).unwrap();
    client.sft_mint(&alice, 2, 500).unwrap();
    client.sft_mint(&alice, 3, 250).unwrap();

    let ids: Vec<u64> = vec![1_u64, 2_u64, 3_u64];
    let amts: Vec<i128> = vec![100_i128, 200_i128, 50_i128];
    client.batch_transfer(&alice, &bob, &ids, &amts).unwrap();

    assert_eq!(client.sft_balance_of(&alice, 1), 900);
    assert_eq!(client.sft_balance_of(&alice, 2), 300);
    assert_eq!(client.sft_balance_of(&alice, 3), 200);
    assert_eq!(client.sft_balance_of(&bob, 1), 100);
    assert_eq!(client.sft_balance_of(&bob, 2), 200);
    assert_eq!(client.sft_balance_of(&bob, 3), 50);
}

#[test]
fn test_batch_transfer_single_item() {
    let (mut client, _) = setup_sft();
    let alice = addr(1);
    let bob = addr(2);
    client.sft_mint(&alice, 99, 1000).unwrap();
    let ids: Vec<u64> = vec![99_u64];
    let amts: Vec<i128> = vec![500_i128];
    client.batch_transfer(&alice, &bob, &ids, &amts).unwrap();
    assert_eq!(client.sft_balance_of(&alice, 99), 500);
    assert_eq!(client.sft_balance_of(&bob, 99), 500);
}

#[test]
fn test_batch_transfer_supply_unchanged() {
    let (mut client, _) = setup_sft();
    let alice = addr(1);
    let bob = addr(2);
    client.sft_mint(&alice, 1, 1000).unwrap();
    client.sft_mint(&alice, 2, 500).unwrap();
    let supply_1_before = client.sft_total_supply(1);
    let supply_2_before = client.sft_total_supply(2);

    let ids: Vec<u64> = vec![1_u64, 2_u64];
    let amts: Vec<i128> = vec![300_i128, 400_i128];
    client.batch_transfer(&alice, &bob, &ids, &amts).unwrap();

    assert_eq!(client.sft_total_supply(1), supply_1_before);
    assert_eq!(client.sft_total_supply(2), supply_2_before);
}

#[test]
fn test_batch_transfer_empty_panics() {
    let (mut client, _) = setup_sft();
    let alice = addr(1);
    let bob = addr(2);
    let ids: Vec<u64> = Vec::new();
    let amts: Vec<i128> = Vec::new();
    assert_eq!(client.batch_transfer(&alice, &bob, &ids, &amts), Err(TokenError::EmptyBatch));
}

#[test]
fn test_batch_transfer_length_mismatch_panics() {
    let (mut client, _) = setup_sft();
    let alice = addr(1);
    let bob = addr(2);
    client.sft_mint(&alice, 1, 1000).unwrap();
    let ids: Vec<u64> = vec![1_u64, 2_u64];
    let amts: Vec<i128> = vec![100_i128];
    assert_eq!(client.batch_transfer(&alice, &bob, &ids, &amts), Err(TokenError::LengthMismatch));
}

#[test]
fn test_batch_transfer_insufficient_balance_panics() {
    let (mut client, _) = setup_sft();
    let alice = addr(1);
    let bob = addr(2);
    client.sft_mint(&alice, 1, 100).unwrap();
    let ids: Vec<u64> = vec![1_u64];
    let amts: Vec<i128> = vec![200_i128];
    assert_eq!(
        client.batch_transfer(&alice, &bob, &ids, &amts),
        Err(TokenError::InsufficientBalance)
    );
}

#[test]
fn test_batch_transfer_zero_amount_panics() {
    let (mut client, _) = setup_sft();
    let alice = addr(1);
    let bob = addr(2);
    client.sft_mint(&alice, 1, 100).unwrap();
    let ids: Vec<u64> = vec![1_u64];
    let amts: Vec<i128> = vec![0_i128];
    assert_eq!(
        client.batch_transfer(&alice, &bob, &ids, &amts),
        Err(TokenError::NonPositiveAmount)
    );
}

#[test]
fn batch_transfer_refused_item_reverts_earlier_items() {
    let (mut client, _) = setup_sft();
    let alice = addr(1);
    let bob = addr(2);
    client.sft_mint(&alice, 1, 100).unwrap();
    client.sft_mint(&alice, 2, 100).unwrap();
    let ids: Vec<u64> = vec![1_u64, 2_u64];
    let amts: Vec<i128> = vec![50_i128, 500_i128];
    assert_eq!(
        client.batch_transfer(&alice, &bob, &ids, &amts),
        Err(TokenError::InsufficientBalance)
    );
    assert_eq!(client.sft_balance_of(&alice, 1), 100);
    assert_eq!(client.sft_balance_of(&bob, 1), 0);
}

// ── metadata URIs ────────────────────────────────────────────────────────

#[test]
fn test_set_and_get_token_uri() {
    let (mut client, _) = setup_sft();
    let uri = "ipfs://Qm123abc".to_string();
    client.set_token_uri(1, uri.clone()).unwrap();
    assert_eq!(client.token_uri(1), uri);
}

#[test]
fn test_token_uri_unset_returns_empty() {
    let (client, _) = setup_sft();
    assert_eq!(client.token_uri(999), "".to_string());
}

#[test]
fn test_set_token_uri_overwrite() {
    let (mut client, _) = setup_sft();
    client.set_token_uri(1, "ipfs://old".to_string()).unwrap();
    client.set_token_uri(1, "ipfs://new".to_string()).unwrap();
    assert_eq!(client.token_uri(1), "ipfs://new".to_string());
}

#[test]
fn test_token_uri_independent_per_id() {
    let (mut client, _) = setup_sft();
    client.set_token_uri(1, "ipfs://token1".to_string()).unwrap();
    client.set_token_uri(2, "ipfs://token2".to_string()).unwrap();
    assert_eq!(client.token_uri(1), "ipfs://token1".to_string());
    assert_eq!(client.token_uri(2), "ipfs://token2".to_string());
}

#[test]
fn set_token_uri_before_initialize_is_refused() {
    let mut client = TokenContract::new();
    assert_eq!(
        client.set_token_uri(1, "ipfs://x".to_string()),
        Err(TokenError::NotInitialized)
    );
    assert_eq!(client.mint(&addr(1), 5), Err(TokenError::NotInitialized));
    assert_eq!(client.sft_mint(&addr(1), 1, 5), Err(TokenError::NotInitialized));
    assert_eq!(client.name(), None);
    assert_eq!(client.decimals(), 7);
}

// ── sft_balance_of / sft_total_supply ────────────────────────────────────

#[test]
fn test_sft_balance_of_uninitialized_is_zero() {
    let (client, _) = setup_sft();
    let user = addr(1);
    assert_eq!(client.sft_balance_of(&user, 1), 0);
}

#[test]
fn test_sft_total_supply_uninitialized_is_zero() {
    let (client, _) = setup_sft();
    assert_eq!(client.sft_total_supply(1), 0);
}

#[test]
fn test_sft_and_fungible_are_isolated() {
    let (mut client, _) = setup_sft();
    let user = addr(1);
    client.mint(&user, 1000).unwrap();
    client.sft_mint(&user, 1, 500).unwrap();
    assert_eq!(client.balance_of(&user), 1000);
    assert_eq!(client.sft_balance_of(&user, 1), 500);
    assert_eq!(client.total_supply(), 1000);
    assert_eq!(client.sft_total_supply(1), 500);
}

// ── overflow and edge cases ──────────────────────────────────────────────

#[test]
fn mint_past_the_i128_range_is_refused() {
    let (mut client, _) = setup();
    let user = addr(1);
    client.mint(&user, i128::MAX).unwrap();
    assert_eq!(client.mint(&addr(2), 1), Err(TokenError::Overflow));
    assert_eq!(client.total_supply(), i128::MAX);
    assert_eq!(client.balance_of(&addr(2)), 0);
}

#[test]
fn approve_negative_is_refused() {
    let (mut client, _) = setup();
    assert_eq!(client.approve(&addr(1), &addr(2), -1), Err(TokenError::NegativeAmount));
    client.approve(&addr(1), &addr(2), 0).unwrap();
    assert_eq!(client.allowance(&addr(1), &addr(2)), 0);
}

#[test]
fn transfer_to_self_keeps_balance() {
    let (mut client, _) = setup();
    let alice = addr(1);
    client.mint(&alice, 100).unwrap();
    client.transfer(&alice, &alice, 60).unwrap();
    assert_eq!(client.balance_of(&alice), 100);
    assert_eq!(client.transfer(&alice, &alice, 101), Err(TokenError::InsufficientBalance));
}

#[test]
fn transfer_from_insufficient_balance_keeps_allowance() {
    let (mut client, _) = setup();
    let alice = addr(1);
    let bob = addr(2);
    client.mint(&alice, 10).unwrap();
    client.approve(&alice, &bob, 100).unwrap();
    assert_eq!(
        client.transfer_from(&bob, &alice, &bob, 50),
        Err(TokenError::InsufficientBalance)
    );
    assert_eq!(client.allowance(&alice, &bob), 100);
    assert_eq!(client.transfer_from(&bob, &alice, &bob, 0), Err(TokenError::NonPositiveAmount));
}
