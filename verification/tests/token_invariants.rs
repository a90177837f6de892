use anchor_contracts::address::Address;
use anchor_contracts::token::TokenContract;

fn addr(n: u8) -> Address {
    Address::from_bytes(vec![0, 0, 0, 18, 0, 0, 0, 0, n, n, n, n])
}

fn setup_fresh() -> (TokenContract, Address) {
    let mut c = TokenContract::new();
    c.initialize(addr(200), 7, "AnchorToken".to_string(), "ANCT".to_string()).unwrap();
    (c, addr(200))
}

#[test]
fn invariant_supply_conservation_after_mint() {
    let (mut client, _) = setup_fresh();
    let user1 = addr(1);
    let user2 = addr(2);
    let user3 = addr(3);
    client.mint(&user1, 1000).unwrap();
    client.mint(&user2, 500).unwrap();
    client.mint(&user3, 250).unwrap();
    let balance_sum = client.balance_of(&user1) + client.balance_of(&user2) + client.balance_of(&user3);
    assert_eq!(
        client.total_supply(),
        balance_sum,
        "INVARIANT VIOLATION: Supply conservation failed after mint"
    );
}

#[test]
fn invariant_supply_conservation_after_transfer() {
    let (mut client, _) = setup_fresh();
    let alice = addr(1);
    let bob = addr(2);
    let carol = addr(3);
    client.mint(&alice, 1000).unwrap();
    let supply_before = client.total_supply();
    client.transfer(&alice, &bob, 300).unwrap();
    client.transfer(&bob, &carol, 150).unwrap();
    client.transfer(&alice, &carol, 100).unwrap();
    let supply_after = client.total_supply();
    assert_eq!(supply_before, supply_after, "INVARIANT VIOLATION: Supply changed during transfers");
    let balance_sum = client.balance_of(&alice) + client.balance_of(&bob) + client.balance_of(&carol);
    assert_eq!(
        supply_after, balance_sum,
        "INVARIANT VIOLATION: Balance sum doesn't match supply after transfers"
    );
}

#[test]
fn invariant_supply_conservation_after_burn() {
    let (mut client, _) = setup_fresh();
    let user = addr(1);
    client.mint(&user, 1000).unwrap();
    let supply_before_burn = client.total_supply();
    client.burn(&user, 300).unwrap();
    assert_eq!(
        client.total_supply(),
        supply_before_burn - 300,
        "INVARIANT VIOLATION: Supply not reduced correctly after burn"
    );
    assert_eq!(
        client.balance_of(&user),
        client.total_supply(),
        "INVARIANT VIOLATION: Balance doesn't match supply after burn"
    );
}

#[test]
fn invariant_non_negative_balances() {
    let (mut client, _) = setup_fresh();
    let user = addr(1);
    assert!(client.balance_of(&user) >= 0, "INVARIANT VIOLATION: Initial balance is negative");
    client.mint(&user, 100).unwrap();
    assert!(client.balance_of(&user) >= 0, "INVARIANT VIOLATION: Balance negative after mint");
    client.burn(&user, 100).unwrap();
    assert!(client.balance_of(&user) >= 0, "INVARIANT VIOLATION: Balance negative after burn");
}

#[test]
fn invariant_transfer_value_conservation() {
    let (mut client, _) = setup_fresh();
    let alice = addr(1);
    let bob = addr(2);
    client.mint(&alice, 1000).unwrap();
    let alice_before = client.balance_of(&alice);
    let bob_before = client.balance_of(&bob);
    let sum_before = alice_before + bob_before;
    client.transfer(&alice, &bob, 400).unwrap();
    let alice_after = client.balance_of(&alice);
    let bob_after = client.balance_of(&bob);
    let sum_after = alice_after + bob_after;
    assert_eq!(sum_before, sum_after, "INVARIANT VIOLATION: Value not conserved in transfer");
    assert_eq!(alice_before - alice_after, 400, "INVARIANT VIOLATION: Sender balance not reduced correctly");
    assert_eq!(bob_after - bob_before, 400, "INVARIANT VIOLATION: Receiver balance not increased correctly");
}

#[test]
fn invariant_allowance_decrease_on_transfer_from() {
    let (mut client, _) = setup_fresh();
    let owner = addr(1);
    let spender = addr(2);
    let recipient = addr(3);
    client.mint(&owner, 1000).unwrap();
    client.approve(&owner, &spender, 500).unwrap();
    let allowance_before = client.allowance(&owner, &spender);
    client.transfer_from(&spender, &owner, &recipient, 200).unwrap();
    let allowance_after = client.allowance(&owner, &spender);
    assert_eq!(allowance_before - allowance_after, 200, "INVARIANT VIOLATION: Allowance not reduced correctly");
}

#[test]
fn invariant_allowance_cannot_exceed_approval() {
    let (mut client, _) = setup_fresh();
    let owner = addr(1);
    let spender = addr(2);
    let recipient = addr(3);
    client.mint(&owner, 1000).unwrap();
    client.approve(&owner, &spender, 100).unwrap();
    let result = client.transfer_from(&spender, &owner, &recipient, 150);
    assert!(result.is_err(), "INVARIANT VIOLATION: Spender was able to exceed allowance");
}

#[test]
fn invariant_no_double_spend_direct() {
    let (mut client, _) = setup_fresh();
    let alice = addr(1);
    let bob = addr(2);
    let carol = addr(3);
    client.mint(&alice, 100).unwrap();
    client.transfer(&alice, &bob, 60).unwrap();
    let result = client.transfer(&alice, &carol, 60);
    assert!(result.is_err(), "INVARIANT VIOLATION: Double spend was possible");
    assert_eq!(client.balance_of(&alice), 40);
    assert_eq!(client.balance_of(&bob), 60);
    assert_eq!(client.balance_of(&carol), 0);
}

#[test]
fn invariant_supply_only_changes_via_mint_burn() {
    let (mut client, _) = setup_fresh();
    let alice = addr(1);
    let bob = addr(2);
    let initial_supply = client.total_supply();
    assert_eq!(initial_supply, 0);
    client.mint(&alice, 500).unwrap();
    assert_eq!(client.total_supply(), 500);
    client.transfer(&alice, &bob, 200).unwrap();
    assert_eq!(client.total_supply(), 500, "INVARIANT VIOLATION: Transfer changed total supply");
    client.approve(&alice, &bob, 100).unwrap();
    assert_eq!(client.total_supply(), 500, "INVARIANT VIOLATION: Approve changed total supply");
    client.burn(&alice, 100).unwrap();
    assert_eq!(client.total_supply(), 400);
}

#[test]
fn invariant_zero_amount_rejected() {
    let (mut client, _) = setup_fresh();
    let user = addr(1);
    let result = client.mint(&user, 0);
    assert!(result.is_err(), "INVARIANT VIOLATION: Mint of zero accepted");
    client.mint(&user, 100).unwrap();
    let result = client.burn(&user, 0);
    assert!(result.is_err(), "INVARIANT VIOLATION: Burn of zero accepted");
}

#[test]
fn invariant_approve_overwrites() {
    let (mut client, _) = setup_fresh();
    let owner = addr(1);
    let spender = addr(2);
    client.approve(&owner, &spender, 100).unwrap();
    assert_eq!(client.allowance(&owner, &spender), 100);
    client.approve(&owner, &spender, 200).unwrap();
    assert_eq!(
        client.allowance(&owner, &spender),
        200,
        "INVARIANT VIOLATION: Approve did not overwrite previous allowance"
    );
}

#[test]
fn property_sequence_invariant() {
    let (mut client, _) = setup_fresh();
    let alice = addr(1);
    let bob = addr(2);
    let carol = addr(3);
    client.mint(&alice, 1000).unwrap();
    client.mint(&bob, 500).unwrap();
    client.transfer(&alice, &bob, 200).unwrap();
    client.approve(&bob, &carol, 300).unwrap();
    client.transfer_from(&carol, &bob, &alice, 150).unwrap();
    client.burn(&alice, 100).unwrap();
    let total_balance = client.balance_of(&alice) + client.balance_of(&bob) + client.balance_of(&carol);
    assert_eq!(
        client.total_supply(),
        total_balance,
        "PROPERTY VIOLATION: Supply invariant broken after operation sequence"
    );
    assert!(
        client.balance_of(&alice) >= 0 && client.balance_of(&bob) >= 0 && client.balance_of(&carol) >= 0,
        "PROPERTY VIOLATION: Negative balance detected"
    );
}

#[test]
fn property_mint_burn_symmetry() {
    let (mut client, _) = setup_fresh();
    let user = addr(1);
    let initial_supply = client.total_supply();
    let initial_balance = client.balance_of(&user);
    client.mint(&user, 500).unwrap();
    client.burn(&user, 500).unwrap();
    assert_eq!(client.total_supply(), initial_supply, "PROPERTY VIOLATION: Mint-burn symmetry broken for supply");
    assert_eq!(client.balance_of(&user), initial_balance, "PROPERTY VIOLATION: Mint-burn symmetry broken for balance");
}

#[test]
fn property_transfer_reversibility_check() {
    let (mut client, _) = setup_fresh();
    let alice = addr(1);
    let bob = addr(2);
    client.mint(&alice, 1000).unwrap();
    let alice_initial = client.balance_of(&alice);
    let bob_initial = client.balance_of(&bob);
    client.transfer(&alice, &bob, 300).unwrap();
    client.transfer(&bob, &alice, 300).unwrap();
    assert_eq!(
        client.balance_of(&alice),
        alice_initial,
        "PROPERTY VIOLATION: Round-trip transfer didn't restore sender balance"
    );
    assert_eq!(
        client.balance_of(&bob),
        bob_initial,
        "PROPERTY VIOLATION: Round-trip transfer didn't restore receiver balance"
    );
}

#[test]
fn invariant_sft_supply_conservation_per_id() {
    let (mut client, _) = setup_fresh();
    let alice = addr(1);
    let bob = addr(2);
    let carol = addr(3);
    let tid = 77_u64;
    client.sft_mint(&alice, tid, 1000).unwrap();
    client.sft_mint(&bob, tid, 500).unwrap();
    client.sft_transfer(&alice, &carol, tid, 300).unwrap();
    let balance_sum = client.sft_balance_of(&alice, tid)
        + client.sft_balance_of(&bob, tid)
        + client.sft_balance_of(&carol, tid);
    assert_eq!(
        client.sft_total_supply(tid),
        balance_sum,
        "SFT INVARIANT VIOLATION: Supply conservation failed for token_id"
    );
}

#[test]
fn invariant_sft_supply_isolated_across_ids() {
    let (mut client, _) = setup_fresh();
    let user = addr(1);
    client.sft_mint(&user, 1, 100).unwrap();
    client.sft_mint(&user, 2, 200).unwrap();
    let supply_1 = client.sft_total_supply(1);
    client.sft_burn(&user, 2, 50).unwrap();
    assert_eq!(
        client.sft_total_supply(1),
        supply_1,
        "SFT INVARIANT VIOLATION: id=2 burn changed supply of id=1"
    );
}

#[test]
fn invariant_sft_batch_transfer_supply_conservation() {
    let (mut client, _) = setup_fresh();
    let alice = addr(1);
    let bob = addr(2);
    client.sft_mint(&alice, 1, 1000).unwrap();
    client.sft_mint(&alice, 2, 500).unwrap();
    client.sft_mint(&alice, 3, 250).unwrap();
    let supply_before: Vec<i128> =
        vec![client.sft_total_supply(1), client.sft_total_supply(2), client.sft_total_supply(3)];
    let ids: Vec<u64> = vec![1_u64, 2_u64, 3_u64];
    let amts: Vec<i128> = vec![100_i128, 200_i128, 50_i128];
    client.batch_transfer(&alice, &bob, &ids, &amts).unwrap();
    assert_eq!(client.sft_total_supply(1), supply_before[0]);
    assert_eq!(client.sft_total_supply(2), supply_before[1]);
    assert_eq!(client.sft_total_supply(3), supply_before[2]);
}

#[test]
fn invariant_sft_mint_burn_symmetry() {
    let (mut client, _) = setup_fresh();
    let user = addr(1);
    let tid = 42_u64;
    let initial_supply = client.sft_total_supply(tid);
    let initial_balance = client.sft_balance_of(&user, tid);
    client.sft_mint(&user, tid, 300).unwrap();
    client.sft_burn(&user, tid, 300).unwrap();
    assert_eq!(client.sft_total_supply(tid), initial_supply);
    assert_eq!(client.sft_balance_of(&user, tid), initial_balance);
}

#[test]
fn invariant_sft_non_negative_balances() {
    let (mut client, _) = setup_fresh();
    let user = addr(1);
    assert!(client.sft_balance_of(&user, 1) >= 0);
    client.sft_mint(&user, 1, 100).unwrap();
    assert!(client.sft_balance_of(&user, 1) >= 0);
    client.sft_burn(&user, 1, 100).unwrap();
    assert!(client.sft_balance_of(&user, 1) >= 0);
}

#[test]
fn invariant_sft_does_not_affect_fungible_supply() {
    let (mut client, _) = setup_fresh();
    let alice = addr(1);
    let bob = addr(2);
    client.mint(&alice, 1000).unwrap();
    let fungible_supply = client.total_supply();
    client.sft_mint(&alice, 1, 500).unwrap();
    client.sft_transfer(&alice, &bob, 1, 200).unwrap();
    client.sft_burn(&alice, 1, 100).unwrap();
    assert_eq!(
        client.total_supply(),
        fungible_supply,
        "INVARIANT VIOLATION: SFT operations changed fungible total_supply"
    );
}
