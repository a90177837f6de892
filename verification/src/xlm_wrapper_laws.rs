use vstd::prelude::*;

use crate::ledger::{lemma_move_keeps_sum, move_amount};
use crate::sums::{every_key, lemma_sum_empty, lemma_sum_insert};
use crate::xlm_wrapper::{WrapperError, WrapperState};

verus! {

/// The empty state is consistent.
pub proof fn empty_state_is_consistent()
    ensures
        WrapperState::empty().consistent(),
{
    lemma_sum_empty::<Seq<u8>>(every_key());
}

/// Any change that keeps the balances, allowances and supply keeps the
/// ledger consistent (initialization, approvals for all, authorizations and
/// the pause flag are such changes).
pub proof fn flags_keep_consistency(s: WrapperState, t: WrapperState)
    requires
        s.consistent(),
        t.balances == s.balances,
        t.allowances == s.allowances,
        t.total_supply == s.total_supply,
    ensures
        t.consistent(),
{
}

/// `deposit` keeps the ledger consistent: the wrapped tokens enter both the
/// depositor's balance and the total supply.
pub proof fn deposit_keeps_consistency(s: WrapperState, from: Seq<u8>, amount: i128)
    requires
        s.consistent(),
    ensures
        s.deposit(from, amount).0.consistent(),
{
    if s.deposit(from, amount).1 is Ok {
        lemma_sum_insert(s.balances, every_key(), from, (s.balance_of(from) + amount) as i128);
    }
}

/// `withdraw` keeps the ledger consistent.
pub proof fn withdraw_keeps_consistency(s: WrapperState, from: Seq<u8>, amount: i128)
    requires
        s.consistent(),
    ensures
        s.withdraw(from, amount).0.consistent(),
{
    if s.withdraw(from, amount).1 is Ok {
        lemma_sum_insert(s.balances, every_key(), from, (s.balance_of(from) - amount) as i128);
    }
}

/// `burn` keeps the ledger consistent.
pub proof fn burn_keeps_consistency(s: WrapperState, from: Seq<u8>, amount: i128)
    requires
        s.consistent(),
    ensures
        s.burn(from, amount).0.consistent(),
{
    if s.burn(from, amount).1 is Ok {
        lemma_sum_insert(s.balances, every_key(), from, (s.balance_of(from) - amount) as i128);
    }
}

/// `transfer` keeps the ledger consistent.
pub proof fn transfer_keeps_consistency(s: WrapperState, from: Seq<u8>, to: Seq<u8>, amount: i128)
    requires
        s.consistent(),
    ensures
        s.transfer(from, to, amount).0.consistent(),
{
    if move_amount(s.balances, from, to, amount) is Ok {
        lemma_move_keeps_sum(s.balances, every_key(), from, to, amount);
    }
}

/// `approve` keeps the ledger consistent.
pub proof fn approve_keeps_consistency(
    s: WrapperState,
    owner: Seq<u8>,
    spender: Seq<u8>,
    amount: i128,
)
    requires
        s.consistent(),
    ensures
        s.approve(owner, spender, amount).0.consistent(),
{
}

/// `transfer_from` keeps the ledger consistent.
pub proof fn transfer_from_keeps_consistency(
    s: WrapperState,
    spender: Seq<u8>,
    from: Seq<u8>,
    to: Seq<u8>,
    amount: i128,
)
    requires
        s.consistent(),
    ensures
        s.transfer_from(spender, from, to, amount).0.consistent(),
{
    if move_amount(s.balances, from, to, amount) is Ok {
        lemma_move_keeps_sum(s.balances, every_key(), from, to, amount);
    }
}

/// The one-to-one peg: a successful deposit mints exactly the amount of
/// native XLM it takes in, and a successful withdrawal sends back exactly the
/// amount of wrapped XLM it burns; the total supply moves by that amount.
pub proof fn deposits_and_withdrawals_keep_the_peg(s: WrapperState, from: Seq<u8>, amount: i128)
    ensures
        s.deposit(from, amount).1 is Ok ==> {
            &&& s.deposit(from, amount).1 == Ok::<i128, WrapperError>(amount)
            &&& s.deposit(from, amount).0.total_supply == s.total_supply + amount
            &&& s.deposit(from, amount).0.balance_of(from) == s.balance_of(from) + amount
        },
        s.withdraw(from, amount).1 is Ok ==> {
            &&& s.withdraw(from, amount).1 == Ok::<i128, WrapperError>(amount)
            &&& s.withdraw(from, amount).0.total_supply == s.total_supply - amount
            &&& s.withdraw(from, amount).0.balance_of(from) == s.balance_of(from) - amount
        },
{
}

/// Depositing an amount and withdrawing it again succeeds and restores every
/// balance and the total supply.
pub proof fn deposit_then_withdraw_restores(s: WrapperState, a: Seq<u8>, amount: i128)
    requires
        s.consistent(),
        s.deposit(a, amount).1 is Ok,
    ensures
        s.deposit(a, amount).0.withdraw(a, amount).1 is Ok,
        s.deposit(a, amount).0.withdraw(a, amount).0.total_supply == s.total_supply,
        forall|b: Seq<u8>| #[trigger]
            s.deposit(a, amount).0.withdraw(a, amount).0.balance_of(b) == s.balance_of(b),
{
    let m = s.deposit(a, amount).0;
    assert(m.balance_of(a) == s.balance_of(a) + amount);
    let t = m.withdraw(a, amount).0;
    assert(t.balance_of(a) == s.balance_of(a));
    assert forall|b: Seq<u8>| #[trigger] t.balance_of(b) == s.balance_of(b) by {
        if b != a {
            assert(m.balance_of(b) == s.balance_of(b));
        }
    }
}

/// While paused, deposits and withdrawals are refused and change nothing.
pub proof fn pause_blocks_deposits_and_withdrawals(s: WrapperState, from: Seq<u8>, amount: i128)
    requires
        s.is_paused(),
    ensures
        s.deposit(from, amount) == (s, Err::<i128, WrapperError>(WrapperError::Paused)),
        s.withdraw(from, amount) == (s, Err::<i128, WrapperError>(WrapperError::Paused)),
{
}

/// The total supply changes only through deposits, withdrawals and burns.
pub proof fn supply_changes_only_by_deposit_withdraw_and_burn(
    s: WrapperState,
    a: Seq<u8>,
    b: Seq<u8>,
    c: Seq<u8>,
    flag: bool,
    amount: i128,
)
    ensures
        s.transfer(a, b, amount).0.total_supply == s.total_supply,
        s.approve(a, b, amount).0.total_supply == s.total_supply,
        s.set_approval_for_all(a, b, flag).total_supply == s.total_supply,
        s.transfer_from(a, b, c, amount).0.total_supply == s.total_supply,
        s.set_amm(a, b, flag).0.total_supply == s.total_supply,
        s.set_lending(a, b, flag).0.total_supply == s.total_supply,
        s.set_paused(a, flag).0.total_supply == s.total_supply,
        s.burn(a, amount).1 is Ok ==> s.burn(a, amount).0.total_supply == s.total_supply - amount,
{
}

/// An operator approved for all of `from`'s tokens moves them without any
/// allowance and without changing any allowance.
pub proof fn operators_need_no_allowance(
    s: WrapperState,
    operator: Seq<u8>,
    from: Seq<u8>,
    to: Seq<u8>,
    amount: i128,
)
    requires
        s.is_approved_for_all(from, operator),
    ensures
        s.transfer_from(operator, from, to, amount).0.allowances == s.allowances,
        s.transfer_from(operator, from, to, amount).1 == s.transfer(from, to, amount).1,
        s.transfer_from(operator, from, to, amount).0.balances == s.transfer(from, to, amount).0.balances,
{
}

/// Approval for all reads back as set, and erasing it reads back as unset.
pub proof fn approval_for_all_reads_back(s: WrapperState, owner: Seq<u8>, operator: Seq<u8>, approved: bool)
    ensures
        s.set_approval_for_all(owner, operator, approved).is_approved_for_all(owner, operator) == approved,
{
}

/// The administrator's authorizations and the pause flag read back as last
/// written.
pub proof fn admin_settings_read_back(s: WrapperState, admin: Seq<u8>, address: Seq<u8>, flag: bool)
    requires
        s.admin == Some(admin),
    ensures
        s.set_amm(admin, address, flag).1 is Ok,
        s.set_amm(admin, address, flag).0.is_amm_authorized(address) == flag,
        s.set_lending(admin, address, flag).1 is Ok,
        s.set_lending(admin, address, flag).0.is_lending_authorized(address) == flag,
        s.set_paused(admin, flag).1 is Ok,
        s.set_paused(admin, flag).0.is_paused() == flag,
{
}

/// Only the administrator changes authorizations or the pause flag: any
/// other caller is refused and changes nothing.
pub proof fn only_the_admin_changes_settings(s: WrapperState, caller: Seq<u8>, address: Seq<u8>, flag: bool)
    requires
        s.admin != Some(caller),
    ensures
        s.set_amm(caller, address, flag).0 == s,
        s.set_amm(caller, address, flag).1 is Err,
        s.set_lending(caller, address, flag).0 == s,
        s.set_lending(caller, address, flag).1 is Err,
        s.set_paused(caller, flag).0 == s,
        s.set_paused(caller, flag).1 is Err,
{
}

/// The contract is initialized at most once, and initialization authorizes
/// the contract's own address for AMM and lending interactions.
pub proof fn initialize_only_once(
    s: WrapperState,
    admin: Seq<u8>,
    name: Seq<char>,
    symbol: Seq<char>,
    contract_address: Seq<u8>,
    admin2: Seq<u8>,
    name2: Seq<char>,
    symbol2: Seq<char>,
    contract_address2: Seq<u8>,
)
    requires
        s.initialize(admin, name, symbol, contract_address).1 is Ok,
    ensures
        ({
            let t = s.initialize(admin, name, symbol, contract_address).0;
            &&& t.is_amm_authorized(contract_address)
            &&& t.is_lending_authorized(contract_address)
            &&& !t.is_paused()
            &&& t.decimals_or_default() == 7
            &&& t.initialize(admin2, name2, symbol2, contract_address2) == (t, Err::<(), WrapperError>(
                WrapperError::AlreadyInitialized,
            ))
        }),
{
}

/// `approve` sets the allowance: any non-negative amount is accepted, and
/// afterwards `owner` allows `spender` exactly that amount, whatever it
/// allowed before; other allowances and every balance stay as they were.
pub proof fn approve_sets_the_allowance(s: WrapperState, owner: Seq<u8>, spender: Seq<u8>, amount: i128)
    requires
        amount >= 0,
    ensures
        ({
            let (t, r) = s.approve(owner, spender, amount);
            &&& r == Ok::<(), WrapperError>(())
            &&& t.allowance(owner, spender) == amount
            &&& forall|o: Seq<u8>, p: Seq<u8>|
                (o, p) != (owner, spender) ==> #[trigger] t.allowance(o, p) == s.allowance(o, p)
            &&& forall|a: Seq<u8>| #[trigger] t.balance_of(a) == s.balance_of(a)
            &&& t.total_supply == s.total_supply
        }),
{
}

/// Two approvals in a row leave the second amount, not their sum.
pub proof fn second_approval_replaces_the_first(
    s: WrapperState,
    owner: Seq<u8>,
    spender: Seq<u8>,
    first: i128,
    second: i128,
)
    requires
        first >= 0,
        second >= 0,
    ensures
        s.approve(owner, spender, first).0.approve(owner, spender, second).0.allowance(owner, spender)
            == second,
{
}

/// Burning within one's balance succeeds: on a consistent ledger, when
/// `amount` is positive and at most `from`'s balance, `burn` succeeds (burning
/// the whole balance included), and `from`'s balance and the total supply
/// are both lower by exactly the amount.
pub proof fn burn_succeeds_within_balance(s: WrapperState, from: Seq<u8>, amount: i128)
    requires
        s.consistent(),
        0 < amount,
        amount <= s.balance_of(from),
    ensures
        ({
            let (t, r) = s.burn(from, amount);
            &&& r == Ok::<(), WrapperError>(())
            &&& t.balance_of(from) == s.balance_of(from) - amount
            &&& t.total_supply == s.total_supply - amount
        }),
{
    crate::sums::lemma_entry_bounded(s.balances, every_key(), from);
}

} // verus!
