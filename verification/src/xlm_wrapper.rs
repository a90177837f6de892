use vstd::prelude::*;

use crate::address::Address;
use crate::ledger::{
    all_values_nonnegative, amount_of, move_amount, move_in_table, nonnegative_total, read_amount,
    MoveFailure,
};
use crate::sums::{all_nonnegative, sum_all};
use crate::table::Table;
use crate::token::{address_view, string_view};
use crate::xlm_wrapper_laws::{
    approve_keeps_consistency, burn_keeps_consistency, deposit_keeps_consistency,
    empty_state_is_consistent, flags_keep_consistency, transfer_from_keeps_consistency,
    transfer_keeps_consistency, withdraw_keeps_consistency,
};

verus! {

/// Why a wrapped-XLM operation was refused. Each refusal leaves the state as it was.
#[derive(Debug, Clone, Copy, PartialEq, Eq, Structural)]
pub enum WrapperError {
    /// `initialize` on a contract that already has an administrator.
    AlreadyInitialized,
    /// An administrator operation before `initialize`.
    NotInitialized,
    /// An administrator operation by someone other than the administrator.
    Unauthorized,
    /// A deposit or withdrawal while the contract is paused.
    Paused,
    /// An amount that must be positive is zero or negative.
    NonPositiveAmount,
    /// An allowance that must not be negative is negative.
    NegativeAmount,
    /// The account holds less than the amount.
    InsufficientBalance,
    /// The spender's allowance is less than the amount.
    InsufficientAllowance,
    /// A balance, an allowance or the supply would leave the range of `i128`.
    Overflow,
}

/// The wrapper error that a refused move becomes.
pub open spec fn wrapper_error_of(e: MoveFailure) -> WrapperError {
    match e {
        MoveFailure::NonPositiveAmount => WrapperError::NonPositiveAmount,
        MoveFailure::InsufficientBalance => WrapperError::InsufficientBalance,
        MoveFailure::Overflow => WrapperError::Overflow,
    }
}

fn wrapper_error_from(e: MoveFailure) -> (r: WrapperError)
    ensures
        r == wrapper_error_of(e),
{
    match e {
        MoveFailure::NonPositiveAmount => WrapperError::NonPositiveAmount,
        MoveFailure::InsufficientBalance => WrapperError::InsufficientBalance,
        MoveFailure::Overflow => WrapperError::Overflow,
    }
}

/// Whether a flag is recorded and set (an absent flag reads as unset).
pub open spec fn flag_of<K>(m: Map<K, bool>, k: K) -> bool {
    m.contains_key(k) && m[k]
}

/// The stored state of the wrapped-XLM token.
#[verifier::ext_equal]
pub struct WrapperState {
    pub admin: Option<Seq<u8>>,
    pub name: Option<Seq<char>>,
    pub symbol: Option<Seq<char>>,
    pub decimals: Option<u32>,
    pub paused: Option<bool>,
    pub total_supply: i128,
    pub balances: Map<Seq<u8>, i128>,
    pub allowances: Map<(Seq<u8>, Seq<u8>), i128>,
    pub operator_approvals: Map<(Seq<u8>, Seq<u8>), bool>,
    pub amm_authorized: Map<Seq<u8>, bool>,
    pub lending_authorized: Map<Seq<u8>, bool>,
}

impl WrapperState {
    /// The state before `initialize`: nothing is stored.
    pub open spec fn empty() -> WrapperState {
        WrapperState {
            admin: None,
            name: None,
            symbol: None,
            decimals: None,
            paused: None,
            total_supply: 0,
            balances: Map::empty(),
            allowances: Map::empty(),
            operator_approvals: Map::empty(),
            amm_authorized: Map::empty(),
            lending_authorized: Map::empty(),
        }
    }

    /// The wrapped balance of `owner`.
    pub open spec fn balance_of(self, owner: Seq<u8>) -> i128 {
        amount_of(self.balances, owner)
    }

    /// What `owner` allows `spender` to move.
    pub open spec fn allowance(self, owner: Seq<u8>, spender: Seq<u8>) -> i128 {
        amount_of(self.allowances, (owner, spender))
    }

    /// Whether `operator` may move all of `owner`'s tokens.
    pub open spec fn is_approved_for_all(self, owner: Seq<u8>, operator: Seq<u8>) -> bool {
        flag_of(self.operator_approvals, (owner, operator))
    }

    /// Whether `address` is authorized for AMM interactions.
    pub open spec fn is_amm_authorized(self, address: Seq<u8>) -> bool {
        flag_of(self.amm_authorized, address)
    }

    /// Whether `address` is authorized for lending interactions.
    pub open spec fn is_lending_authorized(self, address: Seq<u8>) -> bool {
        flag_of(self.lending_authorized, address)
    }

    /// Whether deposits and withdrawals are paused (not when nothing is recorded).
    pub open spec fn is_paused(self) -> bool {
        self.paused == Some(true)
    }

    /// The number of decimals (seven when none is recorded).
    pub open spec fn decimals_or_default(self) -> u32 {
        match self.decimals {
            Some(d) => d,
            None => 7,
        }
    }

    /// The invariant: balances and allowances are never negative, and the
    /// wrapped balances sum to the total supply (which the native XLM held by
    /// the contract backs one to one).
    pub open spec fn consistent(self) -> bool {
        &&& self.balances.dom().finite()
        &&& all_nonnegative(self.balances)
        &&& all_nonnegative(self.allowances)
        &&& sum_all(self.balances) == self.total_supply
    }

    /// `initialize`: refused when an administrator is set; otherwise records
    /// the administrator, name, symbol, seven decimals, an unpaused state, and
    /// authorizes the contract's own address for AMM and lending interactions.
    pub open spec fn initialize(
        self,
        admin: Seq<u8>,
        name: Seq<char>,
        symbol: Seq<char>,
        contract_address: Seq<u8>,
    ) -> (WrapperState, Result<(), WrapperError>) {
        if self.admin is Some {
            (self, Err(WrapperError::AlreadyInitialized))
        } else {
            (
                WrapperState {
                    admin: Some(admin),
                    name: Some(name),
                    symbol: Some(symbol),
                    decimals: Some(7),
                    paused: Some(false),
                    amm_authorized: self.amm_authorized.insert(contract_address, true),
                    lending_authorized: self.lending_authorized.insert(contract_address, true),
                    ..self
                },
                Ok(()),
            )
        }
    }

    /// `deposit`: when not paused, mints a positive `amount` of wrapped XLM to
    /// `from` and answers the amount of native XLM to take from `from` into
    /// the contract, which is the same amount.
    pub open spec fn deposit(self, from: Seq<u8>, amount: i128) -> (WrapperState, Result<i128, WrapperError>) {
        let bal = self.balance_of(from);
        if self.is_paused() {
            (self, Err(WrapperError::Paused))
        } else if amount <= 0 {
            (self, Err(WrapperError::NonPositiveAmount))
        } else if bal + amount > i128::MAX || self.total_supply + amount > i128::MAX {
            (self, Err(WrapperError::Overflow))
        } else {
            (
                WrapperState {
                    balances: self.balances.insert(from, (bal + amount) as i128),
                    total_supply: (self.total_supply + amount) as i128,
                    ..self
                },
                Ok(amount),
            )
        }
    }

    /// `withdraw`: when not paused, burns a positive `amount` of wrapped XLM
    /// held by `from` and answers the amount of native XLM to send back to
    /// `from`, which is the same amount.
    pub open spec fn withdraw(self, from: Seq<u8>, amount: i128) -> (WrapperState, Result<i128, WrapperError>) {
        let bal = self.balance_of(from);
        if self.is_paused() {
            (self, Err(WrapperError::Paused))
        } else if amount <= 0 {
            (self, Err(WrapperError::NonPositiveAmount))
        } else if bal < amount {
            (self, Err(WrapperError::InsufficientBalance))
        } else if self.total_supply - amount < i128::MIN {
            (self, Err(WrapperError::Overflow))
        } else {
            (
                WrapperState {
                    balances: self.balances.insert(from, (bal - amount) as i128),
                    total_supply: (self.total_supply - amount) as i128,
                    ..self
                },
                Ok(amount),
            )
        }
    }

    /// `transfer`: moves a positive `amount` from `from` to `to`.
    pub open spec fn transfer(self, from: Seq<u8>, to: Seq<u8>, amount: i128) -> (
        WrapperState,
        Result<(), WrapperError>,
    ) {
        match move_amount(self.balances, from, to, amount) {
            Ok(m) => (WrapperState { balances: m, ..self }, Ok(())),
            Err(e) => (self, Err(wrapper_error_of(e))),
        }
    }

    /// `approve`: sets a non-negative allowance, replacing any earlier one.
    pub open spec fn approve(self, owner: Seq<u8>, spender: Seq<u8>, amount: i128) -> (
        WrapperState,
        Result<(), WrapperError>,
    ) {
        if amount < 0 {
            (self, Err(WrapperError::NegativeAmount))
        } else {
            (
                WrapperState {
                    allowances: self.allowances.insert((owner, spender), amount),
                    ..self
                },
                Ok(()),
            )
        }
    }

    /// `set_approval_for_all`: records (or erases) that `operator` may move
    /// all of `owner`'s tokens.
    pub open spec fn set_approval_for_all(self, owner: Seq<u8>, operator: Seq<u8>, approved: bool) -> WrapperState {
        if approved {
            WrapperState {
                operator_approvals: self.operator_approvals.insert((owner, operator), true),
                ..self
            }
        } else {
            WrapperState {
                operator_approvals: self.operator_approvals.remove((owner, operator)),
                ..self
            }
        }
    }

    /// `transfer_from`: an operator of `from` moves the amount without
    /// touching allowances; any other spender must be allowed at least the
    /// amount and its allowance is lowered by it. The move itself is then as
    /// in `transfer`.
    pub open spec fn transfer_from(
        self,
        spender: Seq<u8>,
        from: Seq<u8>,
        to: Seq<u8>,
        amount: i128,
    ) -> (WrapperState, Result<(), WrapperError>) {
        let allowed = self.allowance(from, spender);
        if !self.is_approved_for_all(from, spender) && allowed < amount {
            (self, Err(WrapperError::InsufficientAllowance))
        } else if !self.is_approved_for_all(from, spender) && allowed - amount > i128::MAX {
            (self, Err(WrapperError::Overflow))
        } else {
            match move_amount(self.balances, from, to, amount) {
                Ok(m) => (
                    WrapperState {
                        allowances: if self.is_approved_for_all(from, spender) {
                            self.allowances
                        } else {
                            self.allowances.insert((from, spender), (allowed - amount) as i128)
                        },
                        balances: m,
                        ..self
                    },
                    Ok(()),
                ),
                Err(e) => (self, Err(wrapper_error_of(e))),
            }
        }
    }

    /// `burn`: removes a positive `amount` held by `from` from its balance and
    /// from the total supply.
    pub open spec fn burn(self, from: Seq<u8>, amount: i128) -> (WrapperState, Result<(), WrapperError>) {
        let bal = self.balance_of(from);
        if amount <= 0 {
            (self, Err(WrapperError::NonPositiveAmount))
        } else if bal < amount {
            (self, Err(WrapperError::InsufficientBalance))
        } else if self.total_supply - amount < i128::MIN {
            (self, Err(WrapperError::Overflow))
        } else {
            (
                WrapperState {
                    balances: self.balances.insert(from, (bal - amount) as i128),
                    total_supply: (self.total_supply - amount) as i128,
                    ..self
                },
                Ok(()),
            )
        }
    }

    /// Whether `caller` may run an administrator operation: an administrator
    /// must be set and be `caller`.
    pub open spec fn admin_check(self, caller: Seq<u8>) -> Result<(), WrapperError> {
        match self.admin {
            None => Err(WrapperError::NotInitialized),
            Some(a) => if a == caller {
                Ok(())
            } else {
                Err(WrapperError::Unauthorized)
            },
        }
    }

    /// `authorize_amm` / `revoke_amm`: the administrator sets or erases the
    /// AMM authorization of `address`.
    pub open spec fn set_amm(self, caller: Seq<u8>, address: Seq<u8>, authorized: bool) -> (
        WrapperState,
        Result<(), WrapperError>,
    ) {
        match self.admin_check(caller) {
            Err(e) => (self, Err(e)),
            Ok(()) => (
                WrapperState {
                    amm_authorized: if authorized {
                        self.amm_authorized.insert(address, true)
                    } else {
                        self.amm_authorized.remove(address)
                    },
                    ..self
                },
                Ok(()),
            ),
        }
    }

    /// `authorize_lending` / `revoke_lending`: the administrator sets or
    /// erases the lending authorization of `address`.
    pub open spec fn set_lending(self, caller: Seq<u8>, address: Seq<u8>, authorized: bool) -> (
        WrapperState,
        Result<(), WrapperError>,
    ) {
        match self.admin_check(caller) {
            Err(e) => (self, Err(e)),
            Ok(()) => (
                WrapperState {
                    lending_authorized: if authorized {
                        self.lending_authorized.insert(address, true)
                    } else {
                        self.lending_authorized.remove(address)
                    },
                    ..self
                },
                Ok(()),
            ),
        }
    }

    /// `pause` / `unpause`: the administrator sets the pause flag.
    pub open spec fn set_paused(self, caller: Seq<u8>, paused: bool) -> (
        WrapperState,
        Result<(), WrapperError>,
    ) {
        match self.admin_check(caller) {
            Err(e) => (self, Err(e)),
            Ok(()) => (WrapperState { paused: Some(paused), ..self }, Ok(())),
        }
    }
}

fn read_flag<K: crate::table::TableKey>(t: &Table<K, bool>, k: &K) -> (r: bool)
    requires
        t.wf(),
    ensures
        r == flag_of(t.map(), k@),
{
    match t.get(k) {
        Some(v) => *v,
        None => false,
    }
}

/// Native XLM wrapped one to one as a SEP-41 token (wXLM), with operator
/// approvals, AMM and lending authorizations and an emergency pause. The
/// value holds the contract's whole storage; each method is one entry point,
/// and a refused call leaves the storage unchanged. Moving native XLM in and
/// out, and checking who signed a call, happen around these methods.
pub struct XLMWrapper {
    admin: Option<Address>,
    name: Option<String>,
    symbol: Option<String>,
    decimals: Option<u32>,
    paused: Option<bool>,
    total_supply: i128,
    balances: Table<Address, i128>,
    allowances: Table<(Address, Address), i128>,
    operator_approvals: Table<(Address, Address), bool>,
    amm_authorized: Table<Address, bool>,
    lending_authorized: Table<Address, bool>,
}

impl View for XLMWrapper {
    type V = WrapperState;

    closed spec fn view(&self) -> WrapperState {
        WrapperState {
            admin: address_view(self.admin),
            name: string_view(self.name),
            symbol: string_view(self.symbol),
            decimals: self.decimals,
            paused: self.paused,
            total_supply: self.total_supply,
            balances: self.balances.map(),
            allowances: self.allowances.map(),
            operator_approvals: self.operator_approvals.map(),
            amm_authorized: self.amm_authorized.map(),
            lending_authorized: self.lending_authorized.map(),
        }
    }
}

impl XLMWrapper {
    /// Well-formedness: the tables are well formed and the stored state is
    /// consistent (see [`WrapperState::consistent`]).
    pub closed spec fn wf(&self) -> bool {
        &&& self.balances.wf()
        &&& self.allowances.wf()
        &&& self.operator_approvals.wf()
        &&& self.amm_authorized.wf()
        &&& self.lending_authorized.wf()
        &&& self@.consistent()
    }

    /// Every well-formed contract holds a consistent ledger: balances are
    /// never negative and sum to the total supply.
    pub proof fn wf_is_consistent(&self)
        requires
            self.wf(),
        ensures
            self@.consistent(),
    {
    }

    /// Rebuilds a contract from its stored parts; answers `None` exactly when
    /// the parts do not form a consistent ledger (see [`WrapperState::consistent`]).
    pub fn from_parts(
        admin: Option<Address>,
        name: Option<String>,
        symbol: Option<String>,
        decimals: Option<u32>,
        paused: Option<bool>,
        total_supply: i128,
        balances: Table<Address, i128>,
        allowances: Table<(Address, Address), i128>,
        operator_approvals: Table<(Address, Address), bool>,
        amm_authorized: Table<Address, bool>,
        lending_authorized: Table<Address, bool>,
    ) -> (r: Option<XLMWrapper>)
        requires
            balances.wf(),
            allowances.wf(),
            operator_approvals.wf(),
            amm_authorized.wf(),
            lending_authorized.wf(),
        ensures
            ({
                let s = WrapperState {
                    admin: address_view(admin),
                    name: string_view(name),
                    symbol: string_view(symbol),
                    decimals,
                    paused,
                    total_supply,
                    balances: balances.map(),
                    allowances: allowances.map(),
                    operator_approvals: operator_approvals.map(),
                    amm_authorized: amm_authorized.map(),
                    lending_authorized: lending_authorized.map(),
                };
                match r {
                    Some(c) => c.wf() && c@ == s,
                    None => !s.consistent(),
                }
            }),
    {
        proof {
            balances.lemma_finite();
        }
        match nonnegative_total(&balances) {
            Some(sum) => {
                if sum != total_supply {
                    return None;
                }
            },
            None => {
                return None;
            },
        }
        if !all_values_nonnegative(&allowances) {
            return None;
        }
        Some(
            XLMWrapper {
                admin,
                name,
                symbol,
                decimals,
                paused,
                total_supply,
                balances,
                allowances,
                operator_approvals,
                amm_authorized,
                lending_authorized,
            },
        )
    }

    /// The administrator, once set; it must sign its own administrator calls.
    pub fn admin(&self) -> (r: Option<&Address>)
        ensures
            match r {
                Some(a) => self@.admin == Some(a@),
                None => self@.admin is None,
            },
    {
        match &self.admin {
            Some(a) => Some(a),
            None => None,
        }
    }

    /// The stored number of decimals, if any.
    pub fn stored_decimals(&self) -> (r: Option<u32>)
        ensures
            r == self@.decimals,
    {
        self.decimals
    }

    /// The stored pause flag, if any.
    pub fn stored_paused(&self) -> (r: Option<bool>)
        ensures
            r == self@.paused,
    {
        self.paused
    }

    /// The table of wrapped balances.
    pub fn balances_table(&self) -> (t: &Table<Address, i128>)
        requires
            self.wf(),
        ensures
            t.wf(),
            t.map() == self@.balances,
    {
        &self.balances
    }

    /// The table of allowances, keyed by owner and spender.
    pub fn allowances_table(&self) -> (t: &Table<(Address, Address), i128>)
        requires
            self.wf(),
        ensures
            t.wf(),
            t.map() == self@.allowances,
    {
        &self.allowances
    }

    /// The table of approvals for all, keyed by owner and operator.
    pub fn operator_approvals_table(&self) -> (t: &Table<(Address, Address), bool>)
        requires
            self.wf(),
        ensures
            t.wf(),
            t.map() == self@.operator_approvals,
    {
        &self.operator_approvals
    }

    /// The table of AMM authorizations.
    pub fn amm_table(&self) -> (t: &Table<Address, bool>)
        requires
            self.wf(),
        ensures
            t.wf(),
            t.map() == self@.amm_authorized,
    {
        &self.amm_authorized
    }

    /// The table of lending authorizations.
    pub fn lending_table(&self) -> (t: &Table<Address, bool>)
        requires
            self.wf(),
        ensures
            t.wf(),
            t.map() == self@.lending_authorized,
    {
        &self.lending_authorized
    }

    /// A contract with empty storage.
    pub fn new() -> (c: XLMWrapper)
        ensures
            c.wf(),
            c@ == WrapperState::empty(),
    {
        let c = XLMWrapper {
            admin: None,
            name: None,
            symbol: None,
            decimals: None,
            paused: None,
            total_supply: 0,
            balances: Table::new(),
            allowances: Table::new(),
            operator_approvals: Table::new(),
            amm_authorized: Table::new(),
            lending_authorized: Table::new(),
        };
        proof {
            empty_state_is_consistent();
            assert(c@ =~= WrapperState::empty());
        }
        c
    }

    /// Sets the administrator, name and symbol; `contract_address` is the
    /// contract's own address, which is authorized for AMM and lending.
    pub fn initialize(&mut self, admin: Address, name: String, symbol: String, contract_address: &Address) -> (r:
        Result<(), WrapperError>)
        requires
            old(self).wf(),
        ensures
            final(self).wf(),
            final(self)@ == old(self)@.initialize(admin@, name@, symbol@, contract_address@).0,
            r == old(self)@.initialize(admin@, name@, symbol@, contract_address@).1,
    {
        if self.admin.is_some() {
            return Err(WrapperError::AlreadyInitialized);
        }
        let ghost post = self@.initialize(admin@, name@, symbol@, contract_address@).0;
        self.admin = Some(admin);
        self.name = Some(name);
        self.symbol = Some(symbol);
        self.decimals = Some(7);
        self.paused = Some(false);
        self.amm_authorized.insert(contract_address.duplicate(), true);
        self.lending_authorized.insert(contract_address.duplicate(), true);
        assert(self@ =~= post);
        Ok(())
    }

    /// Mints `amount` wrapped XLM to `from`; answers the amount of native XLM
    /// that `from` must send to the contract (the same amount).
    pub fn deposit(&mut self, from: &Address, amount: i128) -> (r: Result<i128, WrapperError>)
        requires
            old(self).wf(),
        ensures
            final(self).wf(),
            final(self)@ == old(self)@.deposit(from@, amount).0,
            r == old(self)@.deposit(from@, amount).1,
    {
        if self.paused == Some(true) {
            return Err(WrapperError::Paused);
        }
        if amount <= 0 {
            return Err(WrapperError::NonPositiveAmount);
        }
        let bal = read_amount(&self.balances, from);
        if bal > i128::MAX - amount || self.total_supply > i128::MAX - amount {
            return Err(WrapperError::Overflow);
        }
        proof {
            deposit_keeps_consistency(self@, from@, amount);
        }
        let ghost post = self@.deposit(from@, amount).0;
        self.balances.insert(from.duplicate(), bal + amount);
        self.total_supply = self.total_supply + amount;
        assert(self@ =~= post);
        Ok(amount)
    }

    /// Burns `amount` wrapped XLM held by `from`; answers the amount of native
    /// XLM that the contract must send back to `from` (the same amount).
    pub fn withdraw(&mut self, from: &Address, amount: i128) -> (r: Result<i128, WrapperError>)
        requires
            old(self).wf(),
        ensures
            final(self).wf(),
            final(self)@ == old(self)@.withdraw(from@, amount).0,
            r == old(self)@.withdraw(from@, amount).1,
    {
        if self.paused == Some(true) {
            return Err(WrapperError::Paused);
        }
        if amount <= 0 {
            return Err(WrapperError::NonPositiveAmount);
        }
        let bal = read_amount(&self.balances, from);
        if bal < amount {
            return Err(WrapperError::InsufficientBalance);
        }
        if self.total_supply < i128::MIN + amount {
            return Err(WrapperError::Overflow);
        }
        proof {
            withdraw_keeps_consistency(self@, from@, amount);
        }
        let ghost post = self@.withdraw(from@, amount).0;
        self.balances.insert(from.duplicate(), bal - amount);
        self.total_supply = self.total_supply - amount;
        assert(self@ =~= post);
        Ok(amount)
    }

    /// Moves a positive `amount` from `from` to `to`.
    pub fn transfer(&mut self, from: &Address, to: &Address, amount: i128) -> (r: Result<(), WrapperError>)
        requires
            old(self).wf(),
        ensures
            final(self).wf(),
            final(self)@ == old(self)@.transfer(from@, to@, amount).0,
            r == old(self)@.transfer(from@, to@, amount).1,
    {
        proof {
            transfer_keeps_consistency(self@, from@, to@, amount);
        }
        let ghost post = self@.transfer(from@, to@, amount).0;
        match move_in_table(&mut self.balances, from, to, amount) {
            Ok(()) => {
                assert(self@ =~= post);
                Ok(())
            },
            Err(e) => {
                assert(self@ =~= post);
                Err(wrapper_error_from(e))
            },
        }
    }

    /// Sets what `owner` allows `spender` to move to a non-negative `amount`.
    pub fn approve(&mut self, owner: &Address, spender: &Address, amount: i128) -> (r: Result<
        (),
        WrapperError,
    >)
        requires
            old(self).wf(),
        ensures
            final(self).wf(),
            final(self)@ == old(self)@.approve(owner@, spender@, amount).0,
            r == old(self)@.approve(owner@, spender@, amount).1,
    {
        if amount < 0 {
            return Err(WrapperError::NegativeAmount);
        }
        proof {
            approve_keeps_consistency(self@, owner@, spender@, amount);
        }
        let ghost post = self@.approve(owner@, spender@, amount).0;
        self.allowances.insert((owner.duplicate(), spender.duplicate()), amount);
        assert(self@ =~= post);
        Ok(())
    }

    /// Records (or erases) that `operator` may move all of `owner`'s tokens.
    pub fn set_approval_for_all(&mut self, owner: &Address, operator: &Address, approved: bool)
        requires
            old(self).wf(),
        ensures
            final(self).wf(),
            final(self)@ == old(self)@.set_approval_for_all(owner@, operator@, approved),
    {
        let ghost post = self@.set_approval_for_all(owner@, operator@, approved);
        let key = (owner.duplicate(), operator.duplicate());
        if approved {
            self.operator_approvals.insert(key, true);
        } else {
            self.operator_approvals.remove(&key);
        }
        assert(self@ =~= post);
    }

    /// `spender` moves a positive `amount` from `from` to `to`, as an operator
    /// of `from` or out of its allowance.
    pub fn transfer_from(&mut self, spender: &Address, from: &Address, to: &Address, amount: i128) -> (r:
        Result<(), WrapperError>)
        requires
            old(self).wf(),
        ensures
            final(self).wf(),
            final(self)@ == old(self)@.transfer_from(spender@, from@, to@, amount).0,
            r == old(self)@.transfer_from(spender@, from@, to@, amount).1,
    {
        let key = (from.duplicate(), spender.duplicate());
        let is_operator = read_flag(&self.operator_approvals, &key);
        let allowed = read_amount(&self.allowances, &key);
        if !is_operator {
            if allowed < amount {
                return Err(WrapperError::InsufficientAllowance);
            }
            if amount < 0 && allowed > i128::MAX + amount {
                return Err(WrapperError::Overflow);
            }
        }
        proof {
            transfer_from_keeps_consistency(self@, spender@, from@, to@, amount);
        }
        let ghost post = self@.transfer_from(spender@, from@, to@, amount).0;
        match move_in_table(&mut self.balances, from, to, amount) {
            Ok(()) => {
                if !is_operator {
                    self.allowances.insert(key, allowed - amount);
                }
                assert(self@ =~= post);
                Ok(())
            },
            Err(e) => {
                assert(self@ =~= post);
                Err(wrapper_error_from(e))
            },
        }
    }

    /// Burns a positive `amount` held by `from`.
    pub fn burn(&mut self, from: &Address, amount: i128) -> (r: Result<(), WrapperError>)
        requires
            old(self).wf(),
        ensures
            final(self).wf(),
            final(self)@ == old(self)@.burn(from@, amount).0,
            r == old(self)@.burn(from@, amount).1,
    {
        if amount <= 0 {
            return Err(WrapperError::NonPositiveAmount);
        }
        let bal = read_amount(&self.balances, from);
        if bal < amount {
            return Err(WrapperError::InsufficientBalance);
        }
        if self.total_supply < i128::MIN + amount {
            return Err(WrapperError::Overflow);
        }
        proof {
            burn_keeps_consistency(self@, from@, amount);
        }
        let ghost post = self@.burn(from@, amount).0;
        self.balances.insert(from.duplicate(), bal - amount);
        self.total_supply = self.total_supply - amount;
        assert(self@ =~= post);
        Ok(())
    }

    /// The wrapped balance of `owner`.
    pub fn balance_of(&self, owner: &Address) -> (r: i128)
        requires
            self.wf(),
        ensures
            r == self@.balance_of(owner@),
    {
        read_amount(&self.balances, owner)
    }

    /// What `owner` allows `spender` to move.
    pub fn allowance(&self, owner: &Address, spender: &Address) -> (r: i128)
        requires
            self.wf(),
        ensures
            r == self@.allowance(owner@, spender@),
    {
        read_amount(&self.allowances, &(owner.duplicate(), spender.duplicate()))
    }

    /// Whether `operator` may move all of `owner`'s tokens.
    pub fn is_approved_for_all(&self, owner: &Address, operator: &Address) -> (r: bool)
        requires
            self.wf(),
        ensures
            r == self@.is_approved_for_all(owner@, operator@),
    {
        read_flag(&self.operator_approvals, &(owner.duplicate(), operator.duplicate()))
    }

    /// The total wrapped supply.
    pub fn total_supply(&self) -> (r: i128)
        ensures
            r == self@.total_supply,
    {
        self.total_supply
    }

    /// The number of decimals (seven when none is recorded).
    pub fn decimals(&self) -> (r: u32)
        ensures
            r == self@.decimals_or_default(),
    {
        match self.decimals {
            Some(d) => d,
            None => 7,
        }
    }

    /// The token's name, once set.
    pub fn name(&self) -> (r: Option<String>)
        ensures
            string_view(r) == self@.name,
    {
        match &self.name {
            Some(x) => Some(x.clone()),
            None => None,
        }
    }

    /// The token's symbol, once set.
    pub fn symbol(&self) -> (r: Option<String>)
        ensures
            string_view(r) == self@.symbol,
    {
        match &self.symbol {
            Some(x) => Some(x.clone()),
            None => None,
        }
    }

    fn check_admin(&self, caller: &Address) -> (r: Result<(), WrapperError>)
        ensures
            r == self@.admin_check(caller@),
    {
        match &self.admin {
            None => Err(WrapperError::NotInitialized),
            Some(a) => if a.same(caller) {
                Ok(())
            } else {
                Err(WrapperError::Unauthorized)
            },
        }
    }

    /// The administrator `caller` authorizes `amm_address` for AMM interactions.
    pub fn authorize_amm(&mut self, caller: &Address, amm_address: &Address) -> (r: Result<(), WrapperError>)
        requires
            old(self).wf(),
        ensures
            final(self).wf(),
            final(self)@ == old(self)@.set_amm(caller@, amm_address@, true).0,
            r == old(self)@.set_amm(caller@, amm_address@, true).1,
    {
        self.check_admin(caller)?;
        let ghost post = self@.set_amm(caller@, amm_address@, true).0;
        self.amm_authorized.insert(amm_address.duplicate(), true);
        assert(self@ =~= post);
        proof {
            flags_keep_consistency(old(self)@, self@);
        }
        Ok(())
    }

    /// The administrator `caller` revokes the AMM authorization of `amm_address`.
    pub fn revoke_amm(&mut self, caller: &Address, amm_address: &Address) -> (r: Result<(), WrapperError>)
        requires
            old(self).wf(),
        ensures
            final(self).wf(),
            final(self)@ == old(self)@.set_amm(caller@, amm_address@, false).0,
            r == old(self)@.set_amm(caller@, amm_address@, false).1,
    {
        self.check_admin(caller)?;
        let ghost post = self@.set_amm(caller@, amm_address@, false).0;
        self.amm_authorized.remove(amm_address);
        assert(self@ =~= post);
        proof {
            flags_keep_consistency(old(self)@, self@);
        }
        Ok(())
    }

    /// Whether `address` is authorized for AMM interactions.
    pub fn is_amm_authorized(&self, address: &Address) -> (r: bool)
        requires
            self.wf(),
        ensures
            r == self@.is_amm_authorized(address@),
    {
        read_flag(&self.amm_authorized, address)
    }

    /// The administrator `caller` authorizes `lending_address` for lending interactions.
    pub fn authorize_lending(&mut self, caller: &Address, lending_address: &Address) -> (r: Result<
        (),
        WrapperError,
    >)
        requires
            old(self).wf(),
        ensures
            final(self).wf(),
            final(self)@ == old(self)@.set_lending(caller@, lending_address@, true).0,
            r == old(self)@.set_lending(caller@, lending_address@, true).1,
    {
        self.check_admin(caller)?;
        let ghost post = self@.set_lending(caller@, lending_address@, true).0;
        self.lending_authorized.insert(lending_address.duplicate(), true);
        assert(self@ =~= post);
        proof {
            flags_keep_consistency(old(self)@, self@);
        }
        Ok(())
    }

    /// The administrator `caller` revokes the lending authorization of `lending_address`.
    pub fn revoke_lending(&mut self, caller: &Address, lending_address: &Address) -> (r: Result<
        (),
        WrapperError,
    >)
        requires
            old(self).wf(),
        ensures
            final(self).wf(),
            final(self)@ == old(self)@.set_lending(caller@, lending_address@, false).0,
            r == old(self)@.set_lending(caller@, lending_address@, false).1,
    {
        self.check_admin(caller)?;
        let ghost post = self@.set_lending(caller@, lending_address@, false).0;
        self.lending_authorized.remove(lending_address);
        assert(self@ =~= post);
        proof {
            flags_keep_consistency(old(self)@, self@);
        }
        Ok(())
    }

    /// Whether `address` is authorized for lending interactions.
    pub fn is_lending_authorized(&self, address: &Address) -> (r: bool)
        requires
            self.wf(),
        ensures
            r == self@.is_lending_authorized(address@),
    {
        read_flag(&self.lending_authorized, address)
    }

    /// The administrator `caller` pauses deposits and withdrawals.
    pub fn pause(&mut self, caller: &Address) -> (r: Result<(), WrapperError>)
        requires
            old(self).wf(),
        ensures
            final(self).wf(),
            final(self)@ == old(self)@.set_paused(caller@, true).0,
            r == old(self)@.set_paused(caller@, true).1,
    {
        self.check_admin(caller)?;
        let ghost post = self@.set_paused(caller@, true).0;
        self.paused = Some(true);
        assert(self@ =~= post);
        Ok(())
    }

    /// The administrator `caller` resumes deposits and withdrawals.
    pub fn unpause(&mut self, caller: &Address) -> (r: Result<(), WrapperError>)
        requires
            old(self).wf(),
        ensures
            final(self).wf(),
            final(self)@ == old(self)@.set_paused(caller@, false).0,
            r == old(self)@.set_paused(caller@, false).1,
    {
        self.check_admin(caller)?;
        let ghost post = self@.set_paused(caller@, false).0;
        self.paused = Some(false);
        assert(self@ =~= post);
        Ok(())
    }

    /// Whether deposits and withdrawals are paused.
    pub fn is_paused(&self) -> (r: bool)
        ensures
            r == self@.is_paused(),
    {
        self.paused == Some(true)
    }
}

} // verus!
