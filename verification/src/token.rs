use vstd::prelude::*;

use crate::address::Address;
use crate::ledger::{
    all_values_nonnegative, amount_of, lemma_prefix_sum_bounded, move_amount, move_in_table,
    nonnegative_total, read_amount, same_amounts, MoveFailure,
};
use crate::sums::{all_nonnegative, lemma_sum_empty, lemma_sum_insert, sum_all, sum_where};
use crate::token_laws::{
    approve_keeps_consistency, batch_transfer_keeps_consistency, burn_keeps_consistency, empty_state_is_consistent,
    initialize_keeps_consistency, mint_keeps_consistency, set_token_uri_keeps_consistency,
    sft_burn_keeps_consistency, sft_mint_keeps_consistency, sft_transfer_keeps_consistency,
    transfer_from_keeps_consistency, transfer_keeps_consistency,
};
use crate::table::Table;

verus! {

/// Why a token operation was refused. Each refusal leaves the state as it was.
#[derive(Debug, Clone, Copy, PartialEq, Eq, Structural)]
pub enum TokenError {
    /// `initialize` on a token that already has an administrator.
    AlreadyInitialized,
    /// An operation that needs the administrator (or the token's metadata)
    /// before `initialize`.
    NotInitialized,
    /// An amount that must be positive is zero or negative.
    NonPositiveAmount,
    /// An allowance that must not be negative is negative.
    NegativeAmount,
    /// The account holds less than the amount.
    InsufficientBalance,
    /// The spender's allowance is less than the amount.
    InsufficientAllowance,
    /// A batch with no items.
    EmptyBatch,
    /// A batch whose lists differ in length.
    LengthMismatch,
    /// A balance or a supply would leave the range of `i128`.
    Overflow,
}

/// The token error that a refused move becomes.
pub open spec fn token_error_of(e: MoveFailure) -> TokenError {
    match e {
        MoveFailure::NonPositiveAmount => TokenError::NonPositiveAmount,
        MoveFailure::InsufficientBalance => TokenError::InsufficientBalance,
        MoveFailure::Overflow => TokenError::Overflow,
    }
}

fn token_error_from(e: MoveFailure) -> (r: TokenError)
    ensures
        r == token_error_of(e),
{
    match e {
        MoveFailure::NonPositiveAmount => TokenError::NonPositiveAmount,
        MoveFailure::InsufficientBalance => TokenError::InsufficientBalance,
        MoveFailure::Overflow => TokenError::Overflow,
    }
}

/// Selects the semi-fungible balances of token id `t`.
pub open spec fn of_id(t: u64) -> spec_fn((Seq<u8>, u64)) -> bool {
    |k: (Seq<u8>, u64)| k.1 == t
}

/// The stored state of the token: every storage slot of the contract, with
/// addresses taken by their encodings and strings by their characters.
#[verifier::ext_equal]
pub struct TokenState {
    pub admin: Option<Seq<u8>>,
    pub decimals: Option<u32>,
    pub name: Option<Seq<char>>,
    pub symbol: Option<Seq<char>>,
    pub total_supply: i128,
    pub balances: Map<Seq<u8>, i128>,
    pub allowances: Map<(Seq<u8>, Seq<u8>), i128>,
    pub sft_balances: Map<(Seq<u8>, u64), i128>,
    pub sft_supply: Map<u64, i128>,
    pub token_uris: Map<u64, Seq<char>>,
}

/// Once a prefix of a batch is refused, every longer prefix is refused the same way.
pub proof fn lemma_batch_refusal_sticks(
    m: Map<(Seq<u8>, u64), i128>,
    from: Seq<u8>,
    to: Seq<u8>,
    ids: Seq<u64>,
    amounts: Seq<i128>,
    k: nat,
    n: nat,
)
    requires
        k <= n,
        batch_prefix(m, from, to, ids, amounts, k) is Err,
    ensures
        batch_prefix(m, from, to, ids, amounts, n) == batch_prefix(m, from, to, ids, amounts, k),
    decreases n,
{
    if n > k {
        lemma_batch_refusal_sticks(m, from, to, ids, amounts, k, (n - 1) as nat);
    }
}

/// Applies the first `n` items of a batch transfer, in order.
pub open spec fn batch_prefix(
    m: Map<(Seq<u8>, u64), i128>,
    from: Seq<u8>,
    to: Seq<u8>,
    ids: Seq<u64>,
    amounts: Seq<i128>,
    n: nat,
) -> Result<Map<(Seq<u8>, u64), i128>, MoveFailure>
    decreases n,
{
    if n == 0 {
        Ok(m)
    } else {
        match batch_prefix(m, from, to, ids, amounts, (n - 1) as nat) {
            Ok(m1) => move_amount(m1, (from, ids[n - 1]), (to, ids[n - 1]), amounts[n - 1]),
            Err(e) => Err(e),
        }
    }
}

impl TokenState {
    /// The state before `initialize`: nothing is stored.
    pub open spec fn empty() -> TokenState {
        TokenState {
            admin: None,
            decimals: None,
            name: None,
            symbol: None,
            total_supply: 0,
            balances: Map::empty(),
            allowances: Map::empty(),
            sft_balances: Map::empty(),
            sft_supply: Map::empty(),
            token_uris: Map::empty(),
        }
    }

    /// The fungible balance of `id` (zero when none is recorded).
    pub open spec fn balance_of(self, id: Seq<u8>) -> i128 {
        amount_of(self.balances, id)
    }

    /// What `owner` allows `spender` to move (zero when nothing is recorded).
    pub open spec fn allowance(self, owner: Seq<u8>, spender: Seq<u8>) -> i128 {
        amount_of(self.allowances, (owner, spender))
    }

    /// The number of decimals (seven when none is recorded).
    pub open spec fn decimals_or_default(self) -> u32 {
        match self.decimals {
            Some(d) => d,
            None => 7,
        }
    }

    /// The balance of `account` in token id `token_id`.
    pub open spec fn sft_balance_of(self, account: Seq<u8>, token_id: u64) -> i128 {
        amount_of(self.sft_balances, (account, token_id))
    }

    /// The total supply of token id `token_id`.
    pub open spec fn sft_total_supply(self, token_id: u64) -> i128 {
        amount_of(self.sft_supply, token_id)
    }

    /// The metadata URI of `token_id` (empty when none is recorded).
    pub open spec fn token_uri(self, token_id: u64) -> Seq<char> {
        if self.token_uris.contains_key(token_id) {
            self.token_uris[token_id]
        } else {
            Seq::empty()
        }
    }

    /// The ledger's invariant: balances are never negative, the fungible
    /// balances sum to the total supply, the balances of each token id sum to
    /// that id's supply, allowances are never negative, and nothing is in
    /// circulation before an administrator is set.
    pub open spec fn consistent(self) -> bool {
        &&& self.balances.dom().finite()
        &&& self.sft_balances.dom().finite()
        &&& all_nonnegative(self.balances)
        &&& all_nonnegative(self.sft_balances)
        &&& all_nonnegative(self.allowances)
        &&& sum_all(self.balances) == self.total_supply
        &&& forall|t: u64| #[trigger]
            sum_where(self.sft_balances, of_id(t)) == amount_of(self.sft_supply, t)
        &&& self.admin is None ==> self.total_supply == 0
    }

    /// `initialize`: refused when an administrator is already set; otherwise
    /// records the administrator, decimals, name and symbol, and a zero supply.
    pub open spec fn initialize(
        self,
        admin: Seq<u8>,
        decimals: u32,
        name: Seq<char>,
        symbol: Seq<char>,
    ) -> (TokenState, Result<(), TokenError>) {
        if self.admin is Some {
            (self, Err(TokenError::AlreadyInitialized))
        } else {
            (
                TokenState {
                    admin: Some(admin),
                    decimals: Some(decimals),
                    name: Some(name),
                    symbol: Some(symbol),
                    total_supply: 0,
                    ..self
                },
                Ok(()),
            )
        }
    }

    /// `mint`: adds a positive `amount` to the balance of `to` and to the
    /// total supply; needs an administrator.
    pub open spec fn mint(self, to: Seq<u8>, amount: i128) -> (TokenState, Result<(), TokenError>) {
        let bal = self.balance_of(to);
        if amount <= 0 {
            (self, Err(TokenError::NonPositiveAmount))
        } else if self.admin is None {
            (self, Err(TokenError::NotInitialized))
        } else if bal + amount > i128::MAX || self.total_supply + amount > i128::MAX {
            (self, Err(TokenError::Overflow))
        } else {
            (
                TokenState {
                    balances: self.balances.insert(to, (bal + amount) as i128),
                    total_supply: (self.total_supply + amount) as i128,
                    ..self
                },
                Ok(()),
            )
        }
    }

    /// `transfer`: moves a positive `amount` from `from` to `to`.
    pub open spec fn transfer(self, from: Seq<u8>, to: Seq<u8>, amount: i128) -> (
        TokenState,
        Result<(), TokenError>,
    ) {
        match move_amount(self.balances, from, to, amount) {
            Ok(m) => (TokenState { balances: m, ..self }, Ok(())),
            Err(e) => (self, Err(token_error_of(e))),
        }
    }

    /// `approve`: sets what `owner` allows `spender` to move to a
    /// non-negative `amount`, replacing any earlier allowance.
    pub open spec fn approve(self, owner: Seq<u8>, spender: Seq<u8>, amount: i128) -> (
        TokenState,
        Result<(), TokenError>,
    ) {
        if amount < 0 {
            (self, Err(TokenError::NegativeAmount))
        } else {
            (
                TokenState { allowances: self.allowances.insert((owner, spender), amount), ..self },
                Ok(()),
            )
        }
    }

    /// `transfer_from`: `spender` moves a positive `amount` from `from` to
    /// `to`, lowering its allowance from `from` by the amount.
    pub open spec fn transfer_from(
        self,
        spender: Seq<u8>,
        from: Seq<u8>,
        to: Seq<u8>,
        amount: i128,
    ) -> (TokenState, Result<(), TokenError>) {
        let allowed = self.allowance(from, spender);
        if amount <= 0 {
            (self, Err(TokenError::NonPositiveAmount))
        } else if allowed < amount {
            (self, Err(TokenError::InsufficientAllowance))
        } else {
            match move_amount(self.balances, from, to, amount) {
                Ok(m) => (
                    TokenState {
                        allowances: self.allowances.insert((from, spender), (allowed - amount) as i128),
                        balances: m,
                        ..self
                    },
                    Ok(()),
                ),
                Err(e) => (self, Err(token_error_of(e))),
            }
        }
    }

    /// `burn`: removes a positive `amount` from the balance of `from` and
    /// from the total supply.
    pub open spec fn burn(self, from: Seq<u8>, amount: i128) -> (TokenState, Result<(), TokenError>) {
        let bal = self.balance_of(from);
        if amount <= 0 {
            (self, Err(TokenError::NonPositiveAmount))
        } else if bal < amount {
            (self, Err(TokenError::InsufficientBalance))
        } else if self.total_supply - amount < i128::MIN {
            (self, Err(TokenError::Overflow))
        } else {
            (
                TokenState {
                    balances: self.balances.insert(from, (bal - amount) as i128),
                    total_supply: (self.total_supply - amount) as i128,
                    ..self
                },
                Ok(()),
            )
        }
    }

    /// `sft_mint`: adds a positive `amount` of `token_id` to `to` and to the
    /// supply of `token_id`; needs an administrator.
    pub open spec fn sft_mint(self, to: Seq<u8>, token_id: u64, amount: i128) -> (
        TokenState,
        Result<(), TokenError>,
    ) {
        let bal = self.sft_balance_of(to, token_id);
        let supply = self.sft_total_supply(token_id);
        if amount <= 0 {
            (self, Err(TokenError::NonPositiveAmount))
        } else if self.admin is None {
            (self, Err(TokenError::NotInitialized))
        } else if bal + amount > i128::MAX || supply + amount > i128::MAX {
            (self, Err(TokenError::Overflow))
        } else {
            (
                TokenState {
                    sft_balances: self.sft_balances.insert((to, token_id), (bal + amount) as i128),
                    sft_supply: self.sft_supply.insert(token_id, (supply + amount) as i128),
                    ..self
                },
                Ok(()),
            )
        }
    }

    /// `sft_burn`: removes a positive `amount` of `token_id` from `from` and
    /// from the supply of `token_id`.
    pub open spec fn sft_burn(self, from: Seq<u8>, token_id: u64, amount: i128) -> (
        TokenState,
        Result<(), TokenError>,
    ) {
        let bal = self.sft_balance_of(from, token_id);
        let supply = self.sft_total_supply(token_id);
        if amount <= 0 {
            (self, Err(TokenError::NonPositiveAmount))
        } else if bal < amount {
            (self, Err(TokenError::InsufficientBalance))
        } else if supply - amount < i128::MIN {
            (self, Err(TokenError::Overflow))
        } else {
            (
                TokenState {
                    sft_balances: self.sft_balances.insert((from, token_id), (bal - amount) as i128),
                    sft_supply: self.sft_supply.insert(token_id, (supply - amount) as i128),
                    ..self
                },
                Ok(()),
            )
        }
    }

    /// `sft_transfer`: moves a positive `amount` of `token_id` from `from` to `to`.
    pub open spec fn sft_transfer(self, from: Seq<u8>, to: Seq<u8>, token_id: u64, amount: i128) -> (
        TokenState,
        Result<(), TokenError>,
    ) {
        match move_amount(self.sft_balances, (from, token_id), (to, token_id), amount) {
            Ok(m) => (TokenState { sft_balances: m, ..self }, Ok(())),
            Err(e) => (self, Err(token_error_of(e))),
        }
    }

    /// `batch_transfer`: refused for an empty batch or lists of different
    /// lengths; otherwise applies one `sft_transfer` per item, in order, and
    /// is refused as a whole when any item is.
    pub open spec fn batch_transfer(
        self,
        from: Seq<u8>,
        to: Seq<u8>,
        token_ids: Seq<u64>,
        amounts: Seq<i128>,
    ) -> (TokenState, Result<(), TokenError>) {
        if token_ids.len() == 0 {
            (self, Err(TokenError::EmptyBatch))
        } else if amounts.len() != token_ids.len() {
            (self, Err(TokenError::LengthMismatch))
        } else {
            match batch_prefix(self.sft_balances, from, to, token_ids, amounts, token_ids.len()) {
                Ok(m) => (TokenState { sft_balances: m, ..self }, Ok(())),
                Err(e) => (self, Err(token_error_of(e))),
            }
        }
    }

    /// `set_token_uri`: records `uri` for `token_id`; needs an administrator.
    pub open spec fn set_token_uri(self, token_id: u64, uri: Seq<char>) -> (
        TokenState,
        Result<(), TokenError>,
    ) {
        if self.admin is None {
            (self, Err(TokenError::NotInitialized))
        } else {
            (TokenState { token_uris: self.token_uris.insert(token_id, uri), ..self }, Ok(()))
        }
    }
}

/// The encoding of an optional address.
pub open spec fn address_view(a: Option<Address>) -> Option<Seq<u8>> {
    match a {
        Some(x) => Some(x@),
        None => None,
    }
}

/// The characters of an optional string.
pub open spec fn string_view(s: Option<String>) -> Option<Seq<char>> {
    match s {
        Some(x) => Some(x@),
        None => None,
    }
}

/// The characters of each stored URI.
pub open spec fn uris_view(m: Map<u64, String>) -> Map<u64, Seq<char>> {
    m.map_values(|u: String| u@)
}

fn copy_string(s: &Option<String>) -> (r: Option<String>)
    ensures
        string_view(r) == string_view(*s),
{
    match s {
        Some(x) => Some(x.clone()),
        None => None,
    }
}

/// The supply of each token id that the semi-fungible balances add up to,
/// when all balances are at least zero and every such sum fits in an `i128`.
pub fn id_totals(t: &Table<(Address, u64), i128>) -> (r: Option<Table<u64, i128>>)
    requires
        t.wf(),
    ensures
        match r {
            Some(c) => {
                &&& c.wf()
                &&& all_nonnegative(t.map())
                &&& forall|id: u64| #[trigger] sum_where(t.map(), of_id(id)) == amount_of(c.map(), id)
            },
            None => !all_nonnegative(t.map()) || exists|id: u64| #[trigger]
                sum_where(t.map(), of_id(id)) > i128::MAX,
        },
{
    if !all_values_nonnegative(t) {
        return None;
    }
    let mut totals: Table<u64, i128> = Table::new();
    let n = t.len();
    let mut i: usize = 0;
    proof {
        t.lemma_prefix_ends();
        assert forall|id: u64| #[trigger]
            sum_where(t.prefix_map(0), of_id(id)) == amount_of(totals.map(), id) by {
            lemma_sum_empty::<(Seq<u8>, u64)>(of_id(id));
        }
    }
    while i < n
        invariant
            n == t.pairs().len(),
            i <= n,
            t.wf(),
            totals.wf(),
            all_nonnegative(t.map()),
            forall|id: u64| #[trigger]
                sum_where(t.prefix_map(i as int), of_id(id)) == amount_of(totals.map(), id),
        decreases n - i,
    {
        let id = t.key_at(i).1;
        let v = *t.value_at(i);
        let ghost k = t.pairs()[i as int].0;
        proof {
            t.lemma_entry(i as int);
            lemma_sum_insert(t.prefix_map(i as int), of_id(id), k, v);
        }
        let before = read_amount(&totals, &id);
        if before > i128::MAX - v {
            proof {
                lemma_prefix_sum_bounded(*t, of_id(id), i + 1);
                assert(sum_where(t.map(), of_id(id)) > i128::MAX);
            }
            return None;
        }
        let ghost old_totals = totals.map();
        totals.insert(id, before + v);
        proof {
            assert forall|x: u64| #[trigger]
                sum_where(t.prefix_map(i + 1), of_id(x)) == amount_of(totals.map(), x) by {
                lemma_sum_insert(t.prefix_map(i as int), of_id(x), k, v);
                assert(sum_where(t.prefix_map(i as int), of_id(x)) == amount_of(old_totals, x));
            }
        }
        i = i + 1;
    }
    proof {
        t.lemma_prefix_ends();
    }
    Some(totals)
}

/// A SEP-41 fungible token with a semi-fungible (per token id) extension.
/// The value holds the contract's whole storage; each method is one entry
/// point of the contract, and a refused call leaves the storage unchanged.
/// Authorization (who must sign a call) is checked by the host around these
/// calls and is not part of this value.
pub struct TokenContract {
    admin: Option<Address>,
    decimals: Option<u32>,
    name: Option<String>,
    symbol: Option<String>,
    total_supply: i128,
    balances: Table<Address, i128>,
    allowances: Table<(Address, Address), i128>,
    sft_balances: Table<(Address, u64), i128>,
    sft_supply: Table<u64, i128>,
    token_uris: Table<u64, String>,
}

impl View for TokenContract {
    type V = TokenState;

    closed spec fn view(&self) -> TokenState {
        TokenState {
            admin: address_view(self.admin),
            decimals: self.decimals,
            name: string_view(self.name),
            symbol: string_view(self.symbol),
            total_supply: self.total_supply,
            balances: self.balances.map(),
            allowances: self.allowances.map(),
            sft_balances: self.sft_balances.map(),
            sft_supply: self.sft_supply.map(),
            token_uris: uris_view(self.token_uris.map()),
        }
    }
}

impl TokenContract {
    /// Well-formedness: the tables are well formed and the stored state is
    /// consistent (see [`TokenState::consistent`]).
    pub closed spec fn wf(&self) -> bool {
        &&& self.balances.wf()
        &&& self.allowances.wf()
        &&& self.sft_balances.wf()
        &&& self.sft_supply.wf()
        &&& self.token_uris.wf()
        &&& self@.consistent()
    }

    /// Every well-formed contract holds a consistent ledger: balances are
    /// never negative and sum to the total supply, and the balances of each
    /// token id sum to that id's supply.
    pub proof fn wf_is_consistent(&self)
        requires
            self.wf(),
        ensures
            self@.consistent(),
    {
    }

    /// Rebuilds a contract from its stored parts; answers `None` exactly when
    /// the parts do not form a consistent ledger (see [`TokenState::consistent`]).
    pub fn from_parts(
        admin: Option<Address>,
        decimals: Option<u32>,
        name: Option<String>,
        symbol: Option<String>,
        total_supply: i128,
        balances: Table<Address, i128>,
        allowances: Table<(Address, Address), i128>,
        sft_balances: Table<(Address, u64), i128>,
        sft_supply: Table<u64, i128>,
        token_uris: Table<u64, String>,
    ) -> (r: Option<TokenContract>)
        requires
            balances.wf(),
            allowances.wf(),
            sft_balances.wf(),
            sft_supply.wf(),
            token_uris.wf(),
        ensures
            ({
                let s = TokenState {
                    admin: address_view(admin),
                    decimals,
                    name: string_view(name),
                    symbol: string_view(symbol),
                    total_supply,
                    balances: balances.map(),
                    allowances: allowances.map(),
                    sft_balances: sft_balances.map(),
                    sft_supply: sft_supply.map(),
                    token_uris: uris_view(token_uris.map()),
                };
                match r {
                    Some(c) => c.wf() && c@ == s,
                    None => !s.consistent(),
                }
            }),
    {
        proof {
            balances.lemma_finite();
            sft_balances.lemma_finite();
        }
        match nonnegative_total(&balances) {
            Some(sum) => {
                if sum != total_supply {
                    return None;
                }
            },
            None => {
                return None;
            },
        }
        let no_admin = match &admin {
            Some(_) => false,
            None => true,
        };
        if no_admin && total_supply != 0 {
            return None;
        }
        if !all_values_nonnegative(&allowances) {
            return None;
        }
        match id_totals(&sft_balances) {
            Some(totals) => {
                if !same_amounts(&totals, &sft_supply) {
                    proof {
                        let k = choose|k: u64|
                            amount_of(totals.map(), k) != amount_of(sft_supply.map(), k);
                        assert(sum_where(sft_balances.map(), of_id(k)) == amount_of(totals.map(), k));
                    }
                    return None;
                }
            },
            None => {
                return None;
            },
        }
        let c = TokenContract {
            admin: admin,
            decimals,
            name,
            symbol,
            total_supply,
            balances,
            allowances,
            sft_balances,
            sft_supply,
            token_uris,
        };
        Some(c)
    }

    /// The stored number of decimals, if any.
    pub fn stored_decimals(&self) -> (r: Option<u32>)
        ensures
            r == self@.decimals,
    {
        self.decimals
    }

    /// The table of fungible balances.
    pub fn balances_table(&self) -> (t: &Table<Address, i128>)
        requires
            self.wf(),
        ensures
            t.wf(),
            t.map() == self@.balances,
    {
        &self.balances
    }

    /// The table of allowances, keyed by owner and spender.
    pub fn allowances_table(&self) -> (t: &Table<(Address, Address), i128>)
        requires
            self.wf(),
        ensures
            t.wf(),
            t.map() == self@.allowances,
    {
        &self.allowances
    }

    /// The table of semi-fungible balances, keyed by account and token id.
    pub fn sft_balances_table(&self) -> (t: &Table<(Address, u64), i128>)
        requires
            self.wf(),
        ensures
            t.wf(),
            t.map() == self@.sft_balances,
    {
        &self.sft_balances
    }

    /// The table of per-id supplies.
    pub fn sft_supply_table(&self) -> (t: &Table<u64, i128>)
        requires
            self.wf(),
        ensures
            t.wf(),
            t.map() == self@.sft_supply,
    {
        &self.sft_supply
    }

    /// The table of metadata URIs.
    pub fn token_uris_table(&self) -> (t: &Table<u64, String>)
        requires
            self.wf(),
        ensures
            t.wf(),
            uris_view(t.map()) == self@.token_uris,
    {
        &self.token_uris
    }

    /// A contract with empty storage.
    pub fn new() -> (c: TokenContract)
        ensures
            c.wf(),
            c@ == TokenState::empty(),
    {
        let c = TokenContract {
            admin: None,
            decimals: None,
            name: None,
            symbol: None,
            total_supply: 0,
            balances: Table::new(),
            allowances: Table::new(),
            sft_balances: Table::new(),
            sft_supply: Table::new(),
            token_uris: Table::new(),
        };
        proof {
            empty_state_is_consistent();
            assert(c@ =~= TokenState::empty());
        }
        c
    }

    /// The administrator, once set; it must authorize `mint`, `sft_mint` and
    /// `set_token_uri`.
    pub fn admin(&self) -> (r: Option<&Address>)
        ensures
            match r {
                Some(a) => self@.admin == Some(a@),
                None => self@.admin is None,
            },
    {
        match &self.admin {
            Some(a) => Some(a),
            None => None,
        }
    }

    /// Sets the administrator, decimals, name and symbol; refused when an
    /// administrator is already set.
    pub fn initialize(&mut self, admin: Address, decimals: u32, name: String, symbol: String) -> (r:
        Result<(), TokenError>)
        requires
            old(self).wf(),
        ensures
            final(self).wf(),
            final(self)@ == old(self)@.initialize(admin@, decimals, name@, symbol@).0,
            r == old(self)@.initialize(admin@, decimals, name@, symbol@).1,
    {
        if self.admin.is_some() {
            return Err(TokenError::AlreadyInitialized);
        }
        proof {
            initialize_keeps_consistency(self@, admin@, decimals, name@, symbol@);
        }
        let ghost post = self@.initialize(admin@, decimals, name@, symbol@).0;
        self.admin = Some(admin);
        self.decimals = Some(decimals);
        self.name = Some(name);
        self.symbol = Some(symbol);
        self.total_supply = 0;
        assert(self@ =~= post);
        Ok(())
    }

    /// Mints a positive `amount` to `to`.
    pub fn mint(&mut self, to: &Address, amount: i128) -> (r: Result<(), TokenError>)
        requires
            old(self).wf(),
        ensures
            final(self).wf(),
            final(self)@ == old(self)@.mint(to@, amount).0,
            r == old(self)@.mint(to@, amount).1,
    {
        if amount <= 0 {
            return Err(TokenError::NonPositiveAmount);
        }
        if self.admin.is_none() {
            return Err(TokenError::NotInitialized);
        }
        let bal = read_amount(&self.balances, to);
        if bal > i128::MAX - amount || self.total_supply > i128::MAX - amount {
            return Err(TokenError::Overflow);
        }
        proof {
            mint_keeps_consistency(self@, to@, amount);
        }
        let ghost post = self@.mint(to@, amount).0;
        self.balances.insert(to.duplicate(), bal + amount);
        self.total_supply = self.total_supply + amount;
        assert(self@ =~= post);
        Ok(())
    }

    /// Moves a positive `amount` from `from` to `to`.
    pub fn transfer(&mut self, from: &Address, to: &Address, amount: i128) -> (r: Result<(), TokenError>)
        requires
            old(self).wf(),
        ensures
            final(self).wf(),
            final(self)@ == old(self)@.transfer(from@, to@, amount).0,
            r == old(self)@.transfer(from@, to@, amount).1,
    {
        proof {
            transfer_keeps_consistency(self@, from@, to@, amount);
        }
        let ghost post = self@.transfer(from@, to@, amount).0;
        match move_in_table(&mut self.balances, from, to, amount) {
            Ok(()) => {
                assert(self@ =~= post);
                Ok(())
            },
            Err(e) => {
                assert(self@ =~= post);
                Err(token_error_from(e))
            },
        }
    }

    /// Sets what `owner` allows `spender` to move to a non-negative `amount`.
    pub fn approve(&mut self, owner: &Address, spender: &Address, amount: i128) -> (r: Result<
        (),
        TokenError,
    >)
        requires
            old(self).wf(),
        ensures
            final(self).wf(),
            final(self)@ == old(self)@.approve(owner@, spender@, amount).0,
            r == old(self)@.approve(owner@, spender@, amount).1,
    {
        if amount < 0 {
            return Err(TokenError::NegativeAmount);
        }
        proof {
            approve_keeps_consistency(self@, owner@, spender@, amount);
        }
        let ghost post = self@.approve(owner@, spender@, amount).0;
        self.allowances.insert((owner.duplicate(), spender.duplicate()), amount);
        assert(self@ =~= post);
        Ok(())
    }

    /// `spender` moves a positive `amount` from `from` to `to` out of its allowance.
    pub fn transfer_from(&mut self, spender: &Address, from: &Address, to: &Address, amount: i128) -> (r:
        Result<(), TokenError>)
        requires
            old(self).wf(),
        ensures
            final(self).wf(),
            final(self)@ == old(self)@.transfer_from(spender@, from@, to@, amount).0,
            r == old(self)@.transfer_from(spender@, from@, to@, amount).1,
    {
        if amount <= 0 {
            return Err(TokenError::NonPositiveAmount);
        }
        let key = (from.duplicate(), spender.duplicate());
        let allowed = read_amount(&self.allowances, &key);
        if allowed < amount {
            return Err(TokenError::InsufficientAllowance);
        }
        proof {
            transfer_from_keeps_consistency(self@, spender@, from@, to@, amount);
        }
        let ghost post = self@.transfer_from(spender@, from@, to@, amount).0;
        match move_in_table(&mut self.balances, from, to, amount) {
            Ok(()) => {
                self.allowances.insert(key, allowed - amount);
                assert(self@ =~= post);
                Ok(())
            },
            Err(e) => {
                assert(self@ =~= post);
                Err(token_error_from(e))
            },
        }
    }

    /// Burns a positive `amount` held by `from`.
    pub fn burn(&mut self, from: &Address, amount: i128) -> (r: Result<(), TokenError>)
        requires
            old(self).wf(),
        ensures
            final(self).wf(),
            final(self)@ == old(self)@.burn(from@, amount).0,
            r == old(self)@.burn(from@, amount).1,
    {
        if amount <= 0 {
            return Err(TokenError::NonPositiveAmount);
        }
        let bal = read_amount(&self.balances, from);
        if bal < amount {
            return Err(TokenError::InsufficientBalance);
        }
        if self.total_supply < i128::MIN + amount {
            return Err(TokenError::Overflow);
        }
        proof {
            burn_keeps_consistency(self@, from@, amount);
        }
        let ghost post = self@.burn(from@, amount).0;
        self.balances.insert(from.duplicate(), bal - amount);
        self.total_supply = self.total_supply - amount;
        assert(self@ =~= post);
        Ok(())
    }

    /// The balance of `id` (zero when none is recorded).
    pub fn balance_of(&self, id: &Address) -> (r: i128)
        requires
            self.wf(),
        ensures
            r == self@.balance_of(id@),
    {
        read_amount(&self.balances, id)
    }

    /// What `owner` allows `spender` to move (zero when nothing is recorded).
    pub fn allowance(&self, owner: &Address, spender: &Address) -> (r: i128)
        requires
            self.wf(),
        ensures
            r == self@.allowance(owner@, spender@),
    {
        read_amount(&self.allowances, &(owner.duplicate(), spender.duplicate()))
    }

    /// The total supply of the fungible token.
    pub fn total_supply(&self) -> (r: i128)
        ensures
            r == self@.total_supply,
    {
        self.total_supply
    }

    /// The number of decimals (seven when none is recorded).
    pub fn decimals(&self) -> (r: u32)
        ensures
            r == self@.decimals_or_default(),
    {
        match self.decimals {
            Some(d) => d,
            None => 7,
        }
    }

    /// The token's name, once set.
    pub fn name(&self) -> (r: Option<String>)
        ensures
            string_view(r) == self@.name,
    {
        copy_string(&self.name)
    }

    /// The token's symbol, once set.
    pub fn symbol(&self) -> (r: Option<String>)
        ensures
            string_view(r) == self@.symbol,
    {
        copy_string(&self.symbol)
    }

    /// Mints a positive `amount` of `token_id` to `to`.
    pub fn sft_mint(&mut self, to: &Address, token_id: u64, amount: i128) -> (r: Result<(), TokenError>)
        requires
            old(self).wf(),
        ensures
            final(self).wf(),
            final(self)@ == old(self)@.sft_mint(to@, token_id, amount).0,
            r == old(self)@.sft_mint(to@, token_id, amount).1,
    {
        if amount <= 0 {
            return Err(TokenError::NonPositiveAmount);
        }
        if self.admin.is_none() {
            return Err(TokenError::NotInitialized);
        }
        let key = (to.duplicate(), token_id);
        let bal = read_amount(&self.sft_balances, &key);
        let supply = read_amount(&self.sft_supply, &token_id);
        if bal > i128::MAX - amount || supply > i128::MAX - amount {
            return Err(TokenError::Overflow);
        }
        proof {
            sft_mint_keeps_consistency(self@, to@, token_id, amount);
        }
        let ghost post = self@.sft_mint(to@, token_id, amount).0;
        self.sft_balances.insert(key, bal + amount);
        self.sft_supply.insert(token_id, supply + amount);
        assert(self@ =~= post);
        Ok(())
    }

    /// Burns a positive `amount` of `token_id` held by `from`.
    pub fn sft_burn(&mut self, from: &Address, token_id: u64, amount: i128) -> (r: Result<(), TokenError>)
        requires
            old(self).wf(),
        ensures
            final(self).wf(),
            final(self)@ == old(self)@.sft_burn(from@, token_id, amount).0,
            r == old(self)@.sft_burn(from@, token_id, amount).1,
    {
        if amount <= 0 {
            return Err(TokenError::NonPositiveAmount);
        }
        let key = (from.duplicate(), token_id);
        let bal = read_amount(&self.sft_balances, &key);
        if bal < amount {
            return Err(TokenError::InsufficientBalance);
        }
        let supply = read_amount(&self.sft_supply, &token_id);
        if supply < i128::MIN + amount {
            return Err(TokenError::Overflow);
        }
        proof {
            sft_burn_keeps_consistency(self@, from@, token_id, amount);
        }
        let ghost post = self@.sft_burn(from@, token_id, amount).0;
        self.sft_balances.insert(key, bal - amount);
        self.sft_supply.insert(token_id, supply - amount);
        assert(self@ =~= post);
        Ok(())
    }

    /// Moves a positive `amount` of `token_id` from `from` to `to`.
    pub fn sft_transfer(&mut self, from: &Address, to: &Address, token_id: u64, amount: i128) -> (r:
        Result<(), TokenError>)
        requires
            old(self).wf(),
        ensures
            final(self).wf(),
            final(self)@ == old(self)@.sft_transfer(from@, to@, token_id, amount).0,
            r == old(self)@.sft_transfer(from@, to@, token_id, amount).1,
    {
        proof {
            sft_transfer_keeps_consistency(self@, from@, to@, token_id, amount);
        }
        let ghost post = self@.sft_transfer(from@, to@, token_id, amount).0;
        let from_key = (from.duplicate(), token_id);
        let to_key = (to.duplicate(), token_id);
        match move_in_table(&mut self.sft_balances, &from_key, &to_key, amount) {
            Ok(()) => {
                assert(self@ =~= post);
                Ok(())
            },
            Err(e) => {
                assert(self@ =~= post);
                Err(token_error_from(e))
            },
        }
    }

    /// Moves several amounts of several token ids from `from` to `to`, one
    /// item after the other; refused as a whole when any item is refused.
    pub fn batch_transfer(
        &mut self,
        from: &Address,
        to: &Address,
        token_ids: &Vec<u64>,
        amounts: &Vec<i128>,
    ) -> (r: Result<(), TokenError>)
        requires
            old(self).wf(),
        ensures
            final(self).wf(),
            final(self)@ == old(self)@.batch_transfer(from@, to@, token_ids@, amounts@).0,
            r == old(self)@.batch_transfer(from@, to@, token_ids@, amounts@).1,
    {
        let n = token_ids.len();
        if n == 0 {
            return Err(TokenError::EmptyBatch);
        }
        if amounts.len() != n {
            return Err(TokenError::LengthMismatch);
        }
        proof {
            batch_transfer_keeps_consistency(self@, from@, to@, token_ids@, amounts@);
        }
        let ghost start = self.sft_balances.map();
        let ghost post = self@.batch_transfer(from@, to@, token_ids@, amounts@).0;
        let mut work = self.sft_balances.duplicate();
        let mut i: usize = 0;
        while i < n
            invariant
                n == token_ids@.len(),
                n == amounts@.len(),
                i <= n,
                work.wf(),
                self.wf(),
                self@ == old(self)@,
                start == old(self)@.sft_balances,
                post == old(self)@.batch_transfer(from@, to@, token_ids@, amounts@).0,
                batch_prefix(start, from@, to@, token_ids@, amounts@, i as nat) == Ok::<
                    Map<(Seq<u8>, u64), i128>,
                    MoveFailure,
                >(work.map()),
            decreases n - i,
        {
            let from_key = (from.duplicate(), token_ids[i]);
            let to_key = (to.duplicate(), token_ids[i]);
            match move_in_table(&mut work, &from_key, &to_key, amounts[i]) {
                Ok(()) => {},
                Err(e) => {
                    proof {
                        lemma_batch_refusal_sticks(
                            start,
                            from@,
                            to@,
                            token_ids@,
                            amounts@,
                            (i + 1) as nat,
                            n as nat,
                        );
                    }
                    return Err(token_error_from(e));
                },
            }
            i = i + 1;
        }
        self.sft_balances = work;
        assert(self@ =~= post);
        Ok(())
    }

    /// Records the metadata URI of `token_id`.
    pub fn set_token_uri(&mut self, token_id: u64, uri: String) -> (r: Result<(), TokenError>)
        requires
            old(self).wf(),
        ensures
            final(self).wf(),
            final(self)@ == old(self)@.set_token_uri(token_id, uri@).0,
            r == old(self)@.set_token_uri(token_id, uri@).1,
    {
        if self.admin.is_none() {
            return Err(TokenError::NotInitialized);
        }
        proof {
            set_token_uri_keeps_consistency(self@, token_id, uri@);
        }
        let ghost post = self@.set_token_uri(token_id, uri@).0;
        self.token_uris.insert(token_id, uri);
        assert(self@.token_uris =~= post.token_uris);
        assert(self@ =~= post);
        Ok(())
    }

    /// The metadata URI of `token_id` (empty when none is recorded).
    pub fn token_uri(&self, token_id: u64) -> (r: String)
        requires
            self.wf(),
        ensures
            r@ == self@.token_uri(token_id),
    {
        match self.token_uris.get(&token_id) {
            Some(u) => u.clone(),
            None => String::new(),
        }
    }

    /// The balance of `account` in `token_id` (zero when none is recorded).
    pub fn sft_balance_of(&self, account: &Address, token_id: u64) -> (r: i128)
        requires
            self.wf(),
        ensures
            r == self@.sft_balance_of(account@, token_id),
    {
        read_amount(&self.sft_balances, &(account.duplicate(), token_id))
    }

    /// The total supply of `token_id` (zero when none is recorded).
    pub fn sft_total_supply(&self, token_id: u64) -> (r: i128)
        requires
            self.wf(),
        ensures
            r == self@.sft_total_supply(token_id),
    {
        read_amount(&self.sft_supply, &token_id)
    }
}

} // verus!
