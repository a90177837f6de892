use vstd::prelude::*;

use crate::ledger::{amount_of, lemma_move_keeps_sum, move_amount};
use crate::sums::{every_key, lemma_sum_empty, lemma_sum_insert, sum_where};
use crate::token::{batch_prefix, of_id, TokenError, TokenState};

verus! {

/// Nothing is in circulation before `initialize`: the empty state is consistent.
pub proof fn empty_state_is_consistent()
    ensures
        TokenState::empty().consistent(),
{
    let s = TokenState::empty();
    lemma_sum_empty::<Seq<u8>>(every_key());
    assert forall|t: u64| #[trigger]
        sum_where(s.sft_balances, of_id(t)) == amount_of(s.sft_supply, t) by {
        lemma_sum_empty::<(Seq<u8>, u64)>(of_id(t));
    }
}

/// `initialize` keeps the ledger consistent.
pub proof fn initialize_keeps_consistency(
    s: TokenState,
    admin: Seq<u8>,
    decimals: u32,
    name: Seq<char>,
    symbol: Seq<char>,
)
    requires
        s.consistent(),
    ensures
        s.initialize(admin, decimals, name, symbol).0.consistent(),
{
}

/// `mint` keeps the ledger consistent: the new tokens enter both the
/// recipient's balance and the total supply.
pub proof fn mint_keeps_consistency(s: TokenState, to: Seq<u8>, amount: i128)
    requires
        s.consistent(),
    ensures
        s.mint(to, amount).0.consistent(),
{
    if s.mint(to, amount).1 is Ok {
        lemma_sum_insert(s.balances, every_key(), to, (s.balance_of(to) + amount) as i128);
    }
}

/// `burn` keeps the ledger consistent: the burnt tokens leave both the
/// holder's balance and the total supply.
pub proof fn burn_keeps_consistency(s: TokenState, from: Seq<u8>, amount: i128)
    requires
        s.consistent(),
    ensures
        s.burn(from, amount).0.consistent(),
{
    crate::sums::lemma_entry_bounded(s.balances, every_key(), from);
    if s.burn(from, amount).1 is Ok {
        lemma_sum_insert(s.balances, every_key(), from, (s.balance_of(from) - amount) as i128);
    }
}

/// `transfer` keeps the ledger consistent.
pub proof fn transfer_keeps_consistency(s: TokenState, from: Seq<u8>, to: Seq<u8>, amount: i128)
    requires
        s.consistent(),
    ensures
        s.transfer(from, to, amount).0.consistent(),
{
    if move_amount(s.balances, from, to, amount) is Ok {
        lemma_move_keeps_sum(s.balances, every_key(), from, to, amount);
    }
}

/// `approve` keeps the ledger consistent.
pub proof fn approve_keeps_consistency(
    s: TokenState,
    owner: Seq<u8>,
    spender: Seq<u8>,
    amount: i128,
)
    requires
        s.consistent(),
    ensures
        s.approve(owner, spender, amount).0.consistent(),
{
}

/// `transfer_from` keeps the ledger consistent.
pub proof fn transfer_from_keeps_consistency(
    s: TokenState,
    spender: Seq<u8>,
    from: Seq<u8>,
    to: Seq<u8>,
    amount: i128,
)
    requires
        s.consistent(),
    ensures
        s.transfer_from(spender, from, to, amount).0.consistent(),
{
    if move_amount(s.balances, from, to, amount) is Ok {
        lemma_move_keeps_sum(s.balances, every_key(), from, to, amount);
    }
}

/// `sft_mint` keeps the ledger consistent: the new tokens enter both the
/// recipient's balance and the supply of their token id.
pub proof fn sft_mint_keeps_consistency(s: TokenState, to: Seq<u8>, token_id: u64, amount: i128)
    requires
        s.consistent(),
    ensures
        s.sft_mint(to, token_id, amount).0.consistent(),
{
    if s.sft_mint(to, token_id, amount).1 is Ok {
        let v = (s.sft_balance_of(to, token_id) + amount) as i128;
        let post = s.sft_mint(to, token_id, amount).0;
        assert forall|t: u64| #[trigger]
            sum_where(post.sft_balances, of_id(t)) == amount_of(post.sft_supply, t) by {
            lemma_sum_insert(s.sft_balances, of_id(t), (to, token_id), v);
            assert(sum_where(s.sft_balances, of_id(t)) == amount_of(s.sft_supply, t));
        }
    }
}

/// `sft_burn` keeps the ledger consistent.
pub proof fn sft_burn_keeps_consistency(s: TokenState, from: Seq<u8>, token_id: u64, amount: i128)
    requires
        s.consistent(),
    ensures
        s.sft_burn(from, token_id, amount).0.consistent(),
{
    if s.sft_burn(from, token_id, amount).1 is Ok {
        let v = (s.sft_balance_of(from, token_id) - amount) as i128;
        let post = s.sft_burn(from, token_id, amount).0;
        assert forall|t: u64| #[trigger]
            sum_where(post.sft_balances, of_id(t)) == amount_of(post.sft_supply, t) by {
            lemma_sum_insert(s.sft_balances, of_id(t), (from, token_id), v);
            assert(sum_where(s.sft_balances, of_id(t)) == amount_of(s.sft_supply, t));
        }
    }
}

proof fn lemma_sft_move_keeps_sums(
    m: Map<(Seq<u8>, u64), i128>,
    from: (Seq<u8>, u64),
    to: (Seq<u8>, u64),
    amount: i128,
)
    requires
        m.dom().finite(),
        all_nonnegative_sft(m),
        from.1 == to.1,
        move_amount(m, from, to, amount) is Ok,
    ensures
        match move_amount(m, from, to, amount) {
            Ok(m2) => {
                &&& m2.dom().finite()
                &&& all_nonnegative_sft(m2)
                &&& forall|t: u64| #[trigger] sum_where(m2, of_id(t)) == sum_where(m, of_id(t))
            },
            Err(_) => false,
        },
{
    lemma_move_keeps_sum(m, every_key(), from, to, amount);
    assert forall|t: u64| #[trigger]
        sum_where(move_amount(m, from, to, amount)->Ok_0, of_id(t)) == sum_where(m, of_id(t)) by {
        lemma_move_keeps_sum(m, of_id(t), from, to, amount);
    }
}

spec fn all_nonnegative_sft(m: Map<(Seq<u8>, u64), i128>) -> bool {
    crate::sums::all_nonnegative(m)
}

/// `sft_transfer` keeps the ledger consistent.
pub proof fn sft_transfer_keeps_consistency(
    s: TokenState,
    from: Seq<u8>,
    to: Seq<u8>,
    token_id: u64,
    amount: i128,
)
    requires
        s.consistent(),
    ensures
        s.sft_transfer(from, to, token_id, amount).0.consistent(),
{
    if move_amount(s.sft_balances, (from, token_id), (to, token_id), amount) is Ok {
        lemma_sft_move_keeps_sums(s.sft_balances, (from, token_id), (to, token_id), amount);
        let post = s.sft_transfer(from, to, token_id, amount).0;
        assert forall|t: u64| #[trigger]
            sum_where(post.sft_balances, of_id(t)) == amount_of(post.sft_supply, t) by {
            assert(sum_where(s.sft_balances, of_id(t)) == amount_of(s.sft_supply, t));
        }
    }
}

proof fn lemma_batch_prefix_keeps_sums(
    m: Map<(Seq<u8>, u64), i128>,
    from: Seq<u8>,
    to: Seq<u8>,
    ids: Seq<u64>,
    amounts: Seq<i128>,
    n: nat,
)
    requires
        m.dom().finite(),
        all_nonnegative_sft(m),
        n <= ids.len(),
        n <= amounts.len(),
    ensures
        match batch_prefix(m, from, to, ids, amounts, n) {
            Ok(m2) => {
                &&& m2.dom().finite()
                &&& all_nonnegative_sft(m2)
                &&& forall|t: u64| #[trigger] sum_where(m2, of_id(t)) == sum_where(m, of_id(t))
            },
            Err(_) => true,
        },
    decreases n,
{
    if n > 0 {
        lemma_batch_prefix_keeps_sums(m, from, to, ids, amounts, (n - 1) as nat);
        match batch_prefix(m, from, to, ids, amounts, (n - 1) as nat) {
            Ok(m1) => {
                let k = n - 1;
                if move_amount(m1, (from, ids[k]), (to, ids[k]), amounts[k]) is Ok {
                    lemma_sft_move_keeps_sums(m1, (from, ids[k]), (to, ids[k]), amounts[k]);
                    let m2 = move_amount(m1, (from, ids[k]), (to, ids[k]), amounts[k])->Ok_0;
                    assert forall|t: u64| #[trigger]
                        sum_where(m2, of_id(t)) == sum_where(m, of_id(t)) by {
                        assert(sum_where(m1, of_id(t)) == sum_where(m, of_id(t)));
                    }
                }
            },
            Err(_) => {},
        }
    }
}

/// `batch_transfer` keeps the ledger consistent.
pub proof fn batch_transfer_keeps_consistency(
    s: TokenState,
    from: Seq<u8>,
    to: Seq<u8>,
    token_ids: Seq<u64>,
    amounts: Seq<i128>,
)
    requires
        s.consistent(),
    ensures
        s.batch_transfer(from, to, token_ids, amounts).0.consistent(),
{
    if token_ids.len() != 0 && amounts.len() == token_ids.len() {
        lemma_batch_prefix_keeps_sums(s.sft_balances, from, to, token_ids, amounts, token_ids.len());
        let post = s.batch_transfer(from, to, token_ids, amounts).0;
        assert forall|t: u64| #[trigger]
            sum_where(post.sft_balances, of_id(t)) == amount_of(post.sft_supply, t) by {
            assert(sum_where(s.sft_balances, of_id(t)) == amount_of(s.sft_supply, t));
        }
    }
}

/// `set_token_uri` keeps the ledger consistent.
pub proof fn set_token_uri_keeps_consistency(s: TokenState, token_id: u64, uri: Seq<char>)
    requires
        s.consistent(),
    ensures
        s.set_token_uri(token_id, uri).0.consistent(),
{
}

/// A successful `transfer` between two different accounts lowers the
/// sender's balance and raises the receiver's by exactly the amount, so their
/// sum is unchanged; every other balance and the total supply stay as they were.
pub proof fn transfer_moves_exactly_the_amount(s: TokenState, from: Seq<u8>, to: Seq<u8>, amount: i128)
    requires
        s.transfer(from, to, amount).1 is Ok,
        from != to,
    ensures
        s.transfer(from, to, amount).0.balance_of(from) == s.balance_of(from) - amount,
        s.transfer(from, to, amount).0.balance_of(to) == s.balance_of(to) + amount,
        s.transfer(from, to, amount).0.balance_of(from) + s.transfer(from, to, amount).0.balance_of(to)
            == s.balance_of(from) + s.balance_of(to),
        forall|a: Seq<u8>|
            a != from && a != to ==> #[trigger] s.transfer(from, to, amount).0.balance_of(a)
                == s.balance_of(a),
        s.transfer(from, to, amount).0.total_supply == s.total_supply,
{
}

/// A transfer to oneself changes no balance.
pub proof fn self_transfer_changes_nothing(s: TokenState, a: Seq<u8>, amount: i128)
    requires
        s.transfer(a, a, amount).1 is Ok,
    ensures
        forall|b: Seq<u8>| #[trigger] s.transfer(a, a, amount).0.balance_of(b) == s.balance_of(b),
{
}

/// No account can send more than it holds, directly or through an allowance:
/// such a call is refused and changes nothing.
pub proof fn no_spending_beyond_balance(
    s: TokenState,
    spender: Seq<u8>,
    from: Seq<u8>,
    to: Seq<u8>,
    amount: i128,
)
    requires
        s.consistent(),
        s.balance_of(from) < amount,
    ensures
        s.transfer(from, to, amount) == (s, Err::<(), TokenError>(TokenError::InsufficientBalance)),
        s.transfer_from(spender, from, to, amount).1 is Err,
        s.transfer_from(spender, from, to, amount).0 == s,
        s.burn(from, amount) == (s, Err::<(), TokenError>(TokenError::InsufficientBalance)),
{
}

/// A spender can never move more than its allowance: such a call is refused
/// and changes nothing.
pub proof fn no_spending_beyond_allowance(
    s: TokenState,
    spender: Seq<u8>,
    from: Seq<u8>,
    to: Seq<u8>,
    amount: i128,
)
    requires
        amount > 0,
        s.allowance(from, spender) < amount,
    ensures
        s.transfer_from(spender, from, to, amount) == (s, Err::<(), TokenError>(
            TokenError::InsufficientAllowance,
        )),
{
}

/// A successful `transfer_from` lowers the spender's allowance by exactly the
/// amount and moves the amount from `from` to `to`.
pub proof fn transfer_from_spends_the_allowance(
    s: TokenState,
    spender: Seq<u8>,
    from: Seq<u8>,
    to: Seq<u8>,
    amount: i128,
)
    requires
        s.transfer_from(spender, from, to, amount).1 is Ok,
    ensures
        s.transfer_from(spender, from, to, amount).0.allowance(from, spender) == s.allowance(
            from,
            spender,
        ) - amount,
        s.transfer_from(spender, from, to, amount).0.balances == s.transfer(
            from,
            to,
            amount,
        ).0.balances,
        s.transfer(from, to, amount).1 is Ok,
        s.transfer_from(spender, from, to, amount).0.total_supply == s.total_supply,
{
}

/// `approve` replaces the allowance rather than adding to it.
pub proof fn approve_overwrites(s: TokenState, owner: Seq<u8>, spender: Seq<u8>, amount: i128)
    requires
        amount >= 0,
    ensures
        s.approve(owner, spender, amount).1 is Ok,
        s.approve(owner, spender, amount).0.allowance(owner, spender) == amount,
{
}

/// Zero and negative amounts are refused by every operation that moves,
/// creates or destroys tokens.
pub proof fn non_positive_amounts_are_refused(
    s: TokenState,
    a: Seq<u8>,
    b: Seq<u8>,
    c: Seq<u8>,
    token_id: u64,
    amount: i128,
)
    requires
        amount <= 0,
    ensures
        s.mint(a, amount) == (s, Err::<(), TokenError>(TokenError::NonPositiveAmount)),
        s.burn(a, amount) == (s, Err::<(), TokenError>(TokenError::NonPositiveAmount)),
        s.transfer(a, b, amount) == (s, Err::<(), TokenError>(TokenError::NonPositiveAmount)),
        s.transfer_from(a, b, c, amount) == (s, Err::<(), TokenError>(TokenError::NonPositiveAmount)),
        s.sft_mint(a, token_id, amount) == (s, Err::<(), TokenError>(TokenError::NonPositiveAmount)),
        s.sft_burn(a, token_id, amount) == (s, Err::<(), TokenError>(TokenError::NonPositiveAmount)),
        s.sft_transfer(a, b, token_id, amount) == (s, Err::<(), TokenError>(
            TokenError::NonPositiveAmount,
        )),
{
}

/// The total supply changes only through `mint` (up by the amount) and `burn`
/// (down by the amount); transfers, approvals, the semi-fungible operations
/// and metadata leave it as it was.
pub proof fn supply_changes_only_by_mint_and_burn(
    s: TokenState,
    a: Seq<u8>,
    b: Seq<u8>,
    c: Seq<u8>,
    token_id: u64,
    token_ids: Seq<u64>,
    amounts: Seq<i128>,
    uri: Seq<char>,
    amount: i128,
)
    ensures
        s.transfer(a, b, amount).0.total_supply == s.total_supply,
        s.approve(a, b, amount).0.total_supply == s.total_supply,
        s.transfer_from(a, b, c, amount).0.total_supply == s.total_supply,
        s.sft_mint(a, token_id, amount).0.total_supply == s.total_supply,
        s.sft_burn(a, token_id, amount).0.total_supply == s.total_supply,
        s.sft_transfer(a, b, token_id, amount).0.total_supply == s.total_supply,
        s.batch_transfer(a, b, token_ids, amounts).0.total_supply == s.total_supply,
        s.set_token_uri(token_id, uri).0.total_supply == s.total_supply,
        s.mint(a, amount).1 is Ok ==> s.mint(a, amount).0.total_supply == s.total_supply + amount,
        s.burn(a, amount).1 is Ok ==> s.burn(a, amount).0.total_supply == s.total_supply - amount,
{
}

/// Minting an amount and then burning the same amount from the same account
/// succeeds and restores every balance and the total supply.
pub proof fn mint_then_burn_restores(s: TokenState, a: Seq<u8>, amount: i128)
    requires
        s.consistent(),
        s.mint(a, amount).1 is Ok,
    ensures
        s.mint(a, amount).0.burn(a, amount).1 is Ok,
        s.mint(a, amount).0.burn(a, amount).0.total_supply == s.total_supply,
        forall|b: Seq<u8>| #[trigger]
            s.mint(a, amount).0.burn(a, amount).0.balance_of(b) == s.balance_of(b),
{
    let m = s.mint(a, amount).0;
    assert(m.balance_of(a) == s.balance_of(a) + amount);
    let t = m.burn(a, amount).0;
    assert(t.balance_of(a) == s.balance_of(a));
    assert forall|b: Seq<u8>| #[trigger] t.balance_of(b) == s.balance_of(b) by {
        if b != a {
            assert(m.balance_of(b) == s.balance_of(b));
        }
    }
}

/// Transferring an amount and then transferring it back succeeds and
/// restores every balance.
pub proof fn transfer_then_back_restores(s: TokenState, a: Seq<u8>, b: Seq<u8>, amount: i128)
    requires
        s.consistent(),
        s.transfer(a, b, amount).1 is Ok,
    ensures
        s.transfer(a, b, amount).0.transfer(b, a, amount).1 is Ok,
        forall|c: Seq<u8>| #[trigger]
            s.transfer(a, b, amount).0.transfer(b, a, amount).0.balance_of(c) == s.balance_of(c),
{
    let m = s.transfer(a, b, amount).0;
    if a == b {
        assert(m.balance_of(a) == s.balance_of(a));
        assert(m.transfer(b, a, amount).0.balance_of(a) == s.balance_of(a));
        assert forall|c: Seq<u8>| #[trigger] m.transfer(b, a, amount).0.balance_of(c) == s.balance_of(c) by {
            if c != a {
                assert(m.balance_of(c) == s.balance_of(c));
            }
        }
    } else {
        assert(m.balance_of(a) == s.balance_of(a) - amount);
        assert(m.balance_of(b) == s.balance_of(b) + amount);
        let t = m.transfer(b, a, amount).0;
        assert(t.balance_of(b) == s.balance_of(b));
        assert(t.balance_of(a) == s.balance_of(a));
        assert forall|c: Seq<u8>| #[trigger] t.balance_of(c) == s.balance_of(c) by {
            if c != a && c != b {
                assert(m.balance_of(c) == s.balance_of(c));
            }
        }
    }
}

/// Operations on one token id leave every other id's balances and supply
/// as they were.
pub proof fn token_ids_are_isolated(
    s: TokenState,
    a: Seq<u8>,
    b: Seq<u8>,
    holder: Seq<u8>,
    token_id: u64,
    other: u64,
    amount: i128,
)
    requires
        token_id != other,
    ensures
        s.sft_mint(a, token_id, amount).0.sft_total_supply(other) == s.sft_total_supply(other),
        s.sft_burn(a, token_id, amount).0.sft_total_supply(other) == s.sft_total_supply(other),
        s.sft_transfer(a, b, token_id, amount).0.sft_total_supply(other) == s.sft_total_supply(other),
        s.sft_mint(a, token_id, amount).0.sft_balance_of(holder, other) == s.sft_balance_of(holder, other),
        s.sft_burn(a, token_id, amount).0.sft_balance_of(holder, other) == s.sft_balance_of(holder, other),
        s.sft_transfer(a, b, token_id, amount).0.sft_balance_of(holder, other) == s.sft_balance_of(
            holder,
            other,
        ),
{
}

/// Minting an amount of a token id and then burning it again succeeds and
/// restores that id's supply and every balance of it.
pub proof fn sft_mint_then_burn_restores(s: TokenState, a: Seq<u8>, token_id: u64, amount: i128)
    requires
        s.consistent(),
        s.sft_mint(a, token_id, amount).1 is Ok,
    ensures
        s.sft_mint(a, token_id, amount).0.sft_burn(a, token_id, amount).1 is Ok,
        s.sft_mint(a, token_id, amount).0.sft_burn(a, token_id, amount).0.sft_total_supply(token_id)
            == s.sft_total_supply(token_id),
        forall|b: Seq<u8>, t: u64| #[trigger]
            s.sft_mint(a, token_id, amount).0.sft_burn(a, token_id, amount).0.sft_balance_of(b, t)
                == s.sft_balance_of(b, t),
{
    let m = s.sft_mint(a, token_id, amount).0;
    assert(m.sft_balance_of(a, token_id) == s.sft_balance_of(a, token_id) + amount);
    assert(m.sft_total_supply(token_id) == s.sft_total_supply(token_id) + amount);
    let u = m.sft_burn(a, token_id, amount).0;
    assert(u.sft_total_supply(token_id) == s.sft_total_supply(token_id));
    assert forall|b: Seq<u8>, t: u64| #[trigger] u.sft_balance_of(b, t) == s.sft_balance_of(b, t) by {
        if (b, t) != (a, token_id) {
            assert(m.sft_balance_of(b, t) == s.sft_balance_of(b, t));
        }
    }
}

/// The fungible token and the semi-fungible tokens do not affect each other:
/// semi-fungible operations keep every fungible balance and the total supply,
/// and fungible operations keep every semi-fungible balance and supply.
pub proof fn fungible_and_semi_fungible_are_isolated(
    s: TokenState,
    a: Seq<u8>,
    b: Seq<u8>,
    c: Seq<u8>,
    token_id: u64,
    token_ids: Seq<u64>,
    amounts: Seq<i128>,
    amount: i128,
)
    ensures
        s.sft_mint(a, token_id, amount).0.balances == s.balances,
        s.sft_burn(a, token_id, amount).0.balances == s.balances,
        s.sft_transfer(a, b, token_id, amount).0.balances == s.balances,
        s.batch_transfer(a, b, token_ids, amounts).0.balances == s.balances,
        s.mint(a, amount).0.sft_balances == s.sft_balances,
        s.mint(a, amount).0.sft_supply == s.sft_supply,
        s.burn(a, amount).0.sft_balances == s.sft_balances,
        s.burn(a, amount).0.sft_supply == s.sft_supply,
        s.transfer(a, b, amount).0.sft_balances == s.sft_balances,
        s.transfer_from(a, b, c, amount).0.sft_balances == s.sft_balances,
{
}

/// A batch transfer never changes the supply of any token id.
pub proof fn batch_transfer_keeps_supplies(
    s: TokenState,
    from: Seq<u8>,
    to: Seq<u8>,
    token_ids: Seq<u64>,
    amounts: Seq<i128>,
)
    ensures
        s.batch_transfer(from, to, token_ids, amounts).0.sft_supply == s.sft_supply,
{
}

/// A recorded metadata URI is read back as written, and recording one id's
/// URI leaves every other id's URI as it was.
pub proof fn token_uri_reads_back(s: TokenState, token_id: u64, other: u64, uri: Seq<char>)
    requires
        s.admin is Some,
        token_id != other,
    ensures
        s.set_token_uri(token_id, uri).1 is Ok,
        s.set_token_uri(token_id, uri).0.token_uri(token_id) == uri,
        s.set_token_uri(token_id, uri).0.token_uri(other) == s.token_uri(other),
{
}

/// A token is initialized at most once: after a successful `initialize`,
/// another `initialize` is refused and changes nothing.
pub proof fn initialize_only_once(
    s: TokenState,
    admin: Seq<u8>,
    decimals: u32,
    name: Seq<char>,
    symbol: Seq<char>,
    admin2: Seq<u8>,
    decimals2: u32,
    name2: Seq<char>,
    symbol2: Seq<char>,
)
    requires
        s.initialize(admin, decimals, name, symbol).1 is Ok,
    ensures
        ({
            let t = s.initialize(admin, decimals, name, symbol).0;
            t.initialize(admin2, decimals2, name2, symbol2) == (t, Err::<(), TokenError>(
                TokenError::AlreadyInitialized,
            ))
        }),
{
}

/// Spending within the allowance and the balance succeeds: when `amount` is
/// positive, at most what `from` allows `spender`, at most `from`'s balance,
/// and the receiver's balance can take it, `transfer_from` succeeds. The
/// allowance is then lower by exactly the amount (spending all of it leaves
/// zero), `from` holds the amount less and `to` the amount more (for
/// distinct accounts; a transfer to oneself leaves the balance), and the
/// total supply is unchanged.
pub proof fn transfer_from_succeeds_within_allowance(
    s: TokenState,
    spender: Seq<u8>,
    from: Seq<u8>,
    to: Seq<u8>,
    amount: i128,
)
    requires
        0 < amount,
        amount <= s.allowance(from, spender),
        amount <= s.balance_of(from),
        from != to ==> s.balance_of(to) + amount <= i128::MAX,
    ensures
        ({
            let (t, r) = s.transfer_from(spender, from, to, amount);
            &&& r == Ok::<(), TokenError>(())
            &&& t.allowance(from, spender) == s.allowance(from, spender) - amount
            &&& from != to ==> t.balance_of(from) == s.balance_of(from) - amount
                && t.balance_of(to) == s.balance_of(to) + amount
            &&& from == to ==> t.balance_of(from) == s.balance_of(from)
            &&& t.total_supply == s.total_supply
        }),
{
}

/// Moving a balance of one token id within what the sender holds succeeds:
/// when `amount` is positive, at most `from`'s balance of `token_id`, and the
/// receiver's balance of it can take it, `sft_transfer` succeeds (moving the
/// whole balance included). `from` then holds the amount less of the id and
/// `to` the amount more (for distinct accounts; a transfer to oneself leaves
/// the balance), and the id's supply is unchanged.
pub proof fn sft_transfer_succeeds_within_balance(
    s: TokenState,
    from: Seq<u8>,
    to: Seq<u8>,
    token_id: u64,
    amount: i128,
)
    requires
        0 < amount,
        amount <= s.sft_balance_of(from, token_id),
        from != to ==> s.sft_balance_of(to, token_id) + amount <= i128::MAX,
    ensures
        ({
            let (t, r) = s.sft_transfer(from, to, token_id, amount);
            &&& r == Ok::<(), TokenError>(())
            &&& from != to ==> t.sft_balance_of(from, token_id) == s.sft_balance_of(from, token_id)
                - amount && t.sft_balance_of(to, token_id) == s.sft_balance_of(to, token_id) + amount
            &&& from == to ==> t.sft_balance_of(from, token_id) == s.sft_balance_of(from, token_id)
            &&& t.sft_total_supply(token_id) == s.sft_total_supply(token_id)
        }),
{
}

} // verus!
