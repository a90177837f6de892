use vstd::prelude::*;

use crate::address::Address;
use crate::token::address_view;

verus! {

/// Why a flash-loan operation was refused. A refusal reverts the whole loan.
#[derive(Debug, Clone, Copy, PartialEq, Eq, Structural)]
pub enum FlashLoanError {
    /// `initialize` on a provider that already has an administrator.
    AlreadyInitialized,
    /// `set_registry` before `initialize`.
    NotInitialized,
    /// The fee or the expected balance does not fit in an `i128`.
    Overflow,
    /// The provider's balance after the loan is below its balance before the
    /// loan plus the fee.
    NotRepaid,
    /// The security registry reports the system as paused.
    SystemPaused,
    /// An event that does not answer the action a loan last asked for.
    OutOfOrder,
}

/// The stored configuration of a contract that consults the security
/// registry: its administrator and the registry's address.
pub struct GuardedConfig {
    pub admin: Option<Seq<u8>>,
    pub registry: Option<Seq<u8>>,
}

/// Integer division that rounds toward zero, as Rust's `/` does.
pub open spec fn div_toward_zero(a: int, d: int) -> int {
    if a >= 0 {
        a / d
    } else {
        -((-a) / d)
    }
}

/// The fee of a flash loan of `amount`: five basis points (0.05%), that is
/// `amount * 5 / 10000` rounded toward zero.
pub open spec fn loan_fee(amount: int) -> int {
    div_toward_zero(amount * 5, 10000)
}

/// The terms of one flash loan: the amount lent and the fee owed on top.
#[derive(Debug, Clone, Copy, PartialEq, Eq, Structural)]
pub struct LoanTerms {
    pub amount: i128,
    pub fee: i128,
}

/// The terms of a flash loan of `amount`; refused when `amount * 5` does
/// not fit in an `i128`.
pub fn loan_terms(amount: i128) -> (r: Result<LoanTerms, FlashLoanError>)
    ensures
        match r {
            Ok(t) => t.amount == amount && t.fee == loan_fee(amount as int) && i128::MIN <= amount * 5
                <= i128::MAX,
            Err(e) => e == FlashLoanError::Overflow && !(i128::MIN <= amount * 5 <= i128::MAX),
        },
{
    if amount > i128::MAX / 5 || amount < i128::MIN / 5 {
        return Err(FlashLoanError::Overflow);
    }
    let scaled = amount * 5;
    let fee = scaled / 10000;
    assert(fee == div_toward_zero(scaled as int, 10000));
    Ok(LoanTerms { amount, fee })
}

impl LoanTerms {
    /// Settles the loan from the provider's token balance before the loan and
    /// after the receiver has run: the loan stands only when the balance after
    /// is at least the balance before plus the fee.
    pub fn settle(&self, balance_before: i128, balance_after: i128) -> (r: Result<(), FlashLoanError>)
        ensures
            balance_before + self.fee > i128::MAX || balance_before + self.fee < i128::MIN ==> r
                == Err::<(), FlashLoanError>(FlashLoanError::Overflow),
            i128::MIN <= balance_before + self.fee <= i128::MAX ==> (r is Ok <==> balance_after
                >= balance_before + self.fee),
            i128::MIN <= balance_before + self.fee <= i128::MAX && r is Err ==> r == Err::<
                (),
                FlashLoanError,
            >(FlashLoanError::NotRepaid),
    {
        let fee = self.fee;
        if (fee > 0 && balance_before > i128::MAX - fee) || (fee < 0 && balance_before < i128::MIN
            - fee) {
            return Err(FlashLoanError::Overflow);
        }
        if balance_after < balance_before + fee {
            return Err(FlashLoanError::NotRepaid);
        }
        Ok(())
    }
}

/// A flash-loan provider: it lends any amount of a token to a receiver
/// contract for the span of one call and requires it back with a fee of five
/// basis points. The value holds the provider's storage; the token transfer,
/// the receiver's callback and the balance queries are calls into other
/// contracts made around [`loan_terms`] and [`LoanTerms::settle`].
pub struct FlashLoanProvider {
    admin: Option<Address>,
    registry: Option<Address>,
}

impl View for FlashLoanProvider {
    type V = GuardedConfig;

    closed spec fn view(&self) -> GuardedConfig {
        GuardedConfig { admin: address_view(self.admin), registry: address_view(self.registry) }
    }
}

impl FlashLoanProvider {
    /// Rebuilds the contract from its stored parts.
    pub fn from_parts(admin: Option<Address>, registry: Option<Address>) -> (r: FlashLoanProvider)
        ensures
            r@.admin == address_view(admin),
            r@.registry == address_view(registry),
    {
        FlashLoanProvider { admin, registry }
    }

    /// A provider with empty storage.
    pub fn new() -> (r: FlashLoanProvider)
        ensures
            r@.admin is None,
            r@.registry is None,
    {
        FlashLoanProvider { admin: None, registry: None }
    }

    /// Records the administrator; refused when one is already set.
    pub fn initialize(&mut self, admin: Address) -> (r: Result<(), FlashLoanError>)
        ensures
            old(self)@.admin is Some ==> r == Err::<(), FlashLoanError>(
                FlashLoanError::AlreadyInitialized,
            ) && final(self)@ == old(self)@,
            old(self)@.admin is None ==> r is Ok && final(self)@.admin == Some(admin@)
                && final(self)@.registry == old(self)@.registry,
    {
        if self.admin.is_some() {
            return Err(FlashLoanError::AlreadyInitialized);
        }
        self.admin = Some(admin);
        Ok(())
    }

    /// The administrator, once set; it must authorize `set_registry`.
    pub fn admin(&self) -> (r: Option<&Address>)
        ensures
            match r {
                Some(a) => self@.admin == Some(a@),
                None => self@.admin is None,
            },
    {
        match &self.admin {
            Some(a) => Some(a),
            None => None,
        }
    }

    /// Records the security registry to consult; needs an administrator.
    pub fn set_registry(&mut self, registry: Address) -> (r: Result<(), FlashLoanError>)
        ensures
            old(self)@.admin is None ==> r == Err::<(), FlashLoanError>(FlashLoanError::NotInitialized)
                && final(self)@ == old(self)@,
            old(self)@.admin is Some ==> r is Ok && final(self)@.registry == Some(registry@)
                && final(self)@.admin == old(self)@.admin,
    {
        if self.admin.is_none() {
            return Err(FlashLoanError::NotInitialized);
        }
        self.registry = Some(registry);
        Ok(())
    }

    /// The security registry to consult before a loan, if any.
    pub fn registry(&self) -> (r: &Option<Address>)
        ensures
            address_view(*r) == self@.registry,
    {
        &self.registry
    }

    /// Starts a flash loan of `amount` with this provider's configuration:
    /// the registry, when one is set, is asked first.
    pub fn begin_loan(&self, amount: i128) -> (r: (LoanRun, LoanAction))
        ensures
            r.0@.0 == amount,
            (r.0@.1, r.1) == loan_begin(self@.registry is Some, amount),
    {
        LoanRun::begin(self.registry.is_some(), amount)
    }
}

/// What a flash loan in progress waits for. The balances carried are the
/// provider's token balance before the loan.
#[derive(Debug, Clone, Copy, PartialEq, Eq, Structural)]
pub enum LoanStage {
    /// The registry's answer to whether the system is paused.
    AwaitingPauseAnswer,
    /// The provider's token balance before the loan.
    AwaitingBalanceBefore,
    /// The transfer of the amount to the receiver.
    AwaitingTransfer(i128),
    /// The receiver's callback to return.
    AwaitingReceiver(i128),
    /// The provider's token balance after the receiver has run.
    AwaitingBalanceAfter(i128),
    /// Nothing: the loan was published or refused.
    Closed,
}

/// What the caller reports back after carrying out a [`LoanAction`].
#[derive(Debug, Clone, Copy, PartialEq, Eq, Structural)]
pub enum LoanEvent {
    /// The registry answered whether the system is paused.
    PauseAnswer(bool),
    /// The provider's token balance.
    Balance(i128),
    /// The amount was transferred to the receiver.
    Transferred,
    /// The receiver's `execute_loan` returned.
    ReceiverReturned,
}

/// What a flash loan asks its caller to do next.
#[derive(Debug, Clone, Copy, PartialEq, Eq, Structural)]
pub enum LoanAction {
    /// Ask the configured registry whether the system is paused.
    AskRegistry,
    /// Read the provider's own balance of the token.
    QueryBalance,
    /// Transfer this amount of the token from the provider to the receiver.
    Transfer(i128),
    /// Call the receiver's `execute_loan` with this amount and fee.
    CallReceiver(i128, i128),
    /// The loan is repaid: publish the event with this amount and fee.
    Publish(i128, i128),
    /// The loan is refused and the whole call reverts.
    Fail(FlashLoanError),
}

/// The step after the pause check has passed: the terms are fixed, or the
/// loan is refused when `amount * 5` overflows.
pub open spec fn loan_after_pause(amount: i128) -> (LoanStage, LoanAction) {
    if i128::MIN <= amount * 5 <= i128::MAX {
        (LoanStage::AwaitingBalanceBefore, LoanAction::QueryBalance)
    } else {
        (LoanStage::Closed, LoanAction::Fail(FlashLoanError::Overflow))
    }
}

/// How a flash loan of `amount` starts: with the pause check when a registry
/// is configured.
pub open spec fn loan_begin(registry_configured: bool, amount: i128) -> (LoanStage, LoanAction) {
    if registry_configured {
        (LoanStage::AwaitingPauseAnswer, LoanAction::AskRegistry)
    } else {
        loan_after_pause(amount)
    }
}

/// One step of a flash loan of `amount` that waits in `stage` and receives
/// event `e`: the next stage and the next action.
pub open spec fn loan_step(amount: i128, stage: LoanStage, e: LoanEvent) -> (LoanStage, LoanAction) {
    let fee = loan_fee(amount as int);
    match stage {
        LoanStage::AwaitingPauseAnswer => match e {
            LoanEvent::PauseAnswer(paused) => if paused {
                (LoanStage::Closed, LoanAction::Fail(FlashLoanError::SystemPaused))
            } else {
                loan_after_pause(amount)
            },
            _ => (LoanStage::Closed, LoanAction::Fail(FlashLoanError::OutOfOrder)),
        },
        LoanStage::AwaitingBalanceBefore => match e {
            LoanEvent::Balance(b) => (LoanStage::AwaitingTransfer(b), LoanAction::Transfer(amount)),
            _ => (LoanStage::Closed, LoanAction::Fail(FlashLoanError::OutOfOrder)),
        },
        LoanStage::AwaitingTransfer(b) => match e {
            LoanEvent::Transferred => (
                LoanStage::AwaitingReceiver(b),
                LoanAction::CallReceiver(amount, fee as i128),
            ),
            _ => (LoanStage::Closed, LoanAction::Fail(FlashLoanError::OutOfOrder)),
        },
        LoanStage::AwaitingReceiver(b) => match e {
            LoanEvent::ReceiverReturned => (LoanStage::AwaitingBalanceAfter(b), LoanAction::QueryBalance),
            _ => (LoanStage::Closed, LoanAction::Fail(FlashLoanError::OutOfOrder)),
        },
        LoanStage::AwaitingBalanceAfter(b) => match e {
            LoanEvent::Balance(a) => if !(i128::MIN <= b + fee <= i128::MAX) {
                (LoanStage::Closed, LoanAction::Fail(FlashLoanError::Overflow))
            } else if a < b + fee {
                (LoanStage::Closed, LoanAction::Fail(FlashLoanError::NotRepaid))
            } else {
                (LoanStage::Closed, LoanAction::Publish(amount, fee as i128))
            },
            _ => (LoanStage::Closed, LoanAction::Fail(FlashLoanError::OutOfOrder)),
        },
        LoanStage::Closed => (LoanStage::Closed, LoanAction::Fail(FlashLoanError::OutOfOrder)),
    }
}

/// A flash loan in progress. It decides each step; its caller performs the
/// action asked for (a call into another contract) and reports the outcome
/// with [`LoanRun::step`].
pub struct LoanRun {
    amount: i128,
    fee: i128,
    stage: LoanStage,
}

impl View for LoanRun {
    /// The amount lent and the stage.
    type V = (i128, LoanStage);

    closed spec fn view(&self) -> (i128, LoanStage) {
        (self.amount, self.stage)
    }
}

impl LoanRun {
    /// Past the pause check the terms fit and the fee is known.
    #[verifier::type_invariant]
    closed spec fn terms_fixed(&self) -> bool {
        match self.stage {
            LoanStage::AwaitingPauseAnswer | LoanStage::Closed => true,
            _ => i128::MIN <= self.amount * 5 <= i128::MAX && self.fee == loan_fee(self.amount as int),
        }
    }

    fn after_pause(amount: i128) -> (r: (LoanRun, LoanAction))
        ensures
            r.0@.0 == amount,
            (r.0@.1, r.1) == loan_after_pause(amount),
    {
        match loan_terms(amount) {
            Ok(t) => (
                LoanRun { amount, fee: t.fee, stage: LoanStage::AwaitingBalanceBefore },
                LoanAction::QueryBalance,
            ),
            Err(e) => (LoanRun { amount, fee: 0, stage: LoanStage::Closed }, LoanAction::Fail(e)),
        }
    }

    /// Starts a flash loan of `amount`; `registry_configured` says whether a
    /// security registry must be asked first.
    pub fn begin(registry_configured: bool, amount: i128) -> (r: (LoanRun, LoanAction))
        ensures
            r.0@.0 == amount,
            (r.0@.1, r.1) == loan_begin(registry_configured, amount),
    {
        if registry_configured {
            (
                LoanRun { amount, fee: 0, stage: LoanStage::AwaitingPauseAnswer },
                LoanAction::AskRegistry,
            )
        } else {
            LoanRun::after_pause(amount)
        }
    }

    /// Takes the outcome of the last action and decides the next one.
    pub fn step(&mut self, e: LoanEvent) -> (a: LoanAction)
        ensures
            final(self)@.0 == old(self)@.0,
            (final(self)@.1, a) == loan_step(old(self)@.0, old(self)@.1, e),
    {
        proof {
            use_type_invariant(&*self);
        }
        let amount = self.amount;
        let fee = self.fee;
        let closed = LoanRun { amount, fee, stage: LoanStage::Closed };
        let (next, action) = match (self.stage, e) {
            (LoanStage::AwaitingPauseAnswer, LoanEvent::PauseAnswer(paused)) => {
                if paused {
                    (closed, LoanAction::Fail(FlashLoanError::SystemPaused))
                } else {
                    LoanRun::after_pause(amount)
                }
            },
            (LoanStage::AwaitingBalanceBefore, LoanEvent::Balance(b)) => (
                LoanRun { amount, fee, stage: LoanStage::AwaitingTransfer(b) },
                LoanAction::Transfer(amount),
            ),
            (LoanStage::AwaitingTransfer(b), LoanEvent::Transferred) => (
                LoanRun { amount, fee, stage: LoanStage::AwaitingReceiver(b) },
                LoanAction::CallReceiver(amount, fee),
            ),
            (LoanStage::AwaitingReceiver(b), LoanEvent::ReceiverReturned) => (
                LoanRun { amount, fee, stage: LoanStage::AwaitingBalanceAfter(b) },
                LoanAction::QueryBalance,
            ),
            (LoanStage::AwaitingBalanceAfter(b), LoanEvent::Balance(after)) => {
                let terms = LoanTerms { amount, fee };
                match terms.settle(b, after) {
                    Ok(()) => (closed, LoanAction::Publish(amount, fee)),
                    Err(err) => (closed, LoanAction::Fail(err)),
                }
            },
            _ => (closed, LoanAction::Fail(FlashLoanError::OutOfOrder)),
        };
        *self = next;
        action
    }
}

/// For a non-negative amount the fee is five basis points rounded down: it
/// is never negative, never more than the amount, and
/// `fee * 10000 <= amount * 5 < (fee + 1) * 10000`.
pub proof fn fee_is_five_basis_points(amount: int)
    requires
        amount >= 0,
    ensures
        0 <= loan_fee(amount) <= amount,
        loan_fee(amount) * 10000 <= amount * 5 < (loan_fee(amount) + 1) * 10000,
{
}

/// A flash loan of `amount` after it received `events` in order: the stage
/// it waits in, and every action it asked for, the first one at its start.
pub open spec fn loan_run(registry_configured: bool, amount: i128, events: Seq<LoanEvent>) -> (
    LoanStage,
    Seq<LoanAction>,
)
    decreases events.len(),
{
    if events.len() == 0 {
        let (s, a) = loan_begin(registry_configured, amount);
        (s, seq![a])
    } else {
        let (s, acts) = loan_run(registry_configured, amount, events.drop_last());
        let (s2, a2) = loan_step(amount, s, events.last());
        (s2, acts.push(a2))
    }
}

/// The events of a loan up to a passed pause check: the registry's "not
/// paused" when a registry is configured, nothing otherwise.
pub open spec fn pause_passed(registry_configured: bool) -> Seq<LoanEvent> {
    if registry_configured {
        seq![LoanEvent::PauseAnswer(false)]
    } else {
        Seq::empty()
    }
}

/// Each stage short of `Closed` is reached by exactly one history of events,
/// and with one last action.
proof fn lemma_loan_histories(rc: bool, amount: i128, events: Seq<LoanEvent>)
    ensures
        ({
            let (s, acts) = loan_run(rc, amount, events);
            let p = pause_passed(rc);
            let fits = i128::MIN <= amount * 5 <= i128::MAX;
            let fee = loan_fee(amount as int) as i128;
            &&& acts.len() == events.len() + 1
            &&& s == LoanStage::AwaitingPauseAnswer ==> rc && events.len() == 0 && acts.last()
                == LoanAction::AskRegistry
            &&& s == LoanStage::AwaitingBalanceBefore ==> fits && events == p && acts.last()
                == LoanAction::QueryBalance
            &&& (s matches LoanStage::AwaitingTransfer(b) ==> fits && events == p.push(
                LoanEvent::Balance(b),
            ) && acts.last() == LoanAction::Transfer(amount))
            &&& (s matches LoanStage::AwaitingReceiver(b) ==> fits && events == p.push(
                LoanEvent::Balance(b),
            ).push(LoanEvent::Transferred) && acts.last() == LoanAction::CallReceiver(amount, fee))
            &&& (s matches LoanStage::AwaitingBalanceAfter(b) ==> fits && events == p.push(
                LoanEvent::Balance(b),
            ).push(LoanEvent::Transferred).push(LoanEvent::ReceiverReturned) && acts.last()
                == LoanAction::QueryBalance)
        }),
    decreases events.len(),
{
    if events.len() > 0 {
        let prev = events.drop_last();
        lemma_loan_histories(rc, amount, prev);
        assert(events == prev.push(events.last()));
    }
}

/// A flash loan is published only after the whole protocol, in this order:
/// the pause check passed (when a registry is configured), the provider's
/// balance was read, the amount was transferred, the receiver returned, and
/// the balance read last is at least the first plus the fee. What is
/// published is the loan's amount and its fee of five basis points.
pub proof fn published_loans_were_repaid(
    registry_configured: bool,
    amount: i128,
    events: Seq<LoanEvent>,
)
    requires
        loan_run(registry_configured, amount, events).1.last() is Publish,
    ensures
        ({
            let p = pause_passed(registry_configured);
            let n = p.len() as int;
            &&& events.len() == n + 4
            &&& events.take(n) == p
            &&& events[n] is Balance
            &&& events[n + 1] == LoanEvent::Transferred
            &&& events[n + 2] == LoanEvent::ReceiverReturned
            &&& events[n + 3] is Balance
            &&& events[n + 3]->Balance_0 >= events[n]->Balance_0 + loan_fee(amount as int)
            &&& loan_run(registry_configured, amount, events).1.last() == LoanAction::Publish(
                amount,
                loan_fee(amount as int) as i128,
            )
        }),
{
    let rc = registry_configured;
    lemma_loan_histories(rc, amount, events);
    if events.len() == 0 {
        assert(loan_run(rc, amount, events).1 == seq![loan_begin(rc, amount).1]);
    } else {
        let prev = events.drop_last();
        lemma_loan_histories(rc, amount, prev);
        let p = pause_passed(rc);
        let n = p.len() as int;
        assert(events == prev.push(events.last()));
        assert(events.take(n) == p);
    }
}

/// Once the registry answers that the system is paused, the loan closes:
/// every later action is a refusal.
proof fn lemma_paused_run(amount: i128, events: Seq<LoanEvent>)
    requires
        events.len() > 0,
        events[0] == LoanEvent::PauseAnswer(true),
    ensures
        loan_run(true, amount, events).0 == LoanStage::Closed,
        loan_run(true, amount, events).1.len() == events.len() + 1,
        loan_run(true, amount, events).1[0] == LoanAction::AskRegistry,
        forall|i: int|
            1 <= i < events.len() + 1 ==> #[trigger] loan_run(true, amount, events).1[i] is Fail,
    decreases events.len(),
{
    let prev = events.drop_last();
    let (s, acts) = loan_run(true, amount, prev);
    if events.len() > 1 {
        assert(prev[0] == events[0]);
        lemma_paused_run(amount, prev);
    } else {
        assert(acts == seq![LoanAction::AskRegistry]);
    }
    assert(loan_run(true, amount, events).1 == acts.push(loan_step(amount, s, events.last()).1));
}

/// When the registry answers that the system is paused, the loan moves
/// nothing: whatever is reported afterwards, no transfer, no call of the
/// receiver and no publication is ever asked for.
pub proof fn a_paused_system_lends_nothing(amount: i128, events: Seq<LoanEvent>, i: int)
    requires
        events.len() > 0,
        events[0] == LoanEvent::PauseAnswer(true),
        0 <= i <= events.len(),
    ensures
        !(loan_run(true, amount, events).1[i] is Transfer),
        !(loan_run(true, amount, events).1[i] is CallReceiver),
        !(loan_run(true, amount, events).1[i] is Publish),
{
    lemma_paused_run(amount, events);
}

/// The receiver is called only right after the amount was transferred to
/// it, and with the loan's amount and fee.
pub proof fn the_receiver_is_called_after_the_transfer(
    registry_configured: bool,
    amount: i128,
    events: Seq<LoanEvent>,
)
    requires
        loan_run(registry_configured, amount, events).1.last() is CallReceiver,
    ensures
        events.len() >= 1,
        events.last() == LoanEvent::Transferred,
        loan_run(registry_configured, amount, events).1.drop_last().last() == LoanAction::Transfer(
            amount,
        ),
        loan_run(registry_configured, amount, events).1.last() == LoanAction::CallReceiver(
            amount,
            loan_fee(amount as int) as i128,
        ),
{
    let rc = registry_configured;
    lemma_loan_histories(rc, amount, events);
    if events.len() == 0 {
        assert(loan_run(rc, amount, events).1 == seq![loan_begin(rc, amount).1]);
    } else {
        let prev = events.drop_last();
        lemma_loan_histories(rc, amount, prev);
        assert(loan_run(rc, amount, events).1.drop_last() == loan_run(rc, amount, prev).1);
    }
}

} // verus!
