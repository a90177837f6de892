use anchor_contracts::address::Address;
use anchor_contracts::batch::{BatchAction, BatchError, BatchEvent, BatchExecutor, BatchRun};
use anchor_contracts::flash_loan::{
    loan_terms, FlashLoanError, FlashLoanProvider, LoanAction, LoanEvent, LoanRun, LoanTerms,
};

fn addr(n: u8) -> Address {
    Address::from_bytes(vec![0, 0, 0, 18, 0, 0, 0, 1, n])
}

#[test]
fn loan_fee_is_five_basis_points() {
    assert_eq!(loan_terms(20000), Ok(LoanTerms { amount: 20000, fee: 10 }));
    assert_eq!(loan_terms(1_000_000).unwrap().fee, 500);
    assert_eq!(loan_terms(1999).unwrap().fee, 0);
    assert_eq!(loan_terms(2000).unwrap().fee, 1);
    assert_eq!(loan_terms(0).unwrap().fee, 0);
    assert_eq!(loan_terms(-1).unwrap().fee, 0);
    assert_eq!(loan_terms(-4000).unwrap().fee, -2);
    assert_eq!(loan_terms(i128::MAX), Err(FlashLoanError::Overflow));
    assert_eq!(loan_terms(i128::MAX / 5).unwrap().fee, (i128::MAX / 5) * 5 / 10000);
}

#[test]
fn loan_settles_only_when_repaid_with_fee() {
    let terms = loan_terms(1_000_000).unwrap();
    assert_eq!(terms.settle(5_000_000, 5_000_500), Ok(()));
    assert_eq!(terms.settle(5_000_000, 5_001_000), Ok(()));
    assert_eq!(terms.settle(5_000_000, 5_000_499), Err(FlashLoanError::NotRepaid));
    assert_eq!(terms.settle(5_000_000, 4_000_000), Err(FlashLoanError::NotRepaid));
    assert_eq!(terms.settle(i128::MAX, i128::MAX), Err(FlashLoanError::Overflow));
}

#[test]
fn flash_loan_provider_configuration() {
    let mut p = FlashLoanProvider::new();
    assert_eq!(p.set_registry(addr(9)), Err(FlashLoanError::NotInitialized));
    p.initialize(addr(1)).unwrap();
    assert_eq!(p.initialize(addr(2)), Err(FlashLoanError::AlreadyInitialized));
    assert!(p.admin().unwrap().same(&addr(1)));
    assert!(p.registry().is_none());
    p.set_registry(addr(9)).unwrap();
    assert!(p.registry().as_ref().unwrap().same(&addr(9)));
}

#[test]
fn batch_executor_configuration() {
    let mut b = BatchExecutor::new();
    assert_eq!(b.set_registry(addr(9)), Err(BatchError::NotInitialized));
    b.initialize(addr(1)).unwrap();
    assert_eq!(b.initialize(addr(2)), Err(BatchError::AlreadyInitialized));
    assert!(b.admin().unwrap().same(&addr(1)));
    b.set_registry(addr(9)).unwrap();
    assert!(b.registry().as_ref().unwrap().same(&addr(9)));
}

#[test]
fn flash_loan_runs_the_whole_protocol() {
    let mut p = FlashLoanProvider::new();
    p.initialize(addr(1)).unwrap();
    let (mut run, a) = p.begin_loan(1_000_000);
    assert_eq!(a, LoanAction::QueryBalance);
    assert_eq!(run.step(LoanEvent::Balance(5_000_000)), LoanAction::Transfer(1_000_000));
    assert_eq!(run.step(LoanEvent::Transferred), LoanAction::CallReceiver(1_000_000, 500));
    assert_eq!(run.step(LoanEvent::ReceiverReturned), LoanAction::QueryBalance);
    assert_eq!(run.step(LoanEvent::Balance(5_000_500)), LoanAction::Publish(1_000_000, 500));
    assert_eq!(run.step(LoanEvent::Balance(5_000_500)), LoanAction::Fail(FlashLoanError::OutOfOrder));
}

#[test]
fn flash_loan_asks_the_registry_first() {
    let mut p = FlashLoanProvider::new();
    p.initialize(addr(1)).unwrap();
    p.set_registry(addr(9)).unwrap();
    let (mut run, a) = p.begin_loan(20_000);
    assert_eq!(a, LoanAction::AskRegistry);
    assert_eq!(run.step(LoanEvent::PauseAnswer(false)), LoanAction::QueryBalance);
    assert_eq!(run.step(LoanEvent::Balance(100)), LoanAction::Transfer(20_000));

    let (mut paused, _) = p.begin_loan(20_000);
    assert_eq!(paused.step(LoanEvent::PauseAnswer(true)), LoanAction::Fail(FlashLoanError::SystemPaused));
    assert_eq!(paused.step(LoanEvent::Balance(100)), LoanAction::Fail(FlashLoanError::OutOfOrder));
}

#[test]
fn flash_loan_refusals() {
    let (mut run, _) = LoanRun::begin(false, 20_000);
    run.step(LoanEvent::Balance(100));
    run.step(LoanEvent::Transferred);
    run.step(LoanEvent::ReceiverReturned);
    assert_eq!(run.step(LoanEvent::Balance(109)), LoanAction::Fail(FlashLoanError::NotRepaid));

    let (_, a) = LoanRun::begin(false, i128::MAX);
    assert_eq!(a, LoanAction::Fail(FlashLoanError::Overflow));

    let (mut run, _) = LoanRun::begin(true, i128::MAX);
    assert_eq!(run.step(LoanEvent::PauseAnswer(false)), LoanAction::Fail(FlashLoanError::Overflow));

    let (mut run, _) = LoanRun::begin(false, 20_000);
    assert_eq!(run.step(LoanEvent::Transferred), LoanAction::Fail(FlashLoanError::OutOfOrder));

    let (mut run, _) = LoanRun::begin(false, 20_000);
    run.step(LoanEvent::Balance(i128::MAX));
    run.step(LoanEvent::Transferred);
    run.step(LoanEvent::ReceiverReturned);
    assert_eq!(run.step(LoanEvent::Balance(i128::MAX)), LoanAction::Fail(FlashLoanError::Overflow));
}

#[test]
fn batch_collects_results_in_call_order() {
    let mut b = BatchExecutor::new();
    b.initialize(addr(1)).unwrap();
    b.set_registry(addr(9)).unwrap();
    let (mut run, a) = b.begin_batch::<u32>(3);
    assert_eq!(a, BatchAction::AskRegistry);
    assert_eq!(run.step(BatchEvent::PauseAnswer(false)), BatchAction::Invoke(0));
    assert_eq!(run.step(BatchEvent::Returned(30)), BatchAction::Invoke(1));
    assert_eq!(run.step(BatchEvent::Returned(10)), BatchAction::Invoke(2));
    assert_eq!(run.step(BatchEvent::Returned(20)), BatchAction::Finish);
    assert_eq!(run.step(BatchEvent::Returned(40)), BatchAction::Fail(BatchError::OutOfOrder));
    assert_eq!(run.into_results(), vec![30, 10, 20]);
}

#[test]
fn batch_without_registry_or_calls() {
    let (mut run, a) = BatchRun::<u32>::begin(false, 2);
    assert_eq!(a, BatchAction::Invoke(0));
    assert_eq!(run.step(BatchEvent::PauseAnswer(false)), BatchAction::Fail(BatchError::OutOfOrder));

    let (run, a) = BatchRun::<u32>::begin(false, 0);
    assert_eq!(a, BatchAction::Finish);
    assert!(run.into_results().is_empty());
}

#[test]
fn paused_batch_makes_no_call() {
    let (mut run, a) = BatchRun::<u32>::begin(true, 2);
    assert_eq!(a, BatchAction::AskRegistry);
    assert_eq!(run.step(BatchEvent::PauseAnswer(true)), BatchAction::Fail(BatchError::SystemPaused));
    assert_eq!(run.step(BatchEvent::Returned(1)), BatchAction::Fail(BatchError::OutOfOrder));
    assert!(run.into_results().is_empty());
}
