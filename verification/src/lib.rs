//! Verified state machines for a family of Soroban contracts: a fungible
//! token with a semi-fungible extension, a wrapped-XLM token, a KYC
//! verifier, a security (pause) registry, a batch executor and a flash-loan
//! provider. Each contract's storage is held as plain values and every entry
//! point is a function from the stored state to the next state and a result.
//! A flash loan and a batch, which call other contracts as they go, are step
//! machines: each step takes the outcome of the last call and names the next.

pub mod address;
pub mod table;
pub mod sums;
pub mod ledger;
pub mod token;
pub mod token_laws;
pub mod xlm_wrapper;
pub mod xlm_wrapper_laws;
pub mod security_registry;
pub mod flash_loan;
pub mod batch;
pub mod kyc;
