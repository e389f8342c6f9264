//! # Plain Multisig Wallet
//!
//! This implements a plain multi owner wallet.
//!
//! ## Overview
//!
//! Each wallet has a set of `owners` and a `requirement` of how many of them need to agree
//! on a [`Transaction`] for it to be able to be executed. Every owner can submit a
//! transaction and when enough of the other owners confirm it will be able to be executed.
//! The following invariant is enforced:
//!
//! ```text
//! 0 < requirement && requirement <= owners && owners <= MAX_OWNERS
//! ```
//!
//! [`MultisigPlain`] is the wallet and [`Wallet`] its state as the contracts see it. Each
//! message is a method that says in `requires` when it may be sent. A message from an
//! unknown sender goes through [`MultisigPlain::handle`], which turns down what may not be
//! sent and then leaves everything as it was.
//!
//! ## Interface
//!
//! `confirm_transaction` never triggers the execution of a transaction even if the
//! threshold is reached: `invoke_transaction` or `eval_transaction` is always required, and
//! can be called by anyone. What is only for the wallet itself must go through the usual
//! submit, confirm, execute cycle as any other transaction that should be called by the
//! wallet. To add an owner, say, an owner submits a transaction that calls the wallet's own
//! `add_owner`.
//!
//! The wallet makes no call by itself. Executing a transaction hands out the call to make,
//! and whoever makes it reports the outcome.
pub mod effects;
pub mod env;
pub mod laws;
pub mod message;
pub mod model;
pub mod preservation;
pub mod stash;
pub mod types;
pub mod wallet;

pub use env::{
    Cancelation, Confirmation, Env, Event, Execution, OwnerAddition, OwnerRemoval,
    RequirementChange, Revokation, Submission,
};
pub use message::{Message, Reply};
pub use model::{Wallet, MAX_OWNERS};
pub use stash::{Stash, StashView};
pub use types::{
    parameterize_call, AccountId, Balance, CallInput, CallMode, CallRequest, ConfirmationStatus,
    Refusal, Transaction, TransactionId,
};
pub use wallet::{ensure_requirement_is_valid, MultisigPlain};
