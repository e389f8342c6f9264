use crate::types::{AccountId, ConfirmationStatus, TransactionId};
use ink_prelude::vec::Vec;
use vstd::prelude::*;

verus! {

/// Emitted when an owner confirms a transaction.
#[derive(Debug, PartialEq, Eq)]
pub struct Confirmation {
    /// The transaction that was confirmed.
    pub transaction: TransactionId,
    /// The owner that sent the confirmation.
    pub from: AccountId,
    /// The confirmation status after this confirmation was applied.
    pub status: ConfirmationStatus,
}

/// Emitted when an owner revoked a confirmation.
#[derive(Debug, PartialEq, Eq)]
pub struct Revokation {
    /// The transaction that was revoked.
    pub transaction: TransactionId,
    /// The owner that sent the revokation.
    pub from: AccountId,
}

/// Emitted when an owner submits a transaction.
#[derive(Debug, PartialEq, Eq)]
pub struct Submission {
    /// The transaction that was submitted.
    pub transaction: TransactionId,
}

/// Emitted when a transaction was canceled.
#[derive(Debug, PartialEq, Eq)]
pub struct Cancelation {
    /// The transaction that was canceled.
    pub transaction: TransactionId,
}

/// Emitted when a transaction was executed.
#[derive(Debug, PartialEq, Eq)]
pub struct Execution {
    /// The transaction that was executed.
    pub transaction: TransactionId,
    /// Indicates whether the transaction executed successfully. If so the `Ok` value holds
    /// the output in bytes. The Option is `None` when the transaction was executed through
    /// `invoke_transaction` rather than `eval_transaction`.
    pub result: Result<Option<Vec<u8>>, ()>,
}

impl Execution {
    /// The result with the output as a sequence of bytes.
    pub open spec fn output(self) -> Result<Option<Seq<u8>>, ()> {
        match self.result {
            Ok(Some(bytes)) => Ok(Some(bytes@)),
            Ok(None) => Ok(None),
            Err(()) => Err(()),
        }
    }
}

/// Emitted when an owner is added to the wallet.
#[derive(Debug, PartialEq, Eq)]
pub struct OwnerAddition {
    /// The owner that was added.
    pub owner: AccountId,
}

/// Emitted when an owner is removed from the wallet.
#[derive(Debug, PartialEq, Eq)]
pub struct OwnerRemoval {
    /// The owner that was removed.
    pub owner: AccountId,
}

/// Emitted when the requirement changed.
#[derive(Debug, PartialEq, Eq)]
pub struct RequirementChange {
    /// The new requirement value.
    pub new_requirement: u32,
}

/// Any event that the wallet emits.
#[derive(Debug, PartialEq, Eq)]
pub enum Event {
    Confirmation(Confirmation),
    Revokation(Revokation),
    Submission(Submission),
    Cancelation(Cancelation),
    Execution(Execution),
    OwnerAddition(OwnerAddition),
    OwnerRemoval(OwnerRemoval),
    RequirementChange(RequirementChange),
}

/// What a message sees of the chain: who sent it, which account the wallet itself has,
/// and the events that were emitted so far.
pub struct Env {
    pub caller: AccountId,
    pub account_id: AccountId,
    pub events: Vec<Event>,
}

impl Env {
    /// The context of a message from `caller` to the wallet whose account is `account_id`.
    pub fn new(caller: AccountId, account_id: AccountId) -> (env: Self)
        ensures
            env.caller == caller,
            env.account_id == account_id,
            env.events@ == Seq::<Event>::empty(),
    {
        Env { caller, account_id, events: Vec::new() }
    }

    /// This is `before` with `events` emitted on top, in that order.
    pub open spec fn emitted(self, before: Env, events: Seq<Event>) -> bool {
        &&& self.caller == before.caller
        &&& self.account_id == before.account_id
        &&& self.events@ == before.events@ + events
    }

    /// The message comes from the wallet itself.
    pub open spec fn from_wallet(self) -> bool {
        self.caller == self.account_id
    }

    pub fn emit_event(&mut self, event: Event)
        ensures
            final(self).emitted(*old(self), seq![event]),
            final(self).caller == old(self).caller,
            final(self).account_id == old(self).account_id,
            final(self).events@ == old(self).events@.push(event),
    {
        self.events.push(event);
        assert(self.events@ =~= old(self).events@ + seq![event]);
    }
}

} // verus!
