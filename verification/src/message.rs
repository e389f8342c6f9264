use crate::effects;
use crate::env::{
    Confirmation, Env, Event, OwnerAddition, OwnerRemoval, RequirementChange, Revokation,
    Submission,
};
use crate::model::Wallet;
use crate::types::{
    AccountId, CallMode, CallRequest, ConfirmationStatus, Refusal, Transaction, TransactionId,
};
use crate::wallet::{ensure_requirement_is_valid, MultisigPlain};
use vstd::prelude::*;

verus! {

/// Anything that can be asked of a wallet.
#[derive(Debug, PartialEq, Eq)]
pub enum Message {
    AddOwner { new_owner: AccountId },
    RemoveOwner { owner: AccountId },
    ReplaceOwner { old_owner: AccountId, new_owner: AccountId },
    ChangeRequirement { new_requirement: u32 },
    SubmitTransaction { transaction: Transaction },
    CancelTransaction { trans_id: TransactionId },
    ConfirmTransaction { trans_id: TransactionId },
    RevokeConfirmation { trans_id: TransactionId },
    InvokeTransaction { trans_id: TransactionId },
    EvalTransaction { trans_id: TransactionId },
}

/// What a wallet answers to a message that it accepts.
#[derive(Debug, PartialEq, Eq)]
pub enum Reply {
    /// There is nothing to tell.
    Done,
    /// The id of the submitted transaction, and how far it is from being confirmed.
    Submitted(TransactionId, ConfirmationStatus),
    /// How far the transaction is from being confirmed.
    Status(ConfirmationStatus),
    /// The call that has to be made now.
    Call(CallRequest),
}

impl Wallet {
    /// Why `message` is turned down in the context `env`, if there is a reason.
    pub open spec fn refusal(self, env: Env, message: Message) -> Option<Refusal> {
        match message {
            Message::AddOwner { new_owner } => self.add_owner_refusal(env, new_owner),
            Message::RemoveOwner { owner } => self.remove_owner_refusal(env, owner),
            Message::ReplaceOwner { old_owner, new_owner } => self.replace_owner_refusal(
                env,
                old_owner,
                new_owner,
            ),
            Message::ChangeRequirement { new_requirement } => self.change_requirement_refusal(
                env,
                new_requirement,
            ),
            Message::SubmitTransaction { transaction } => self.submit_refusal(env),
            Message::CancelTransaction { trans_id } => self.cancel_refusal(env),
            Message::ConfirmTransaction { trans_id } => self.vote_refusal(env, trans_id),
            Message::RevokeConfirmation { trans_id } => self.vote_refusal(env, trans_id),
            Message::InvokeTransaction { trans_id } => self.execute_refusal(trans_id),
            Message::EvalTransaction { trans_id } => self.execute_refusal(trans_id),
        }
    }

    /// The wallet after it has accepted `message` from `caller`.
    pub open spec fn accept(self, caller: AccountId, message: Message) -> Self {
        match message {
            Message::AddOwner { new_owner } => self.add_owner(new_owner),
            Message::RemoveOwner { owner } => self.remove_owner(owner),
            Message::ReplaceOwner { old_owner, new_owner } => self.replace_owner(
                old_owner,
                new_owner,
            ),
            Message::ChangeRequirement { new_requirement } => self.change_requirement(
                new_requirement,
            ),
            Message::SubmitTransaction { transaction } => self.submit(transaction, caller),
            Message::CancelTransaction { trans_id } => self.take(trans_id),
            Message::ConfirmTransaction { trans_id } => self.confirm(trans_id, caller),
            Message::RevokeConfirmation { trans_id } => self.revoke(trans_id, caller),
            Message::InvokeTransaction { trans_id } => self.take(trans_id),
            Message::EvalTransaction { trans_id } => self.take(trans_id),
        }
    }

    /// What the wallet answers when it accepts `message` from `caller`.
    pub open spec fn reply(self, caller: AccountId, message: Message) -> Reply {
        let after = self.accept(caller, message);
        match message {
            Message::SubmitTransaction { transaction } => {
                let id = self.transactions.next_id();
                Reply::Submitted(id, after.status(id))
            },
            Message::ConfirmTransaction { trans_id } => Reply::Status(after.status(trans_id)),
            Message::InvokeTransaction { trans_id } => Reply::Call(
                crate::types::call_of(CallMode::Invoke, self.transactions.items[trans_id]),
            ),
            Message::EvalTransaction { trans_id } => Reply::Call(
                crate::types::call_of(CallMode::Eval, self.transactions.items[trans_id]),
            ),
            _ => Reply::Done,
        }
    }

    /// What the wallet emits when it accepts `message` from `caller`.
    pub open spec fn events(self, caller: AccountId, message: Message) -> Seq<Event> {
        match message {
            Message::AddOwner { new_owner } => seq![
                Event::OwnerAddition(OwnerAddition { owner: new_owner }),
            ],
            Message::RemoveOwner { owner } => seq![Event::OwnerRemoval(OwnerRemoval { owner })],
            Message::ReplaceOwner { old_owner, new_owner } => seq![
                Event::OwnerRemoval(OwnerRemoval { owner: old_owner }),
                Event::OwnerAddition(OwnerAddition { owner: new_owner }),
            ],
            Message::ChangeRequirement { new_requirement } => seq![
                Event::RequirementChange(RequirementChange { new_requirement }),
            ],
            Message::SubmitTransaction { transaction } => self.submit_events(transaction, caller),
            Message::CancelTransaction { trans_id } => self.cancel_events(trans_id),
            Message::ConfirmTransaction { trans_id } => self.confirm_events(trans_id, caller),
            Message::RevokeConfirmation { trans_id } => self.revoke_events(trans_id, caller),
            Message::InvokeTransaction { trans_id } => Seq::empty(),
            Message::EvalTransaction { trans_id } => Seq::empty(),
        }
    }

    /// The wallet after `message` has reached it: a refused message leaves no trace.
    pub open spec fn step(self, env: Env, message: Message) -> Self {
        if self.refusal(env, message) is None {
            self.accept(env.caller, message)
        } else {
            self
        }
    }
}

impl MultisigPlain {
    /// Tells whether `message` has to be turned down.
    pub fn ensure_acceptable(&self, env: &Env, message: &Message) -> (result: Result<(), Refusal>)
        requires
            self.inv(),
        ensures
            result == crate::types::verdict(self@.refusal(*env, *message)),
    {
        match message {
            Message::AddOwner { new_owner } => {
                self.ensure_from_wallet(env)?;
                self.ensure_no_owner(new_owner)?;
                ensure_requirement_is_valid(self.owners().len() as u32 + 1, self.requirement())
            },
            Message::RemoveOwner { owner } => {
                self.ensure_from_wallet(env)?;
                self.ensure_owner(owner)?;
                let len: u32 = self.owners().len() as u32 - 1;
                let requirement: u32 = if len < self.requirement() {
                    len
                } else {
                    self.requirement()
                };
                ensure_requirement_is_valid(len, requirement)
            },
            Message::ReplaceOwner { old_owner, new_owner } => {
                self.ensure_from_wallet(env)?;
                self.ensure_owner(old_owner)?;
                self.ensure_no_owner(new_owner)
            },
            Message::ChangeRequirement { new_requirement } => {
                self.ensure_from_wallet(env)?;
                ensure_requirement_is_valid(self.owners().len() as u32, *new_requirement)
            },
            Message::SubmitTransaction { transaction: _ } => {
                self.ensure_caller_is_owner(env)?;
                self.ensure_transaction_id_left()
            },
            Message::CancelTransaction { trans_id: _ } => self.ensure_from_wallet(env),
            Message::ConfirmTransaction { trans_id } => {
                self.ensure_caller_is_owner(env)?;
                self.ensure_transaction_exists(*trans_id)
            },
            Message::RevokeConfirmation { trans_id } => {
                self.ensure_caller_is_owner(env)?;
                self.ensure_transaction_exists(*trans_id)
            },
            Message::InvokeTransaction { trans_id } => self.ensure_confirmed(*trans_id),
            Message::EvalTransaction { trans_id } => self.ensure_confirmed(*trans_id),
        }
    }

    /// Performs `message`, or turns it down and leaves the wallet and the events as they were.
    pub fn handle(&mut self, env: &mut Env, message: Message) -> (result: Result<Reply, Refusal>)
        requires
            old(self).inv(),
        ensures
            final(self).inv(),
            match old(self)@.refusal(*old(env), message) {
                Some(refusal) => {
                    &&& result == Err::<Reply, Refusal>(refusal)
                    &&& *final(self) == *old(self)
                    &&& *final(env) == *old(env)
                },
                None => {
                    &&& result == Ok::<Reply, Refusal>(old(self)@.reply(old(env).caller, message))
                    &&& final(self)@ == old(self)@.accept(old(env).caller, message)
                    &&& final(env).emitted(
                        *old(env),
                        old(self)@.events(old(env).caller, message),
                    )
                },
            },
            match (message, result) {
                (Message::AddOwner { new_owner }, Ok(reply)) => {
                    &&& final(self)@.owners == old(self)@.owners.push(new_owner)
                    &&& final(self)@.requirement == old(self)@.requirement
                    &&& final(self)@.transactions == old(self)@.transactions
                    &&& final(self)@.confirmations == old(self)@.confirmations
                    &&& final(self)@.confirmation_count == old(self)@.confirmation_count
                },
                (Message::SubmitTransaction { transaction }, Ok(reply)) => {
                    &&& reply matches Reply::Submitted(id, status)
                    &&& !old(self)@.transactions.items.contains_key(id)
                    &&& final(self)@.transactions.items == old(self)@.transactions.items.insert(
                        id,
                        transaction,
                    )
                    &&& final(self)@.confirmations == old(self)@.confirmations.insert(
                        (id, old(env).caller),
                    )
                    &&& final(self)@.confirmation_count == old(self)@.confirmation_count.insert(
                        id,
                        1,
                    )
                    &&& status == ConfirmationStatus::Confirmed <==> old(self)@.requirement == 1
                    &&& status matches ConfirmationStatus::ConfirmationsNeeded(missing)
                        ==> missing + 1 == old(self)@.requirement
                    &&& final(env).events@ == old(env).events@.push(
                        Event::Submission(Submission { transaction: id }),
                    ).push(
                        Event::Confirmation(
                            Confirmation { transaction: id, from: old(env).caller, status },
                        ),
                    )
                },
                (Message::ConfirmTransaction { trans_id }, Ok(reply)) => {
                    let caller = old(env).caller;
                    let count = final(self)@.confirmation_count[trans_id];
                    &&& reply matches Reply::Status(status)
                    &&& final(self)@.confirmations == old(self)@.confirmations.insert(
                        (trans_id, caller),
                    )
                    &&& status == ConfirmationStatus::Confirmed <==> count
                        >= old(self)@.requirement
                    &&& status matches ConfirmationStatus::ConfirmationsNeeded(missing)
                        ==> missing + count == old(self)@.requirement
                    &&& old(self)@.confirmations.contains((trans_id, caller)) ==> {
                        &&& count == old(self)@.confirmation_count[trans_id]
                        &&& final(env).events@ == old(env).events@
                    }
                    &&& !old(self)@.confirmations.contains((trans_id, caller)) ==> {
                        &&& count == old(self)@.confirmation_count[trans_id] + 1
                        &&& final(env).events@ == old(env).events@.push(
                            Event::Confirmation(
                                Confirmation { transaction: trans_id, from: caller, status },
                            ),
                        )
                    }
                },
                (Message::RevokeConfirmation { trans_id }, Ok(reply)) => {
                    let caller = old(env).caller;
                    &&& final(self)@.confirmations == old(self)@.confirmations.remove(
                        (trans_id, caller),
                    )
                    &&& old(self)@.confirmations.contains((trans_id, caller)) ==> {
                        final(env).events@ == old(env).events@.push(
                            Event::Revokation(Revokation { transaction: trans_id, from: caller }),
                        )
                    }
                    &&& !old(self)@.confirmations.contains((trans_id, caller)) ==> {
                        final(env).events@ == old(env).events@
                    }
                },
                (Message::InvokeTransaction { trans_id }, Ok(reply)) => {
                    &&& reply matches Reply::Call(call)
                    &&& old(self)@.transactions.items.contains_key(trans_id)
                    &&& call.mode == CallMode::Invoke
                    &&& call.callee == old(self)@.transactions.items[trans_id].callee
                    &&& call.selector@ == old(self)@.transactions.items[trans_id].selector@
                    &&& call.gas_limit == old(self)@.transactions.items[trans_id].gas_limit
                    &&& call.transferred_value == old(self)@.transactions.items[trans_id].transferred_value
                    &&& call.input@ == old(self)@.transactions.items[trans_id].input@
                    &&& !final(self)@.transactions.items.contains_key(trans_id)
                },
                (Message::EvalTransaction { trans_id }, Ok(reply)) => {
                    &&& reply matches Reply::Call(call)
                    &&& old(self)@.transactions.items.contains_key(trans_id)
                    &&& call.mode == CallMode::Eval
                    &&& call.callee == old(self)@.transactions.items[trans_id].callee
                    &&& call.selector@ == old(self)@.transactions.items[trans_id].selector@
                    &&& call.gas_limit == old(self)@.transactions.items[trans_id].gas_limit
                    &&& call.transferred_value == old(self)@.transactions.items[trans_id].transferred_value
                    &&& call.input@ == old(self)@.transactions.items[trans_id].input@
                    &&& !final(self)@.transactions.items.contains_key(trans_id)
                },
                _ => true,
            },
    {
        match self.ensure_acceptable(env, &message) {
            Ok(()) => {},
            Err(refusal) => {
                return Err(refusal);
            },
        }
        let ghost before = self@;
        let ghost asked = message;
        proof {
            let caller = env.caller;
            match asked {
                Message::SubmitTransaction { transaction } => {
                    effects::law_submitting_a_transaction(before, caller, transaction);
                },
                Message::ConfirmTransaction { trans_id } => {
                    effects::law_confirming_a_transaction(before, caller, trans_id);
                },
                Message::RevokeConfirmation { trans_id } => {
                    effects::law_revoking_a_confirmation(before, caller, trans_id);
                },
                _ => {},
            }
        }
        let reply = match message {
            Message::AddOwner { new_owner } => {
                self.add_owner(env, new_owner);
                Reply::Done
            },
            Message::RemoveOwner { owner } => {
                self.remove_owner(env, owner);
                Reply::Done
            },
            Message::ReplaceOwner { old_owner, new_owner } => {
                self.replace_owner(env, old_owner, new_owner);
                Reply::Done
            },
            Message::ChangeRequirement { new_requirement } => {
                self.change_requirement(env, new_requirement);
                Reply::Done
            },
            Message::SubmitTransaction { transaction } => {
                let (id, status) = self.submit_transaction(env, transaction);
                Reply::Submitted(id, status)
            },
            Message::CancelTransaction { trans_id } => {
                self.cancel_transaction(env, trans_id);
                Reply::Done
            },
            Message::ConfirmTransaction { trans_id } => Reply::Status(
                self.confirm_transaction(env, trans_id),
            ),
            Message::RevokeConfirmation { trans_id } => {
                self.revoke_confirmation(env, trans_id);
                Reply::Done
            },
            Message::InvokeTransaction { trans_id } => Reply::Call(
                self.invoke_transaction(trans_id),
            ),
            Message::EvalTransaction { trans_id } => Reply::Call(self.eval_transaction(trans_id)),
        };
        Ok(reply)
    }
}

} // verus!
