use crate::env::{
    Cancelation, Confirmation, Env, Event, Execution, OwnerAddition, OwnerRemoval,
    RequirementChange, Revokation, Submission,
};
use crate::model::{Wallet, MAX_OWNERS};
use crate::stash::Stash;
use crate::types::{
    parameterize_call, same_account, AccountId, CallMode, CallRequest, ConfirmationStatus,
    Refusal, Transaction, TransactionId,
};
use ink_prelude::vec::Vec;
use std::collections::BTreeMap;
use vstd::prelude::*;

verus! {

broadcast use {
    vstd::std_specs::btree::group_btree_axioms,
    vstd::laws_cmp::group_laws_cmp,
};

/// A wallet with several owners, some number of whom have to agree on every transaction.
pub struct MultisigPlain {
    /// Every entry in this map represents the confirmation of an owner for a
    /// transaction. This is effectively a set rather than a map.
    confirmations: BTreeMap<(TransactionId, AccountId), ()>,
    /// The amount of confirmations for every transaction. This is a redundant
    /// information and is kept in order to prevent iterating through the
    /// confirmation set to check if a transaction is confirmed.
    confirmation_count: BTreeMap<TransactionId, u32>,
    /// Just the list of transactions. It is a stash as stable ids are necessary
    /// for referencing them in confirmation calls.
    transactions: Stash<Transaction>,
    /// The list is a vector because iterating over it is necessary when cleaning
    /// up the confirmation set.
    owners: Vec<AccountId>,
    /// Redundant information to speed up the check whether a caller is an owner.
    is_owner: BTreeMap<AccountId, ()>,
    /// Minimum number of owners that have to confirm a transaction to be executed.
    requirement: u32,
}

impl View for MultisigPlain {
    type V = Wallet;

    closed spec fn view(&self) -> Wallet {
        Wallet {
            confirmations: self.confirmations@.dom(),
            confirmation_count: self.confirmation_count@.map_values(|n: u32| n as nat),
            transactions: self.transactions@,
            owners: self.owners@,
            requirement: self.requirement,
        }
    }
}

impl MultisigPlain {
    /// The fast owner check agrees with the list of owners.
    pub closed spec fn owner_check_is_right(&self) -> bool {
        self.is_owner@.dom() == self.owners@.to_set()
    }

    /// What holds of a wallet between two messages.
    pub open spec fn inv(&self) -> bool {
        self.owner_check_is_right() && self@.inv()
    }

    /// Sets up a wallet.
    ///
    /// A list of owners must be supplied and a number of how many of them must
    /// confirm a transaction. Duplicate owners are silently dropped.
    pub fn deploy(requirement: u32, owners: Vec<AccountId>) -> (result: Result<Self, Refusal>)
        ensures
            result is Ok <==> crate::model::requirement_is_valid(
                crate::model::distinct(owners@).len(),
                requirement as nat,
            ),
            result matches Ok(wallet) ==> wallet.inv() && wallet@ == Wallet::initial(
                requirement,
                owners@,
            ),
            result matches Err(refusal) ==> refusal == Refusal::InvalidRequirement,
            result is Ok <==> 1 <= requirement <= owners@.to_set().len() <= 50,
            result matches Ok(wallet) ==> {
                &&& wallet@.requirement == requirement
                &&& wallet@.owners.no_duplicates()
                &&& wallet@.owners.to_set() == owners@.to_set()
                &&& wallet@.transactions.items == Map::<TransactionId, Transaction>::empty()
                &&& wallet@.confirmations == Set::<(TransactionId, AccountId)>::empty()
                &&& wallet@.confirmation_count == Map::<TransactionId, nat>::empty()
            },
    {
        let mut is_owner: BTreeMap<AccountId, ()> = BTreeMap::new();
        let mut listed: Vec<AccountId> = Vec::new();
        let mut i: usize = 0;
        assert(is_owner@.dom() =~= listed@.to_set());
        while i < owners.len()
            invariant
                i <= owners@.len(),
                listed@ == crate::model::distinct(owners@.take(i as int)),
                is_owner@.dom() == listed@.to_set(),
            decreases owners@.len() - i,
        {
            let ghost earlier = listed@;
            let owner = owners[i];
            assert(owners@.take(i + 1).drop_last() =~= owners@.take(i as int));
            assert(is_owner@.dom().contains(owner) == listed@.contains(owner));
            if is_owner.insert(owner, ()).is_none() {
                listed.push(owner);
            }
            proof {
                assert forall|account: AccountId| is_owner@.dom().contains(account)
                    == listed@.contains(account) by {
                    assert(earlier.to_set().contains(account) == earlier.contains(account));
                    if earlier.contains(account) {
                        let j = earlier.index_of(account);
                        assert(listed@[j] == account);
                    } else if account == owner {
                        assert(listed@[earlier.len() as int] == account);
                    }
                }
                assert(is_owner@.dom() =~= listed@.to_set());
            }
            i += 1;
        }
        assert(owners@.take(i as int) =~= owners@);
        proof {
            crate::preservation::lemma_distinct(owners@);
            listed@.unique_seq_to_set();
        }
        if listed.len() > MAX_OWNERS as usize {
            return Err(Refusal::InvalidRequirement);
        }
        ensure_requirement_is_valid(listed.len() as u32, requirement)?;
        let wallet = MultisigPlain {
            confirmations: BTreeMap::new(),
            confirmation_count: BTreeMap::new(),
            transactions: Stash::new(),
            owners: listed,
            is_owner,
            requirement,
        };
        assert(wallet@ =~= Wallet::initial(requirement, owners@));
        proof {
            crate::preservation::lemma_initial_keeps_inv(requirement, owners@);
        }
        Ok(wallet)
    }

    /// Sets up a wallet whose owners and requirement go together.
    ///
    /// A list of owners must be supplied and a number of how many of them must
    /// confirm a transaction. Duplicate owners are silently dropped.
    pub fn new(requirement: u32, owners: Vec<AccountId>) -> (wallet: Self)
        requires
            crate::model::requirement_is_valid(
                crate::model::distinct(owners@).len(),
                requirement as nat,
            ),
        ensures
            wallet.inv(),
            wallet@ == Wallet::initial(requirement, owners@),
            wallet@.requirement == requirement,
            wallet@.owners.no_duplicates(),
            wallet@.owners.to_set() == owners@.to_set(),
            wallet@.transactions.items == Map::<TransactionId, Transaction>::empty(),
            wallet@.confirmations == Set::<(TransactionId, AccountId)>::empty(),
            wallet@.confirmation_count == Map::<TransactionId, nat>::empty(),
    {
        Self::deploy(requirement, owners).unwrap()
    }

    /// Add a new owner to the contract.
    ///
    /// Only callable by the wallet itself.
    pub fn add_owner(&mut self, env: &mut Env, new_owner: AccountId)
        requires
            old(self).inv(),
            old(self)@.add_owner_refusal(*old(env), new_owner) is None,
        ensures
            final(self).inv(),
            final(self)@ == old(self)@.add_owner(new_owner),
            final(env).emitted(
                *old(env),
                seq![Event::OwnerAddition(OwnerAddition { owner: new_owner })],
            ),
            final(self)@.owners == old(self)@.owners.push(new_owner),
            final(self)@.requirement == old(self)@.requirement,
            final(self)@.transactions == old(self)@.transactions,
            final(self)@.confirmations == old(self)@.confirmations,
            final(self)@.confirmation_count == old(self)@.confirmation_count,
    {
        let ghost before = self@;
        self.is_owner.insert(new_owner, ());
        self.owners.push(new_owner);
        proof {
            crate::preservation::lemma_add_owner_keeps_inv(before, new_owner);
            assert forall|account: AccountId| self.owners@.contains(account) == (account
                == new_owner || before.owners.contains(account)) by {
                assert(self.owners@[before.owners.len() as int] == new_owner);
                if before.owners.contains(account) {
                    let i = before.owners.index_of(account);
                    assert(self.owners@[i] == account);
                }
            }
            assert(self.is_owner@.dom() =~= self.owners@.to_set());
            assert(self@ =~= before.add_owner(new_owner));
        }
        env.emit_event(Event::OwnerAddition(OwnerAddition { owner: new_owner }));
    }

    /// Remove an owner from the contract.
    ///
    /// Only callable by the wallet itself. If by doing this the amount of owners
    /// would be smaller than the requirement it is adjusted to be exactly the
    /// number of owners.
    pub fn remove_owner(&mut self, env: &mut Env, owner: AccountId)
        requires
            old(self).inv(),
            old(self)@.remove_owner_refusal(*old(env), owner) is None,
        ensures
            final(self).inv(),
            final(self)@ == old(self)@.remove_owner(owner),
            final(env).emitted(*old(env), seq![Event::OwnerRemoval(OwnerRemoval { owner })]),
    {
        let ghost before = self@;
        proof {
            crate::preservation::lemma_remove_owner_keeps_inv(before, owner);
        }
        let len: u32 = self.owners.len() as u32 - 1;
        let requirement: u32 = if len < self.requirement {
            len
        } else {
            self.requirement
        };
        let index = self.owner_index(&owner);
        self.owners.swap_remove(index as usize);
        self.is_owner.remove(&owner);
        self.requirement = requirement;
        proof {
            assert forall|id: TransactionId| #[trigger]
                self@.confirmations.contains((id, owner)) implies self@.holds(id)
                && self@.confirmation_count.contains_key(id) && self@.confirmation_count[id] > 0 by {
                crate::preservation::lemma_confirmers_finite(before, id);
                assert(before.confirmers(id).contains(owner));
            }
        }
        self.clean_owner_confirmations(&owner);
        assert(self@ =~= before.remove_owner(owner));
        env.emit_event(Event::OwnerRemoval(OwnerRemoval { owner }));
    }

    /// Replace an owner from the contract with a new one.
    ///
    /// Only callable by the wallet itself.
    pub fn replace_owner(&mut self, env: &mut Env, old_owner: AccountId, new_owner: AccountId)
        requires
            old(self).inv(),
            old(self)@.replace_owner_refusal(*old(env), old_owner, new_owner) is None,
        ensures
            final(self).inv(),
            final(self)@ == old(self)@.replace_owner(old_owner, new_owner),
            final(env).emitted(
                *old(env),
                seq![
                    Event::OwnerRemoval(OwnerRemoval { owner: old_owner }),
                    Event::OwnerAddition(OwnerAddition { owner: new_owner }),
                ],
            ),
    {
        let ghost before = self@;
        proof {
            crate::preservation::lemma_replace_owner_keeps_inv(before, old_owner, new_owner);
        }
        let index = self.owner_index(&old_owner);
        self.owners.set(index as usize, new_owner);
        self.is_owner.remove(&old_owner);
        self.is_owner.insert(new_owner, ());
        proof {
            assert forall|id: TransactionId| #[trigger]
                self@.confirmations.contains((id, old_owner)) implies self@.holds(id)
                && self@.confirmation_count.contains_key(id) && self@.confirmation_count[id] > 0 by {
                crate::preservation::lemma_confirmers_finite(before, id);
                assert(before.confirmers(id).contains(old_owner));
            }
        }
        self.clean_owner_confirmations(&old_owner);
        assert(self@ =~= before.replace_owner(old_owner, new_owner));
        env.emit_event(Event::OwnerRemoval(OwnerRemoval { owner: old_owner }));
        env.emit_event(Event::OwnerAddition(OwnerAddition { owner: new_owner }));
        assert(env.events@ =~= old(env).events@ + seq![
            Event::OwnerRemoval(OwnerRemoval { owner: old_owner }),
            Event::OwnerAddition(OwnerAddition { owner: new_owner }),
        ]);
    }

    /// Change the requirement to a new value.
    ///
    /// Only callable by the wallet itself.
    pub fn change_requirement(&mut self, env: &mut Env, new_requirement: u32)
        requires
            old(self).inv(),
            old(self)@.change_requirement_refusal(*old(env), new_requirement) is None,
        ensures
            final(self).inv(),
            final(self)@ == old(self)@.change_requirement(new_requirement),
            final(env).emitted(
                *old(env),
                seq![Event::RequirementChange(RequirementChange { new_requirement })],
            ),
    {
        proof {
            crate::preservation::lemma_change_requirement_keeps_inv(self@, new_requirement);
        }
        self.requirement = new_requirement;
        env.emit_event(Event::RequirementChange(RequirementChange { new_requirement }));
    }

    /// Add a new transaction candidate to the contract.
    ///
    /// This also confirms the transaction for the caller. This can be called by any owner.
    pub fn submit_transaction(&mut self, env: &mut Env, transaction: Transaction) -> (result: (
        TransactionId,
        ConfirmationStatus,
    ))
        requires
            old(self).inv(),
            old(self)@.submit_refusal(*old(env)) is None,
        ensures
            final(self).inv(),
            final(self)@ == old(self)@.submit(transaction, old(env).caller),
            result.0 == old(self)@.transactions.next_id(),
            result.1 == final(self)@.status(result.0),
            final(env).emitted(
                *old(env),
                old(self)@.submit_events(transaction, old(env).caller),
            ),
    {
        proof {
            crate::preservation::lemma_submit_keeps_inv(self@, transaction, env.caller);
        }
        let ghost before = self@;
        let trans_id = self.transactions.put(transaction);
        env.emit_event(Event::Submission(Submission { transaction: trans_id }));
        let caller = env.caller;
        let status = self.confirm_by_caller(env, caller, trans_id);
        assert(env.events@ =~= old(env).events@ + before.submit_events(transaction, caller));
        (trans_id, status)
    }

    /// Remove a transaction from the contract; nothing happens where `trans_id` is no valid
    /// transaction id.
    ///
    /// Only callable by the wallet itself.
    pub fn cancel_transaction(&mut self, env: &mut Env, trans_id: TransactionId)
        requires
            old(self).inv(),
            old(self)@.cancel_refusal(*old(env)) is None,
        ensures
            final(self).inv(),
            final(self)@ == old(self)@.take(trans_id),
            final(env).emitted(*old(env), old(self)@.cancel_events(trans_id)),
    {
        if self.take_transaction(trans_id).is_some() {
            env.emit_event(Event::Cancelation(Cancelation { transaction: trans_id }));
        }
    }

    /// Confirm a transaction for the sender that was submitted by any owner.
    ///
    /// This can be called by any owner.
    pub fn confirm_transaction(&mut self, env: &mut Env, trans_id: TransactionId) -> (status:
        ConfirmationStatus)
        requires
            old(self).inv(),
            old(self)@.vote_refusal(*old(env), trans_id) is None,
        ensures
            final(self).inv(),
            final(self)@ == old(self)@.confirm(trans_id, old(env).caller),
            status == final(self)@.status(trans_id),
            final(env).emitted(*old(env), old(self)@.confirm_events(trans_id, old(env).caller)),
    {
        proof {
            crate::preservation::lemma_confirm_keeps_inv(self@, trans_id, env.caller);
            crate::preservation::lemma_confirmers_finite(self@, trans_id);
        }
        let caller = env.caller;
        self.confirm_by_caller(env, caller, trans_id)
    }

    /// Revoke the senders confirmation.
    ///
    /// This can be called by any owner.
    pub fn revoke_confirmation(&mut self, env: &mut Env, trans_id: TransactionId)
        requires
            old(self).inv(),
            old(self)@.vote_refusal(*old(env), trans_id) is None,
        ensures
            final(self).inv(),
            final(self)@ == old(self)@.revoke(trans_id, old(env).caller),
            final(env).emitted(*old(env), old(self)@.revoke_events(trans_id, old(env).caller)),
    {
        proof {
            crate::preservation::lemma_revoke_keeps_inv(self@, trans_id, env.caller);
            crate::preservation::lemma_confirmers_finite(self@, trans_id);
        }
        let ghost before = self@;
        let caller = env.caller;
        if self.confirmations.remove(&(trans_id, caller)).is_some() {
            assert(before.confirmers(trans_id).contains(caller));
            assert(before.holds(trans_id));
            let count: u32 = match self.confirmation_count.get(&trans_id) {
                Some(n) => *n,
                None => 1,
            };
            self.confirmation_count.insert(trans_id, count - 1);
            env.emit_event(Event::Revokation(Revokation { transaction: trans_id, from: caller }));
        }
        assert(self@ =~= before.revoke(trans_id, caller));
    }

    /// Starts the execution of a confirmed transaction whose output is not wanted.
    ///
    /// The wallet no longer holds the transaction after that. The returned call is to be
    /// made next and its outcome to be handed to [`MultisigPlain::invoke_finished`].
    /// This can be called by anyone.
    pub fn invoke_transaction(&mut self, trans_id: TransactionId) -> (call: CallRequest)
        requires
            old(self).inv(),
            old(self)@.execute_refusal(trans_id) is None,
        ensures
            final(self).inv(),
            final(self)@ == old(self)@.take(trans_id),
            call == crate::types::call_of(
                CallMode::Invoke,
                old(self)@.transactions.items[trans_id],
            ),
            call.mode == CallMode::Invoke,
            call.callee == old(self)@.transactions.items[trans_id].callee,
            call.selector@ == old(self)@.transactions.items[trans_id].selector@,
            call.gas_limit == old(self)@.transactions.items[trans_id].gas_limit,
            call.transferred_value == old(self)@.transactions.items[trans_id].transferred_value,
            call.input@ == old(self)@.transactions.items[trans_id].input@,
    {
        let t = self.take_transaction(trans_id).unwrap();
        parameterize_call(CallMode::Invoke, t)
    }

    /// Records that the call which executes `trans_id` has returned.
    ///
    /// The return value indicates whether the called transaction was successful.
    pub fn invoke_finished(
        env: &mut Env,
        trans_id: TransactionId,
        result: Result<(), ()>,
    ) -> (returned: Result<(), ()>)
        ensures
            returned == result,
            final(env).emitted(
                *old(env),
                seq![
                    Event::Execution(
                        Execution {
                            transaction: trans_id,
                            result: match result {
                                Ok(()) => Ok(None),
                                Err(()) => Err(()),
                            },
                        },
                    ),
                ],
            ),
    {
        let reported: Result<Option<Vec<u8>>, ()> = match result {
            Ok(()) => Ok(None),
            Err(()) => Err(()),
        };
        env.emit_event(Event::Execution(Execution { transaction: trans_id, result: reported }));
        result
    }

    /// Starts the execution of a confirmed transaction whose output is wanted as bytes.
    ///
    /// The wallet no longer holds the transaction after that. The returned call is to be
    /// made next and its outcome to be handed to [`MultisigPlain::eval_finished`].
    /// This can be called by anyone.
    pub fn eval_transaction(&mut self, trans_id: TransactionId) -> (call: CallRequest)
        requires
            old(self).inv(),
            old(self)@.execute_refusal(trans_id) is None,
        ensures
            final(self).inv(),
            final(self)@ == old(self)@.take(trans_id),
            call == crate::types::call_of(CallMode::Eval, old(self)@.transactions.items[trans_id]),
            call.mode == CallMode::Eval,
            call.callee == old(self)@.transactions.items[trans_id].callee,
            call.selector@ == old(self)@.transactions.items[trans_id].selector@,
            call.gas_limit == old(self)@.transactions.items[trans_id].gas_limit,
            call.transferred_value == old(self)@.transactions.items[trans_id].transferred_value,
            call.input@ == old(self)@.transactions.items[trans_id].input@,
    {
        let t = self.take_transaction(trans_id).unwrap();
        parameterize_call(CallMode::Eval, t)
    }

    /// Records that the call which executes `trans_id` has returned, and with what output.
    ///
    /// The return value indicates whether the called transaction was successful and contains
    /// its output when successful.
    pub fn eval_finished(
        env: &mut Env,
        trans_id: TransactionId,
        result: Result<Vec<u8>, ()>,
    ) -> (returned: Result<Vec<u8>, ()>)
        ensures
            returned == result,
            ({
                let event = final(env).events@.last();
                &&& final(env).emitted(*old(env), seq![event])
                &&& event matches Event::Execution(execution)
                &&& execution.transaction == trans_id
                &&& execution.output() == match result {
                    Ok(bytes) => Ok::<Option<Seq<u8>>, ()>(Some(bytes@)),
                    Err(()) => Err::<Option<Seq<u8>>, ()>(()),
                }
            }),
    {
        let reported: Result<Option<Vec<u8>>, ()> = match &result {
            Ok(bytes) => {
                let copy = bytes.clone();
                assert(copy@ =~= bytes@);
                Ok(Some(copy))
            },
            Err(()) => Err(()),
        };
        env.emit_event(Event::Execution(Execution { transaction: trans_id, result: reported }));
        result
    }

    /// Set the `transaction` as confirmed by `confirmer`.
    /// Idempotent operation regarding an already confirmed `transaction`
    /// by `confirmer`.
    fn confirm_by_caller(
        &mut self,
        env: &mut Env,
        confirmer: AccountId,
        transaction: TransactionId,
    ) -> (status: ConfirmationStatus)
        requires
            old(self)@.count(transaction) < u32::MAX,
        ensures
            final(self)@ == old(self)@.confirm(transaction, confirmer),
            final(self).owner_check_is_right() == old(self).owner_check_is_right(),
            status == final(self)@.status(transaction),
            final(env).emitted(*old(env), old(self)@.confirm_events(transaction, confirmer)),
    {
        let ghost before = self@;
        let mut count: u32 = match self.confirmation_count.get(&transaction) {
            Some(n) => *n,
            None => 0,
        };
        assert(count == before.count(transaction));
        let new_confirmation = self.confirmations.insert((transaction, confirmer), ()).is_none();
        if new_confirmation {
            count += 1;
        }
        self.confirmation_count.insert(transaction, count);
        assert(self@ =~= before.confirm(transaction, confirmer));
        let status = if count >= self.requirement {
            ConfirmationStatus::Confirmed
        } else {
            ConfirmationStatus::ConfirmationsNeeded(self.requirement - count)
        };
        if new_confirmation {
            env.emit_event(
                Event::Confirmation(Confirmation { transaction, from: confirmer, status }),
            );
        }
        status
    }

    /// The index of `owner` in the list of owners.
    fn owner_index(&self, owner: &AccountId) -> (index: u32)
        requires
            self.inv(),
            self@.is_owner(*owner),
        ensures
            index < self@.owners.len(),
            index == self@.owners.index_of(*owner),
            self@.owners[index as int] == *owner,
    {
        let mut index: usize = 0;
        while !same_account(&self.owners[index], owner)
            invariant
                self.inv(),
                self@.is_owner(*owner),
                index < self.owners@.len(),
                forall|j: int| 0 <= j < index ==> self.owners@[j] != *owner,
            decreases self.owners@.len() - index,
        {
            assert(self.owners@[self@.owners.index_of(*owner)] == *owner);
            index += 1;
        }
        index as u32
    }

    /// Remove the transaction identified by `trans_id` from the wallet.
    /// Also removes all confirmation state associated with it.
    fn take_transaction(&mut self, trans_id: TransactionId) -> (transaction: Option<Transaction>)
        requires
            old(self).inv(),
        ensures
            final(self).inv(),
            final(self)@ == old(self)@.take(trans_id),
            transaction is Some <==> old(self)@.holds(trans_id),
            transaction is Some ==> transaction->0 == old(self)@.transactions.items[trans_id],
    {
        proof {
            crate::preservation::lemma_take_keeps_inv(self@, trans_id);
        }
        let ghost before = self@;
        let transaction = self.transactions.take(trans_id);
        if transaction.is_some() {
            self.clean_transaction_confirmations(trans_id);
        }
        assert(self@ =~= before.take(trans_id));
        transaction
    }

    /// Remove all confirmation state associated with `owner`.
    /// Also lowers the confirmation counts that `owner` was part of.
    fn clean_owner_confirmations(&mut self, owner: &AccountId)
        requires
            old(self)@.transactions.inv(),
            forall|id: TransactionId| #[trigger]
                old(self)@.confirmations.contains((id, *owner)) ==> old(self)@.holds(id)
                    && old(self)@.confirmation_count.contains_key(id)
                    && old(self)@.confirmation_count[id] > 0,
        ensures
            final(self).owner_check_is_right() == old(self).owner_check_is_right(),
            final(self)@ == old(self)@.forget_owner(*owner),
    {
        let ghost before = *self;
        let slots = self.transactions.slots();
        let mut id: u32 = 0;
        while id < slots
            invariant
                id <= slots,
                slots == before@.transactions.slots,
                before@.transactions.inv(),
                forall|t: TransactionId| #[trigger]
                    before@.confirmations.contains((t, *owner)) ==> before@.holds(t)
                        && before@.confirmation_count.contains_key(t)
                        && before@.confirmation_count[t] > 0,
                self.transactions == before.transactions,
                self.owners == before.owners,
                self.is_owner == before.is_owner,
                self.requirement == before.requirement,
                forall|key: (TransactionId, AccountId)| #[trigger]
                    self.confirmations@.contains_key(key) <==> before.confirmations@.contains_key(
                        key,
                    ) && !(key.0 < id && key.1 == *owner),
                forall|t: TransactionId| #[trigger]
                    self.confirmation_count@.contains_key(t)
                        <==> before.confirmation_count@.contains_key(t),
                forall|t: TransactionId| #[trigger]
                    self.confirmation_count@.contains_key(t) ==> self.confirmation_count@[t]
                        == before.confirmation_count@[t] - (if t < id
                        && before.confirmations@.contains_key((t, *owner)) {
                        1int
                    } else {
                        0int
                    }),
            decreases slots - id,
        {
            assert(before@.confirmations.contains((id, *owner)) ==> before@.holds(id));
            if self.transactions.get(id).is_some() {
                if self.confirmations.remove(&(id, *owner)).is_some() {
                    assert(before@.confirmations.contains((id, *owner)));
                    assert(before@.confirmation_count[id] > 0);
                    let count: u32 = match self.confirmation_count.get(&id) {
                        Some(n) => *n,
                        None => 1,
                    };
                    self.confirmation_count.insert(id, count - 1);
                }
            }
            id += 1;
        }
        proof {
            let after = before@.forget_owner(*owner);
            assert forall|key: (TransactionId, AccountId)|
                self@.confirmations.contains(key) <==> after.confirmations.contains(key) by {
                if key.1 == *owner && before@.confirmations.contains(key) {
                    assert(before@.confirmations.contains((key.0, *owner)));
                    assert(before@.transactions.items.contains_key(key.0));
                }
            }
            assert(self@.confirmations =~= after.confirmations);
            assert forall|t: TransactionId| before@.confirmation_count.contains_key(
                t,
            ) implies self@.confirmation_count[t] == after.confirmation_count[t] by {
                assert(self.confirmation_count@.contains_key(t));
                if before@.confirmations.contains((t, *owner)) {
                    assert(before@.transactions.items.contains_key(t));
                }
            }
            assert(self@.confirmation_count =~= after.confirmation_count);
        }
    }

    /// This removes all confirmation state associated with `transaction`.
    fn clean_transaction_confirmations(&mut self, transaction: TransactionId)
        requires
            forall|account: AccountId| #[trigger]
                old(self)@.confirmations.contains((transaction, account)) ==> old(self)@.is_owner(
                    account,
                ),
        ensures
            final(self).owner_check_is_right() == old(self).owner_check_is_right(),
            final(self)@ == (Wallet {
                confirmations: old(self)@.confirmations.filter(
                    |key: (TransactionId, AccountId)| key.0 != transaction,
                ),
                confirmation_count: old(self)@.confirmation_count.remove(transaction),
                ..old(self)@
            }),
    {
        let ghost before = *self;
        let mut i: usize = 0;
        while i < self.owners.len()
            invariant
                i <= self.owners@.len(),
                self.confirmation_count == before.confirmation_count,
                self.transactions == before.transactions,
                self.owners == before.owners,
                self.is_owner == before.is_owner,
                self.requirement == before.requirement,
                forall|key: (TransactionId, AccountId)| #[trigger]
                    self.confirmations@.contains_key(key) <==> before.confirmations@.contains_key(
                        key,
                    ) && !(key.0 == transaction && self.owners@.take(i as int).contains(key.1)),
            decreases self.owners@.len() - i,
        {
            let owner = self.owners[i];
            self.confirmations.remove(&(transaction, owner));
            proof {
                let seen = self.owners@.take(i as int);
                let now = self.owners@.take(i + 1);
                assert(now =~= seen.push(owner));
                assert forall|account: AccountId| now.contains(account) == (account == owner
                    || seen.contains(account)) by {
                    assert(now[i as int] == owner);
                    if seen.contains(account) {
                        let j = seen.index_of(account);
                        assert(now[j] == account);
                    }
                }
            }
            i += 1;
        }
        self.confirmation_count.remove(&transaction);
        proof {
            assert(self.owners@.take(i as int) =~= self.owners@);
            assert forall|key: (TransactionId, AccountId)| self@.confirmations.contains(key) <==> (
            before@.confirmations.contains(key) && key.0 != transaction) by {
                if key.0 == transaction && before@.confirmations.contains(key) {
                    assert(before@.confirmations.contains((transaction, key.1)));
                }
            }
            assert(self@.confirmations =~= before@.confirmations.filter(
                |key: (TransactionId, AccountId)| key.0 != transaction,
            ));
            assert(self@.confirmation_count =~= before@.confirmation_count.remove(transaction));
        }
    }

    /// Tells whether transaction `trans_id` is confirmed by at least as many owners as the
    /// requirement asks for.
    pub fn ensure_confirmed(&self, trans_id: TransactionId) -> (result: Result<(), Refusal>)
        requires
            self.inv(),
        ensures
            result == crate::types::verdict(self@.execute_refusal(trans_id)),
    {
        assert(self@.confirmation_count.contains_key(trans_id) <==> self@.holds(trans_id));
        match self.confirmation_count.get(&trans_id) {
            None => Err(Refusal::WrongTransactionId),
            Some(count) => if *count >= self.requirement {
                Ok(())
            } else {
                Err(Refusal::NotConfirmed)
            },
        }
    }

    /// Tells whether the wallet holds the transaction `trans_id`.
    pub fn ensure_transaction_exists(&self, trans_id: TransactionId) -> (result: Result<
        (),
        Refusal,
    >)
        ensures
            result == crate::types::verdict(
                if self@.holds(trans_id) {
                    None
                } else {
                    Some(Refusal::WrongTransactionId)
                },
            ),
    {
        match self.transactions.get(trans_id) {
            Some(_) => Ok(()),
            None => Err(Refusal::WrongTransactionId),
        }
    }

    /// Tells whether another transaction can get an id.
    pub fn ensure_transaction_id_left(&self) -> (result: Result<(), Refusal>)
        requires
            self.inv(),
        ensures
            result == crate::types::verdict(
                if self@.transactions.is_full() {
                    Some(Refusal::OutOfTransactionIds)
                } else {
                    None
                },
            ),
    {
        if self.transactions.is_full() {
            Err(Refusal::OutOfTransactionIds)
        } else {
            Ok(())
        }
    }

    /// Tells whether the sender is an owner of the wallet.
    pub fn ensure_caller_is_owner(&self, env: &Env) -> (result: Result<(), Refusal>)
        requires
            self.inv(),
        ensures
            result == crate::types::verdict(
                if self@.is_owner(env.caller) {
                    None
                } else {
                    Some(Refusal::NotAnOwner)
                },
            ),
    {
        self.ensure_owner(&env.caller)
    }

    /// Tells whether the sender is this wallet.
    pub fn ensure_from_wallet(&self, env: &Env) -> (result: Result<(), Refusal>)
        ensures
            result == crate::types::verdict(
                if env.from_wallet() {
                    None
                } else {
                    Some(Refusal::NotFromWallet)
                },
            ),
    {
        if same_account(&env.caller, &env.account_id) {
            Ok(())
        } else {
            Err(Refusal::NotFromWallet)
        }
    }

    /// Tells whether `owner` is an owner.
    pub fn ensure_owner(&self, owner: &AccountId) -> (result: Result<(), Refusal>)
        requires
            self.inv(),
        ensures
            result == crate::types::verdict(
                if self@.is_owner(*owner) {
                    None
                } else {
                    Some(Refusal::NotAnOwner)
                },
            ),
    {
        assert(self@.is_owner(*owner) == self.owners@.to_set().contains(*owner));
        if self.is_owner.contains_key(owner) {
            Ok(())
        } else {
            Err(Refusal::NotAnOwner)
        }
    }

    /// Tells whether `owner` is no owner.
    pub fn ensure_no_owner(&self, owner: &AccountId) -> (result: Result<(), Refusal>)
        requires
            self.inv(),
        ensures
            result == crate::types::verdict(
                if self@.is_owner(*owner) {
                    Some(Refusal::AlreadyAnOwner)
                } else {
                    None
                },
            ),
    {
        match self.ensure_owner(owner) {
            Ok(()) => Err(Refusal::AlreadyAnOwner),
            Err(_) => Ok(()),
        }
    }

    /// The owners in the order in which the wallet lists them.
    pub fn owners(&self) -> (owners: &Vec<AccountId>)
        ensures
            owners@ == self@.owners,
    {
        &self.owners
    }

    /// Minimum number of owners that have to confirm a transaction to be executed.
    pub fn requirement(&self) -> (requirement: u32)
        ensures
            requirement == self@.requirement,
    {
        self.requirement
    }

    /// The transactions that await execution.
    pub fn transactions(&self) -> (transactions: &Stash<Transaction>)
        ensures
            transactions@ == self@.transactions,
    {
        &self.transactions
    }

    /// Tells whether `account` has confirmed transaction `trans_id`.
    pub fn has_confirmed(&self, trans_id: TransactionId, account: AccountId) -> (confirmed: bool)
        ensures
            confirmed == self@.confirmations.contains((trans_id, account)),
    {
        self.confirmations.contains_key(&(trans_id, account))
    }

    /// How many confirmations there are, over all transactions.
    pub fn number_of_confirmations(&self) -> (n: usize)
        ensures
            n == self@.confirmations.len(),
    {
        self.confirmations.len()
    }

    /// How many transactions have a confirmation count.
    pub fn number_of_confirmation_counts(&self) -> (n: usize)
        ensures
            n == self@.confirmation_count.len(),
    {
        assert(self@.confirmation_count.dom() =~= self.confirmation_count@.dom());
        self.confirmation_count.len()
    }

    /// How many confirmations transaction `trans_id` has, if the wallet holds it.
    pub fn confirmation_count(&self, trans_id: TransactionId) -> (count: Option<u32>)
        ensures
            count is Some <==> self@.confirmation_count.contains_key(trans_id),
            count is Some ==> count->0 == self@.confirmation_count[trans_id],
    {
        match self.confirmation_count.get(&trans_id) {
            Some(count) => Some(*count),
            None => None,
        }
    }
}

/// Tells whether the number of `owners` goes together with the `requirement`.
pub fn ensure_requirement_is_valid(owners: u32, requirement: u32) -> (result: Result<(), Refusal>)
    ensures
        result == crate::types::verdict(
            if crate::model::requirement_is_valid(owners as nat, requirement as nat) {
                None
            } else {
                Some(Refusal::InvalidRequirement)
            },
        ),
{
    if 0 < requirement && requirement <= owners && owners <= MAX_OWNERS {
        Ok(())
    } else {
        Err(Refusal::InvalidRequirement)
    }
}

} // verus!
