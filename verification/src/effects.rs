//! What each message asks for, field by field: when it is turned down and why, what the
//! wallet holds afterwards, what it answers and what it emits.
use crate::env::{
    Cancelation, Confirmation, Env, Event, Execution, OwnerAddition, OwnerRemoval,
    RequirementChange, Revokation, Submission,
};
use crate::message::{Message, Reply};
use crate::model::{Wallet, MAX_OWNERS};
use crate::preservation;
use crate::types::{
    AccountId, CallMode, ConfirmationStatus, Refusal, Transaction, TransactionId,
};
use vstd::prelude::*;

verus! {

/// A number of owners goes together with a requirement exactly if the requirement is at
/// least one and at most that number, and there are at most fifty owners.
pub proof fn law_valid_requirements(owners: nat, requirement: nat)
    ensures
        crate::model::requirement_is_valid(owners, requirement) <==> 1 <= requirement <= owners
            <= 50,
        MAX_OWNERS == 50,
{
}

/// Dropping repetitions keeps each account once, at the place of its first occurrence:
/// wherever an account occurs that is kept, those that are kept in front of it have occurred
/// before.
pub proof fn law_first_occurrences_are_kept_in_order(accounts: Seq<AccountId>)
    ensures
        ({
            let kept = crate::model::distinct(accounts);
            &&& forall|i: int, j: int| 0 <= i < j < kept.len() ==> kept[i] != kept[j]
            &&& forall|account: AccountId| #[trigger]
                kept.contains(account) <==> accounts.contains(account)
            &&& forall|i: int, j: int, k: int|
                0 <= i < j < kept.len() && 0 <= k < accounts.len() && #[trigger] accounts[k]
                    == #[trigger] kept[j] ==> accounts.take(k).contains(#[trigger] kept[i])
        }),
    decreases accounts.len(),
{
    preservation::lemma_distinct(accounts);
    let kept = crate::model::distinct(accounts);
    assert forall|account: AccountId| #[trigger] kept.contains(account) <==> accounts.contains(
        account,
    ) by {
        assert(kept.to_set().contains(account) == accounts.to_set().contains(account));
    }
    if accounts.len() > 0 {
        let front = accounts.drop_last();
        law_first_occurrences_are_kept_in_order(front);
        let earlier = crate::model::distinct(front);
        assert forall|i: int, j: int, k: int|
            0 <= i < j < kept.len() && 0 <= k < accounts.len() && #[trigger] accounts[k]
                == #[trigger] kept[j] implies accounts.take(k).contains(#[trigger] kept[i]) by {
            assert(earlier.contains(earlier[i]));
            if k < front.len() {
                assert(front[k] == kept[j]);
                assert(front.contains(kept[j]));
                assert(earlier.contains(kept[j]));
                assert(front.take(k).contains(earlier[i]));
                assert(accounts.take(k) =~= front.take(k));
            } else {
                assert(accounts.take(k) =~= front);
            }
        }
    }
}

/// A wallet that is set up has exactly the given requirement, holds no transaction, has no
/// confirmation and no confirmation count, and hands out its first transaction id next. Its
/// owners are the given accounts.
pub proof fn law_setting_up(requirement: u32, owners: Seq<AccountId>)
    ensures
        ({
            let wallet = Wallet::initial(requirement, owners);
            &&& wallet.requirement == requirement
            &&& forall|account: AccountId| #[trigger]
                wallet.owners.contains(account) <==> owners.contains(account)
            &&& wallet.owners.len() == owners.to_set().len()
            &&& wallet.owners == crate::model::distinct(owners)
            &&& forall|id: TransactionId| !#[trigger] wallet.transactions.items.contains_key(id)
            &&& wallet.transactions.vacant.len() == 0
            &&& wallet.transactions.slots == 0
            &&& forall|id: TransactionId, account: AccountId|
                !#[trigger] wallet.confirmations.contains((id, account))
            &&& forall|id: TransactionId| !#[trigger] wallet.confirmation_count.contains_key(id)
        }),
{
    law_first_occurrences_are_kept_in_order(owners);
    preservation::lemma_distinct(owners);
    crate::model::distinct(owners).unique_seq_to_set();
}

/// What a wallet says of itself is what its lists say: who is an owner, which transactions
/// it holds, who has confirmed one and how many, and how many are missing.
pub proof fn law_what_a_wallet_says_of_itself(
    wallet: Wallet,
    id: TransactionId,
    account: AccountId,
)
    ensures
        wallet.is_owner(account) <==> exists|i: int|
            0 <= i < wallet.owners.len() && wallet.owners[i] == account,
        wallet.holds(id) <==> wallet.transactions.items.contains_key(id),
        wallet.confirmers(id).contains(account) <==> wallet.confirmations.contains((id, account)),
        wallet.confirmation_count.contains_key(id) ==> wallet.count(id)
            == wallet.confirmation_count[id],
        !wallet.confirmation_count.contains_key(id) ==> wallet.count(id) == 0,
        wallet.is_confirmed(id) <==> wallet.count(id) >= wallet.requirement,
        wallet.status(id) == ConfirmationStatus::Confirmed <==> wallet.count(id)
            >= wallet.requirement,
        wallet.status(id) matches ConfirmationStatus::ConfirmationsNeeded(missing) ==> missing
            + wallet.count(id) == wallet.requirement,
{
}

/// The parts of the invariant: the requirement can be met, no owner is listed twice, exactly
/// the transactions that the wallet holds have a count, whoever has confirmed is an owner and
/// has confirmed a transaction that the wallet holds, and each count is the number of the
/// accounts that have confirmed. Of the ids that were ever handed out each is in use or was
/// given back, never both.
pub proof fn law_parts_of_the_invariant(wallet: Wallet, id: TransactionId, account: AccountId)
    requires
        wallet.inv(),
    ensures
        1 <= wallet.requirement <= wallet.owners.len() <= 50,
        forall|i: int, j: int|
            0 <= i < j < wallet.owners.len() ==> wallet.owners[i] != wallet.owners[j],
        wallet.confirmation_count.contains_key(id) <==> wallet.transactions.items.contains_key(id),
        wallet.confirmations.contains((id, account)) ==> wallet.owners.contains(account)
            && wallet.transactions.items.contains_key(id),
        wallet.transactions.items.contains_key(id) ==> wallet.confirmation_count[id] == Set::new(
            |confirmer: AccountId| wallet.confirmations.contains((id, confirmer)),
        ).len(),
        wallet.transactions.slots <= u32::MAX,
        wallet.transactions.items.contains_key(id) <==> id < wallet.transactions.slots
            && !wallet.transactions.vacant.contains(id),
        forall|i: int, j: int|
            0 <= i < j < wallet.transactions.vacant.len() ==> wallet.transactions.vacant[i]
                != wallet.transactions.vacant[j],
{
    if wallet.transactions.items.contains_key(id) {
        assert(wallet.confirmation_count.contains_key(id));
        assert(wallet.confirmers(id) =~= Set::new(
            |confirmer: AccountId| wallet.confirmations.contains((id, confirmer)),
        ));
    }
}

/// The events of a message go behind those that were there; who sent the message and to
/// which wallet does not change.
pub proof fn law_events_are_appended(after: Env, before: Env, events: Seq<Event>)
    ensures
        after.emitted(before, events) <==> {
            &&& after.caller.0 == before.caller.0
            &&& after.caller.1 == before.caller.1
            &&& after.account_id.0 == before.account_id.0
            &&& after.account_id.1 == before.account_id.1
            &&& after.events@.len() == before.events@.len() + events.len()
            &&& forall|i: int| 0 <= i < before.events@.len() ==> after.events@[i] == before.events@[i]
            &&& forall|i: int|
                0 <= i < events.len() ==> after.events@[before.events@.len() + i] == #[trigger] events[i]
        },
{
    if after.events@.len() == before.events@.len() + events.len() && (forall|i: int|
        0 <= i < before.events@.len() ==> after.events@[i] == before.events@[i]) && (forall|i: int|
        0 <= i < events.len() ==> after.events@[before.events@.len() + i]
            == #[trigger] events[i]) {
        let all = before.events@ + events;
        assert forall|i: int| 0 <= i < all.len() implies after.events@[i] == all[i] by {
            if i >= before.events@.len() {
                assert(all[i] == events[i - before.events@.len()]);
            }
        }
        assert(after.events@ =~= all);
    }
    if after.emitted(before, events) {
        assert forall|i: int| 0 <= i < events.len() implies after.events@[before.events@.len() + i]
            == #[trigger] events[i] by {
            assert((before.events@ + events)[before.events@.len() + i] == events[i]);
        }
    }
}

/// A message comes from the wallet exactly if its sender is the account of the wallet.
pub proof fn law_messages_from_the_wallet(env: Env)
    ensures
        env.from_wallet() <==> env.caller.0 == env.account_id.0 && env.caller.1
            == env.account_id.1,
{
}

/// A check succeeds exactly if there is no reason against, and else names the reason.
pub proof fn law_checks_name_their_reason(reason: Option<Refusal>)
    ensures
        crate::types::verdict(reason) is Ok <==> reason is None,
        reason is Some ==> crate::types::verdict(reason) == Err::<(), Refusal>(reason->0),
{
}

/// An execution event tells the output exactly if the call succeeded and its output was
/// wanted.
pub proof fn law_outputs_of_executions(execution: Execution)
    ensures
        execution.output() is Err <==> execution.result is Err,
        execution.result matches Ok(None) ==> execution.output() == Ok::<Option<Seq<u8>>, ()>(None),
        execution.result matches Ok(Some(bytes)) ==> execution.output() == Ok::<
            Option<Seq<u8>>,
            (),
        >(Some(bytes@)),
{
}

/// A message is either refused, and then the wallet is what it was, or accepted.
pub proof fn law_refused_or_accepted(wallet: Wallet, env: Env, message: Message)
    ensures
        wallet.refusal(env, message) is Some ==> wallet.step(env, message) == wallet,
        wallet.refusal(env, message) is None ==> wallet.step(env, message) == wallet.accept(
            env.caller,
            message,
        ),
{
}

/// Adding an owner is refused to anybody but the wallet, for somebody who is an owner, and
/// where there are fifty owners; and in no other case.
pub proof fn law_when_an_owner_can_be_added(wallet: Wallet, env: Env, new_owner: AccountId)
    requires
        wallet.inv(),
    ensures
        ({
            let refusal = wallet.refusal(env, Message::AddOwner { new_owner });
            let from_wallet = env.caller == env.account_id;
            let known = wallet.owners.contains(new_owner);
            &&& refusal == Some(Refusal::NotFromWallet) <==> !from_wallet
            &&& refusal == Some(Refusal::AlreadyAnOwner) <==> from_wallet && known
            &&& refusal == Some(Refusal::InvalidRequirement) <==> from_wallet && !known
                && wallet.owners.len() == 50
            &&& refusal is None <==> from_wallet && !known && wallet.owners.len() < 50
            &&& wallet.add_owner_refusal(env, new_owner) == refusal
        }),
{
}

/// Adding an owner puts that account behind the owners there are and changes nothing else:
/// not the requirement, the transactions, the confirmations or their counts.
pub proof fn law_adding_an_owner(wallet: Wallet, caller: AccountId, new_owner: AccountId)
    ensures
        ({
            let message = Message::AddOwner { new_owner };
            let after = wallet.accept(caller, message);
            &&& after.owners.len() == wallet.owners.len() + 1
            &&& forall|i: int| 0 <= i < wallet.owners.len() ==> after.owners[i] == wallet.owners[i]
            &&& after.owners[wallet.owners.len() as int] == new_owner
            &&& after.requirement == wallet.requirement
            &&& after.transactions == wallet.transactions
            &&& after.confirmations == wallet.confirmations
            &&& after.confirmation_count == wallet.confirmation_count
            &&& wallet.add_owner(new_owner) == after
            &&& wallet.reply(caller, message) == Reply::Done
            &&& wallet.events(caller, message) == seq![
                Event::OwnerAddition(OwnerAddition { owner: new_owner }),
            ]
        }),
{
}

/// Removing an owner is refused to anybody but the wallet, for somebody who is no owner, and
/// for the only owner; and in no other case.
pub proof fn law_when_an_owner_can_be_removed(wallet: Wallet, env: Env, owner: AccountId)
    requires
        wallet.inv(),
    ensures
        ({
            let refusal = wallet.refusal(env, Message::RemoveOwner { owner });
            let from_wallet = env.caller == env.account_id;
            let known = wallet.owners.contains(owner);
            &&& refusal == Some(Refusal::NotFromWallet) <==> !from_wallet
            &&& refusal == Some(Refusal::NotAnOwner) <==> from_wallet && !known
            &&& refusal == Some(Refusal::InvalidRequirement) <==> from_wallet && known
                && wallet.owners.len() == 1
            &&& refusal is None <==> from_wallet && known && wallet.owners.len() > 1
            &&& wallet.remove_owner_refusal(env, owner) == refusal
        }),
{
}

/// Removing an owner puts the last owner in the place of that one and leaves the other
/// owners where they are; lowers the requirement to the number of owners where it would be
/// more; drops the confirmations of that owner and no others, one from each count that the
/// owner was part of; and leaves the transactions alone.
pub proof fn law_removing_an_owner(wallet: Wallet, caller: AccountId, owner: AccountId)
    requires
        wallet.inv(),
        wallet.owners.contains(owner),
        wallet.owners.len() > 1,
    ensures
        ({
            let message = Message::RemoveOwner { owner };
            let after = wallet.accept(caller, message);
            &&& after.owners.len() == wallet.owners.len() - 1
            &&& forall|i: int|
                0 <= i < after.owners.len() ==> #[trigger] after.owners[i] == (
                if wallet.owners[i] == owner {
                    wallet.owners[wallet.owners.len() - 1]
                } else {
                    wallet.owners[i]
                })
            &&& wallet.requirement < wallet.owners.len() ==> after.requirement
                == wallet.requirement
            &&& wallet.requirement == wallet.owners.len() ==> after.requirement
                == wallet.requirement - 1
            &&& after.transactions == wallet.transactions
            &&& forall|id: TransactionId, account: AccountId| #[trigger]
                after.confirmations.contains((id, account)) <==> account != owner
                    && wallet.confirmations.contains((id, account))
            &&& forall|id: TransactionId| #[trigger]
                after.confirmation_count.contains_key(id)
                    <==> wallet.confirmation_count.contains_key(id)
            &&& forall|id: TransactionId| #[trigger]
                after.confirmation_count.contains_key(id) && wallet.confirmations.contains(
                    (id, owner),
                ) ==> after.confirmation_count[id] + 1 == wallet.confirmation_count[id]
            &&& forall|id: TransactionId| #[trigger]
                after.confirmation_count.contains_key(id) && !wallet.confirmations.contains(
                    (id, owner),
                ) ==> after.confirmation_count[id] == wallet.confirmation_count[id]
            &&& wallet.remove_owner(owner) == after
            &&& wallet.reply(caller, message) == Reply::Done
            &&& wallet.events(caller, message) == seq![Event::OwnerRemoval(OwnerRemoval { owner })]
        }),
{
    let after = wallet.accept(caller, Message::RemoveOwner { owner });
    let at = wallet.owners.index_of(owner);
    assert(wallet.owners[at] == owner);
    assert forall|id: TransactionId| #[trigger]
        after.confirmation_count.contains_key(id) && wallet.confirmations.contains(
            (id, owner),
        ) implies after.confirmation_count[id] + 1 == wallet.confirmation_count[id] by {
        preservation::lemma_confirmers_finite(wallet, id);
        assert(wallet.confirmers(id).contains(owner));
    }
}

/// Replacing an owner is refused to anybody but the wallet, where the old owner is none, and
/// where the new one is an owner; and in no other case.
pub proof fn law_when_an_owner_can_be_replaced(
    wallet: Wallet,
    env: Env,
    old_owner: AccountId,
    new_owner: AccountId,
)
    requires
        wallet.inv(),
    ensures
        ({
            let refusal = wallet.refusal(env, Message::ReplaceOwner { old_owner, new_owner });
            let from_wallet = env.caller == env.account_id;
            let known = wallet.owners.contains(old_owner);
            let taken = wallet.owners.contains(new_owner);
            &&& refusal == Some(Refusal::NotFromWallet) <==> !from_wallet
            &&& refusal == Some(Refusal::NotAnOwner) <==> from_wallet && !known
            &&& refusal == Some(Refusal::AlreadyAnOwner) <==> from_wallet && known && taken
            &&& refusal is None <==> from_wallet && known && !taken
            &&& wallet.replace_owner_refusal(env, old_owner, new_owner) == refusal
        }),
{
}

/// Replacing an owner puts the new one in the place of the old one and leaves the other
/// owners where they are; drops the confirmations of the old owner and no others, one from
/// each count that the old owner was part of; and leaves the requirement and the
/// transactions alone.
pub proof fn law_replacing_an_owner(
    wallet: Wallet,
    caller: AccountId,
    old_owner: AccountId,
    new_owner: AccountId,
)
    requires
        wallet.inv(),
        wallet.owners.contains(old_owner),
    ensures
        ({
            let message = Message::ReplaceOwner { old_owner, new_owner };
            let after = wallet.accept(caller, message);
            &&& after.owners.len() == wallet.owners.len()
            &&& forall|i: int|
                0 <= i < after.owners.len() ==> #[trigger] after.owners[i] == (
                if wallet.owners[i] == old_owner {
                    new_owner
                } else {
                    wallet.owners[i]
                })
            &&& after.requirement == wallet.requirement
            &&& after.transactions == wallet.transactions
            &&& forall|id: TransactionId, account: AccountId| #[trigger]
                after.confirmations.contains((id, account)) <==> account != old_owner
                    && wallet.confirmations.contains((id, account))
            &&& forall|id: TransactionId| #[trigger]
                after.confirmation_count.contains_key(id)
                    <==> wallet.confirmation_count.contains_key(id)
            &&& forall|id: TransactionId| #[trigger]
                after.confirmation_count.contains_key(id) && wallet.confirmations.contains(
                    (id, old_owner),
                ) ==> after.confirmation_count[id] + 1 == wallet.confirmation_count[id]
            &&& forall|id: TransactionId| #[trigger]
                after.confirmation_count.contains_key(id) && !wallet.confirmations.contains(
                    (id, old_owner),
                ) ==> after.confirmation_count[id] == wallet.confirmation_count[id]
            &&& wallet.replace_owner(old_owner, new_owner) == after
            &&& wallet.reply(caller, message) == Reply::Done
            &&& wallet.events(caller, message) == seq![
                Event::OwnerRemoval(OwnerRemoval { owner: old_owner }),
                Event::OwnerAddition(OwnerAddition { owner: new_owner }),
            ]
        }),
{
    let after = wallet.accept(caller, Message::ReplaceOwner { old_owner, new_owner });
    let at = wallet.owners.index_of(old_owner);
    assert(wallet.owners[at] == old_owner);
    assert forall|id: TransactionId| #[trigger]
        after.confirmation_count.contains_key(id) && wallet.confirmations.contains(
            (id, old_owner),
        ) implies after.confirmation_count[id] + 1 == wallet.confirmation_count[id] by {
        preservation::lemma_confirmers_finite(wallet, id);
        assert(wallet.confirmers(id).contains(old_owner));
    }
}

/// A change of the requirement is refused to anybody but the wallet, and where the new one is
/// zero or more than the number of owners; and in no other case.
pub proof fn law_when_the_requirement_can_be_changed(
    wallet: Wallet,
    env: Env,
    new_requirement: u32,
)
    requires
        wallet.inv(),
    ensures
        ({
            let refusal = wallet.refusal(env, Message::ChangeRequirement { new_requirement });
            let from_wallet = env.caller == env.account_id;
            let fits = 1 <= new_requirement <= wallet.owners.len();
            &&& refusal == Some(Refusal::NotFromWallet) <==> !from_wallet
            &&& refusal == Some(Refusal::InvalidRequirement) <==> from_wallet && !fits
            &&& refusal is None <==> from_wallet && fits
            &&& wallet.change_requirement_refusal(env, new_requirement) == refusal
        }),
{
}

/// A change of the requirement sets it to the new value and changes nothing else.
pub proof fn law_changing_the_requirement(wallet: Wallet, caller: AccountId, new_requirement: u32)
    ensures
        ({
            let message = Message::ChangeRequirement { new_requirement };
            let after = wallet.accept(caller, message);
            &&& after.requirement == new_requirement
            &&& after.owners == wallet.owners
            &&& after.transactions == wallet.transactions
            &&& after.confirmations == wallet.confirmations
            &&& after.confirmation_count == wallet.confirmation_count
            &&& wallet.change_requirement(new_requirement) == after
            &&& wallet.reply(caller, message) == Reply::Done
            &&& wallet.events(caller, message) == seq![
                Event::RequirementChange(RequirementChange { new_requirement }),
            ]
        }),
{
}

/// Submitting is refused to anybody but an owner, and where every transaction id is in use;
/// and in no other case.
pub proof fn law_when_a_transaction_can_be_submitted(
    wallet: Wallet,
    env: Env,
    transaction: Transaction,
)
    ensures
        ({
            let refusal = wallet.refusal(env, Message::SubmitTransaction { transaction });
            let known = wallet.owners.contains(env.caller);
            let full = wallet.transactions.vacant.len() == 0 && wallet.transactions.slots
                >= u32::MAX;
            &&& refusal == Some(Refusal::NotAnOwner) <==> !known
            &&& refusal == Some(Refusal::OutOfTransactionIds) <==> known && full
            &&& refusal is None <==> known && !full
            &&& wallet.submit_refusal(env) == refusal
        }),
{
}

/// A submitted transaction is stored, as it was given, under an id that was not in use: the
/// one that was given back last, or else one more than ever was in use. That id is the one in
/// the answer. The transaction is confirmed by its submitter, with a count of one. All other
/// transactions, confirmations and counts, the owners and the requirement stay. A submission
/// event and a confirmation event are emitted.
pub proof fn law_submitting_a_transaction(
    wallet: Wallet,
    caller: AccountId,
    transaction: Transaction,
)
    requires
        wallet.inv(),
        wallet.owners.contains(caller),
        wallet.transactions.vacant.len() > 0 || wallet.transactions.slots < u32::MAX,
    ensures
        ({
            let message = Message::SubmitTransaction { transaction };
            let after = wallet.accept(caller, message);
            &&& wallet.reply(caller, message) matches Reply::Submitted(id, status)
            &&& !wallet.transactions.items.contains_key(id)
            &&& wallet.transactions.vacant.len() == 0 ==> id == wallet.transactions.slots
            &&& wallet.transactions.vacant.len() > 0 ==> id
                == wallet.transactions.vacant[wallet.transactions.vacant.len() - 1]
            &&& after.transactions.items.contains_key(id)
            &&& after.transactions.items[id] == transaction
            &&& forall|other: TransactionId|
                other != id ==> (#[trigger] after.transactions.items.contains_key(other)
                    <==> wallet.transactions.items.contains_key(other))
            &&& forall|other: TransactionId|
                other != id && #[trigger] wallet.transactions.items.contains_key(other)
                    ==> after.transactions.items[other] == wallet.transactions.items[other]
            &&& wallet.transactions.vacant.len() == 0 ==> after.transactions.vacant.len() == 0
                && after.transactions.slots == wallet.transactions.slots + 1
            &&& wallet.transactions.vacant.len() > 0 ==> after.transactions.vacant.push(id)
                == wallet.transactions.vacant && after.transactions.slots
                == wallet.transactions.slots
            &&& forall|other: TransactionId, account: AccountId| #[trigger]
                after.confirmations.contains((other, account)) <==> (other == id && account
                    == caller) || wallet.confirmations.contains((other, account))
            &&& after.confirmation_count.contains_key(id)
            &&& after.confirmation_count[id] == 1
            &&& forall|other: TransactionId|
                other != id ==> (#[trigger] after.confirmation_count.contains_key(other)
                    <==> wallet.confirmation_count.contains_key(other))
            &&& forall|other: TransactionId|
                other != id && #[trigger] wallet.confirmation_count.contains_key(other)
                    ==> after.confirmation_count[other] == wallet.confirmation_count[other]
            &&& after.owners == wallet.owners
            &&& after.requirement == wallet.requirement
            &&& wallet.requirement == 1 ==> status == ConfirmationStatus::Confirmed
            &&& wallet.requirement > 1 ==> status == ConfirmationStatus::ConfirmationsNeeded(
                (wallet.requirement - 1) as u32,
            )
            &&& wallet.submit(transaction, caller) == after
            &&& wallet.transactions.next_id() == id
            &&& wallet.events(caller, message) == seq![
                Event::Submission(Submission { transaction: id }),
                Event::Confirmation(Confirmation { transaction: id, from: caller, status }),
            ]
            &&& wallet.submit_events(transaction, caller) == wallet.events(caller, message)
        }),
{
    let message = Message::SubmitTransaction { transaction };
    let id = wallet.transactions.next_id();
    let after = wallet.accept(caller, message);
    preservation::lemma_submit_keeps_inv(wallet, transaction, caller);
    assert(!wallet.confirmations.contains((id, caller)));
    assert(!wallet.confirmation_count.contains_key(id));
    if wallet.transactions.vacant.len() > 0 {
        assert(after.transactions.vacant.push(id) =~= wallet.transactions.vacant);
    }
    let status = after.status(id);
    assert(wallet.events(caller, message) =~= seq![
        Event::Submission(Submission { transaction: id }),
        Event::Confirmation(Confirmation { transaction: id, from: caller, status }),
    ]);
}

/// Canceling is refused to anybody but the wallet, and in no other case.
pub proof fn law_when_a_transaction_can_be_canceled(wallet: Wallet, env: Env, trans_id: u32)
    ensures
        ({
            let refusal = wallet.refusal(env, Message::CancelTransaction { trans_id });
            let from_wallet = env.caller == env.account_id;
            &&& refusal == Some(Refusal::NotFromWallet) <==> !from_wallet
            &&& refusal is None <==> from_wallet
            &&& wallet.cancel_refusal(env) == refusal
        }),
{
}

/// Canceling a transaction that the wallet holds takes it out, see
/// [`law_taking_a_transaction_out`], and emits a cancelation event. Canceling any other does
/// nothing and emits nothing.
pub proof fn law_canceling_a_transaction(wallet: Wallet, caller: AccountId, trans_id: u32)
    ensures
        ({
            let message = Message::CancelTransaction { trans_id };
            &&& wallet.accept(caller, message) == wallet.take(trans_id)
            &&& wallet.reply(caller, message) == Reply::Done
            &&& wallet.cancel_events(trans_id) == wallet.events(caller, message)
            &&& wallet.transactions.items.contains_key(trans_id) ==> wallet.events(caller, message)
                == seq![Event::Cancelation(Cancelation { transaction: trans_id })]
            &&& !wallet.transactions.items.contains_key(trans_id) ==> wallet.events(
                caller,
                message,
            ).len() == 0 && wallet.accept(caller, message) == wallet
        }),
{
}

/// Taking out a transaction that the wallet holds removes it, all its confirmations and its
/// count, and gives its id back. All other transactions, confirmations and counts, the owners
/// and the requirement stay.
pub proof fn law_taking_a_transaction_out(wallet: Wallet, id: TransactionId)
    requires
        wallet.transactions.items.contains_key(id),
    ensures
        ({
            let after = wallet.take(id);
            &&& forall|other: TransactionId| #[trigger]
                after.transactions.items.contains_key(other) <==> other != id
                    && wallet.transactions.items.contains_key(other)
            &&& forall|other: TransactionId| #[trigger]
                after.transactions.items.contains_key(other)
                    ==> after.transactions.items[other] == wallet.transactions.items[other]
            &&& after.transactions.vacant.len() == wallet.transactions.vacant.len() + 1
            &&& after.transactions.vacant[wallet.transactions.vacant.len() as int] == id
            &&& forall|i: int|
                0 <= i < wallet.transactions.vacant.len() ==> after.transactions.vacant[i]
                    == wallet.transactions.vacant[i]
            &&& after.transactions.slots == wallet.transactions.slots
            &&& forall|other: TransactionId, account: AccountId| #[trigger]
                after.confirmations.contains((other, account)) <==> other != id
                    && wallet.confirmations.contains((other, account))
            &&& forall|other: TransactionId| #[trigger]
                after.confirmation_count.contains_key(other) <==> other != id
                    && wallet.confirmation_count.contains_key(other)
            &&& forall|other: TransactionId| #[trigger]
                after.confirmation_count.contains_key(other)
                    ==> after.confirmation_count[other] == wallet.confirmation_count[other]
            &&& after.owners == wallet.owners
            &&& after.requirement == wallet.requirement
        }),
{
}

/// Confirming a transaction and revoking a confirmation are refused to anybody but an owner,
/// and for a transaction that the wallet does not hold; and in no other case.
pub proof fn law_when_an_owner_can_vote(wallet: Wallet, env: Env, trans_id: TransactionId)
    ensures
        ({
            let refusal = wallet.refusal(env, Message::ConfirmTransaction { trans_id });
            let known = wallet.owners.contains(env.caller);
            let held = wallet.transactions.items.contains_key(trans_id);
            &&& refusal == Some(Refusal::NotAnOwner) <==> !known
            &&& refusal == Some(Refusal::WrongTransactionId) <==> known && !held
            &&& refusal is None <==> known && held
            &&& wallet.refusal(env, Message::RevokeConfirmation { trans_id }) == refusal
            &&& wallet.vote_refusal(env, trans_id) == refusal
        }),
{
}

/// After a confirmation the confirmers of the transaction are the earlier ones and the
/// caller, and its count has grown by one where the caller was not among them. The answer
/// tells how many more are missing. One confirmation event with that status is emitted, none
/// where the caller had confirmed before. Nothing else changes.
pub proof fn law_confirming_a_transaction(
    wallet: Wallet,
    caller: AccountId,
    trans_id: TransactionId,
)
    requires
        wallet.inv(),
        wallet.transactions.items.contains_key(trans_id),
    ensures
        ({
            let message = Message::ConfirmTransaction { trans_id };
            let after = wallet.accept(caller, message);
            let fresh = !wallet.confirmations.contains((trans_id, caller));
            &&& after.confirmations.contains((trans_id, caller))
            &&& forall|id: TransactionId, account: AccountId| #[trigger]
                after.confirmations.contains((id, account)) <==> (id == trans_id && account
                    == caller) || wallet.confirmations.contains((id, account))
            &&& forall|id: TransactionId| #[trigger]
                after.confirmation_count.contains_key(id)
                    <==> wallet.confirmation_count.contains_key(id)
            &&& forall|id: TransactionId|
                id != trans_id && #[trigger] wallet.confirmation_count.contains_key(id)
                    ==> after.confirmation_count[id] == wallet.confirmation_count[id]
            &&& fresh ==> after.confirmation_count[trans_id]
                == wallet.confirmation_count[trans_id] + 1
            &&& !fresh ==> after.confirmation_count[trans_id]
                == wallet.confirmation_count[trans_id]
            &&& after.transactions == wallet.transactions
            &&& after.owners == wallet.owners
            &&& after.requirement == wallet.requirement
            &&& wallet.reply(caller, message) matches Reply::Status(status)
            &&& after.confirmation_count[trans_id] >= wallet.requirement ==> status
                == ConfirmationStatus::Confirmed
            &&& after.confirmation_count[trans_id] < wallet.requirement ==> status
                == ConfirmationStatus::ConfirmationsNeeded(
                (wallet.requirement - after.confirmation_count[trans_id]) as u32,
            )
            &&& fresh ==> wallet.events(caller, message) == seq![
                Event::Confirmation(Confirmation { transaction: trans_id, from: caller, status }),
            ]
            &&& !fresh ==> wallet.events(caller, message).len() == 0
            &&& wallet.confirm(trans_id, caller) == after
            &&& wallet.confirm_events(trans_id, caller) == wallet.events(caller, message)
        }),
{
    assert(wallet.confirmation_count.contains_key(trans_id));
}

/// After a confirmation was revoked the confirmers of the transaction are the earlier ones
/// without the caller, its count has fallen by one, and one revokation event is emitted.
/// Where the caller had not confirmed the transaction nothing changes and nothing is emitted.
pub proof fn law_revoking_a_confirmation(
    wallet: Wallet,
    caller: AccountId,
    trans_id: TransactionId,
)
    requires
        wallet.inv(),
        wallet.transactions.items.contains_key(trans_id),
    ensures
        ({
            let message = Message::RevokeConfirmation { trans_id };
            let after = wallet.accept(caller, message);
            let confirmed = wallet.confirmations.contains((trans_id, caller));
            &&& !after.confirmations.contains((trans_id, caller))
            &&& forall|id: TransactionId, account: AccountId| #[trigger]
                after.confirmations.contains((id, account)) <==> !(id == trans_id && account
                    == caller) && wallet.confirmations.contains((id, account))
            &&& forall|id: TransactionId| #[trigger]
                after.confirmation_count.contains_key(id)
                    <==> wallet.confirmation_count.contains_key(id)
            &&& forall|id: TransactionId|
                id != trans_id && #[trigger] wallet.confirmation_count.contains_key(id)
                    ==> after.confirmation_count[id] == wallet.confirmation_count[id]
            &&& confirmed ==> after.confirmation_count[trans_id] + 1
                == wallet.confirmation_count[trans_id]
            &&& !confirmed ==> after.confirmation_count[trans_id]
                == wallet.confirmation_count[trans_id]
            &&& after.transactions == wallet.transactions
            &&& after.owners == wallet.owners
            &&& after.requirement == wallet.requirement
            &&& wallet.reply(caller, message) == Reply::Done
            &&& confirmed ==> wallet.events(caller, message) == seq![
                Event::Revokation(Revokation { transaction: trans_id, from: caller }),
            ]
            &&& !confirmed ==> wallet.events(caller, message).len() == 0
            &&& wallet.revoke(trans_id, caller) == after
            &&& wallet.revoke_events(trans_id, caller) == wallet.events(caller, message)
        }),
{
    preservation::lemma_confirmers_finite(wallet, trans_id);
    assert(wallet.confirmation_count.contains_key(trans_id));
    if wallet.confirmations.contains((trans_id, caller)) {
        assert(wallet.confirmers(trans_id).contains(caller));
    }
}

/// Executing is refused for a transaction that the wallet does not hold, and for one whose
/// count of confirmations is below the requirement; and in no other case, whoever asks.
pub proof fn law_when_a_transaction_can_be_executed(
    wallet: Wallet,
    env: Env,
    trans_id: TransactionId,
)
    requires
        wallet.inv(),
    ensures
        ({
            let refusal = wallet.refusal(env, Message::InvokeTransaction { trans_id });
            let held = wallet.transactions.items.contains_key(trans_id);
            let enough = wallet.confirmation_count[trans_id] >= wallet.requirement;
            &&& refusal == Some(Refusal::WrongTransactionId) <==> !held
            &&& refusal == Some(Refusal::NotConfirmed) <==> held && !enough
            &&& refusal is None <==> held && enough
            &&& wallet.refusal(env, Message::EvalTransaction { trans_id }) == refusal
            &&& wallet.execute_refusal(trans_id) == refusal
        }),
{
    if wallet.transactions.items.contains_key(trans_id) {
        assert(wallet.confirmation_count.contains_key(trans_id));
    }
}

/// Executing takes the transaction out, see [`law_taking_a_transaction_out`], emits nothing
/// yet, and hands out the call that the transaction describes: to its callee, with its
/// selector, gas limit, value and input bytes, and in the mode that was asked for.
pub proof fn law_executing_a_transaction(
    wallet: Wallet,
    caller: AccountId,
    trans_id: TransactionId,
)
    ensures
        ({
            let t = wallet.transactions.items[trans_id];
            let invoke = Message::InvokeTransaction { trans_id };
            let eval = Message::EvalTransaction { trans_id };
            &&& wallet.accept(caller, invoke) == wallet.take(trans_id)
            &&& wallet.accept(caller, eval) == wallet.take(trans_id)
            &&& wallet.events(caller, invoke).len() == 0
            &&& wallet.events(caller, eval).len() == 0
            &&& wallet.reply(caller, invoke) matches Reply::Call(call)
            &&& call.mode == CallMode::Invoke
            &&& call.callee == t.callee
            &&& call.selector == t.selector
            &&& call.gas_limit == t.gas_limit
            &&& call.transferred_value == t.transferred_value
            &&& call.input@ == t.input@
            &&& wallet.reply(caller, eval) matches Reply::Call(wanted)
            &&& wanted.mode == CallMode::Eval
            &&& wanted.callee == t.callee
            &&& wanted.selector == t.selector
            &&& wanted.gas_limit == t.gas_limit
            &&& wanted.transferred_value == t.transferred_value
            &&& wanted.input@ == t.input@
        }),
{
}

} // verus!
