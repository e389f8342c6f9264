use crate::env::{Env, Event};
use crate::message::Message;
use crate::model::Wallet;
use crate::preservation;
use crate::types::{AccountId, ConfirmationStatus, Refusal, Transaction, TransactionId};
use vstd::prelude::*;

verus! {

impl Wallet {
    /// The wallet after the messages of `history` have reached it one after the other.
    pub open spec fn run(self, history: Seq<(Env, Message)>) -> Self
        decreases history.len(),
    {
        if history.len() == 0 {
            self
        } else {
            let last = history.last();
            self.run(history.drop_last()).step(last.0, last.1)
        }
    }

    /// The wallet after each of `accounts` has confirmed `id`.
    pub open spec fn confirm_all(self, id: TransactionId, accounts: Seq<AccountId>) -> Self
        decreases accounts.len(),
    {
        if accounts.len() == 0 {
            self
        } else {
            self.confirm_all(id, accounts.drop_last()).confirm(id, accounts.last())
        }
    }
}

/// Every message keeps the invariant of the wallet, whether it is accepted or refused.
pub proof fn law_step_keeps_invariant(wallet: Wallet, env: Env, message: Message)
    requires
        wallet.inv(),
    ensures
        wallet.step(env, message).inv(),
{
    if wallet.refusal(env, message) is None {
        match message {
            Message::AddOwner { new_owner } => preservation::lemma_add_owner_keeps_inv(wallet, new_owner),
            Message::RemoveOwner { owner } => preservation::lemma_remove_owner_keeps_inv(wallet, owner),
            Message::ReplaceOwner { old_owner, new_owner } => preservation::lemma_replace_owner_keeps_inv(
                wallet,
                old_owner,
                new_owner,
            ),
            Message::ChangeRequirement { new_requirement } => preservation::lemma_change_requirement_keeps_inv(
                wallet,
                new_requirement,
            ),
            Message::SubmitTransaction { transaction } => preservation::lemma_submit_keeps_inv(
                wallet,
                transaction,
                env.caller,
            ),
            Message::CancelTransaction { trans_id } => preservation::lemma_take_keeps_inv(wallet, trans_id),
            Message::ConfirmTransaction { trans_id } => preservation::lemma_confirm_keeps_inv(
                wallet,
                trans_id,
                env.caller,
            ),
            Message::RevokeConfirmation { trans_id } => preservation::lemma_revoke_keeps_inv(
                wallet,
                trans_id,
                env.caller,
            ),
            Message::InvokeTransaction { trans_id } => preservation::lemma_take_keeps_inv(wallet, trans_id),
            Message::EvalTransaction { trans_id } => preservation::lemma_take_keeps_inv(wallet, trans_id),
        }
    }
}

/// Whatever messages reach a wallet after it was set up, its requirement is not zero, is
/// not more than the number of its owners, who are not more than the maximum; and the rest
/// of the invariant holds as well.
pub proof fn law_requirement_can_always_be_met(
    requirement: u32,
    owners: Seq<AccountId>,
    history: Seq<(Env, Message)>,
)
    requires
        crate::model::requirement_is_valid(
            crate::model::distinct(owners).len(),
            requirement as nat,
        ),
    ensures
        ({
            let wallet = Wallet::initial(requirement, owners).run(history);
            &&& 0 < wallet.requirement
            &&& wallet.requirement <= wallet.owners.len()
            &&& wallet.owners.len() <= crate::model::MAX_OWNERS
            &&& wallet.inv()
        }),
    decreases history.len(),
{
    if history.len() == 0 {
        preservation::lemma_initial_keeps_inv(requirement, owners);
    } else {
        let earlier = history.drop_last();
        law_requirement_can_always_be_met(requirement, owners, earlier);
        law_step_keeps_invariant(
            Wallet::initial(requirement, owners).run(earlier),
            history.last().0,
            history.last().1,
        );
    }
}

/// A wallet that is set up has the given accounts as its owners, each listed once; a list
/// without repetitions is kept as it is.
pub proof fn law_duplicate_owners_are_dropped(requirement: u32, owners: Seq<AccountId>)
    ensures
        Wallet::initial(requirement, owners).owners.no_duplicates(),
        Wallet::initial(requirement, owners).owners.to_set() == owners.to_set(),
        owners.no_duplicates() ==> Wallet::initial(requirement, owners).owners == owners,
    decreases owners.len(),
{
    preservation::lemma_distinct(owners);
    if owners.no_duplicates() && owners.len() > 0 {
        let front = owners.drop_last();
        law_duplicate_owners_are_dropped(requirement, front);
        assert(crate::model::distinct(front) == front);
        assert(owners =~= front.push(owners.last()));
    } else if owners.len() == 0 {
        assert(crate::model::distinct(owners) =~= owners);
    }
}

/// A transaction can be executed exactly if the wallet holds it and at least as many of the
/// present owners have confirmed it as the requirement asks for.
pub proof fn law_execution_needs_enough_owners(wallet: Wallet, id: TransactionId)
    requires
        wallet.inv(),
    ensures
        wallet.execute_refusal(id) is None <==> wallet.holds(id) && wallet.confirmers(id).len()
            >= wallet.requirement,
        wallet.confirmers(id).finite(),
        forall|account: AccountId| #[trigger]
            wallet.confirmers(id).contains(account) ==> wallet.is_owner(account),
{
    preservation::lemma_confirmers_finite(wallet, id);
}

/// Each confirmation by another owner brings a transaction one step closer to execution:
/// once as many different owners as the requirement asks for have confirmed a transaction
/// that the wallet holds, it can be executed.
pub proof fn law_enough_confirmations_allow_execution(
    wallet: Wallet,
    id: TransactionId,
    accounts: Seq<AccountId>,
)
    requires
        wallet.inv(),
        wallet.holds(id),
        accounts.no_duplicates(),
        forall|i: int| 0 <= i < accounts.len() ==> wallet.is_owner(#[trigger] accounts[i]),
        accounts.len() >= wallet.requirement,
    ensures
        wallet.confirm_all(id, accounts).execute_refusal(id) is None,
{
    lemma_confirm_all(wallet, id, accounts);
    let after = wallet.confirm_all(id, accounts);
    preservation::lemma_confirmers_finite(after, id);
    accounts.unique_seq_to_set();
    vstd::set_lib::lemma_len_subset(accounts.to_set(), after.confirmers(id));
}

proof fn lemma_confirm_all(wallet: Wallet, id: TransactionId, accounts: Seq<AccountId>)
    requires
        wallet.inv(),
        wallet.holds(id),
        forall|i: int| 0 <= i < accounts.len() ==> wallet.is_owner(#[trigger] accounts[i]),
    ensures
        wallet.confirm_all(id, accounts).inv(),
        wallet.confirm_all(id, accounts).owners == wallet.owners,
        wallet.confirm_all(id, accounts).requirement == wallet.requirement,
        wallet.confirm_all(id, accounts).transactions == wallet.transactions,
        accounts.to_set().subset_of(wallet.confirm_all(id, accounts).confirmers(id)),
    decreases accounts.len(),
{
    if accounts.len() > 0 {
        let front = accounts.drop_last();
        assert forall|i: int| 0 <= i < front.len() implies wallet.is_owner(#[trigger] front[i]) by {
            assert(front[i] == accounts[i]);
        }
        lemma_confirm_all(wallet, id, front);
        let earlier = wallet.confirm_all(id, front);
        let after = wallet.confirm_all(id, accounts);
        assert(wallet.is_owner(accounts[accounts.len() - 1]));
        preservation::lemma_confirm_keeps_inv(earlier, id, accounts.last());
        assert forall|account: AccountId| accounts.to_set().contains(
            account,
        ) implies after.confirmers(id).contains(account) by {
            let i = accounts.index_of(account);
            if i < front.len() {
                assert(front[i] == account);
                assert(front.to_set().contains(account));
                assert(earlier.confirmers(id).contains(account));
            }
        }
    }
}

/// After its execution has begun, or after it was canceled, a transaction is gone together
/// with its confirmations, so that it cannot be executed a second time.
pub proof fn law_execution_happens_once(wallet: Wallet, id: TransactionId)
    requires
        wallet.inv(),
    ensures
        !wallet.take(id).holds(id),
        wallet.take(id).execute_refusal(id) == Some(Refusal::WrongTransactionId),
        forall|account: AccountId| !wallet.take(id).confirmations.contains((id, account)),
        !wallet.take(id).confirmation_count.contains_key(id),
{
    if !wallet.holds(id) {
        assert forall|account: AccountId| !wallet.confirmations.contains((id, account)) by {}
    }
}

/// Taking one transaction out leaves the others, and who has confirmed them, as they are.
pub proof fn law_other_transactions_stay(wallet: Wallet, id: TransactionId, other: TransactionId)
    requires
        other != id,
    ensures
        wallet.take(id).holds(other) == wallet.holds(other),
        wallet.holds(other) ==> wallet.take(id).transactions.items[other]
            == wallet.transactions.items[other],
        wallet.take(id).confirmers(other) == wallet.confirmers(other),
        wallet.take(id).count(other) == wallet.count(other),
        wallet.take(id).status(other) == wallet.status(other),
{
    assert(wallet.take(id).confirmers(other) =~= wallet.confirmers(other));
}

/// The id of a transaction is stable: under it the wallet keeps the same transaction until
/// that transaction is executed or canceled.
pub proof fn law_transaction_ids_are_stable(
    wallet: Wallet,
    env: Env,
    message: Message,
    id: TransactionId,
)
    requires
        wallet.inv(),
        wallet.holds(id),
        message != (Message::InvokeTransaction { trans_id: id }),
        message != (Message::EvalTransaction { trans_id: id }),
        message != (Message::CancelTransaction { trans_id: id }),
    ensures
        wallet.step(env, message).holds(id),
        wallet.step(env, message).transactions.items[id] == wallet.transactions.items[id],
{
    if let Message::SubmitTransaction { transaction } = message {
        if wallet.refusal(env, message) is None {
            wallet.transactions.lemma_put(transaction);
        }
    }
}

/// Confirming never executes anything: even where the threshold is reached the wallet still
/// holds the same transactions.
pub proof fn law_confirming_executes_nothing(wallet: Wallet, env: Env, id: TransactionId)
    ensures
        wallet.step(env, Message::ConfirmTransaction { trans_id: id }).transactions
            == wallet.transactions,
{
}

/// Confirming a second time changes nothing and emits nothing.
pub proof fn law_confirm_is_idempotent(wallet: Wallet, id: TransactionId, account: AccountId)
    ensures
        wallet.confirm(id, account).confirm(id, account) == wallet.confirm(id, account),
        wallet.confirm(id, account).confirm_events(id, account) == Seq::<Event>::empty(),
{
    let once = wallet.confirm(id, account);
    assert(once.confirm(id, account) =~= once);
}

/// Revoking a fresh confirmation leads back to where the wallet was.
pub proof fn law_revoke_undoes_confirm(wallet: Wallet, id: TransactionId, account: AccountId)
    requires
        wallet.inv(),
        wallet.holds(id),
        !wallet.confirmations.contains((id, account)),
    ensures
        wallet.confirm(id, account).revoke(id, account) == wallet,
{
    assert(wallet.confirmation_count.contains_key(id));
    assert(wallet.confirm(id, account).revoke(id, account) =~= wallet);
}

/// Confirming again after a confirmation was revoked leads back to where the wallet was.
pub proof fn law_confirm_undoes_revoke(wallet: Wallet, id: TransactionId, account: AccountId)
    requires
        wallet.inv(),
        wallet.confirmations.contains((id, account)),
    ensures
        wallet.revoke(id, account).confirm(id, account) == wallet,
{
    preservation::lemma_confirmers_finite(wallet, id);
    assert(wallet.confirmers(id).contains(account));
    assert(wallet.holds(id));
    assert(wallet.revoke(id, account).confirm(id, account) =~= wallet);
}

/// Whether `message` is for the wallet itself only.
pub open spec fn is_administrative(message: Message) -> bool {
    message is AddOwner || message is RemoveOwner || message is ReplaceOwner
        || message is ChangeRequirement || message is CancelTransaction
}

/// Whether `message` is for owners only.
pub open spec fn is_for_owners(message: Message) -> bool {
    message is SubmitTransaction || message is ConfirmTransaction || message is RevokeConfirmation
}

/// What is for the wallet itself only is refused to anybody else.
pub proof fn law_only_the_wallet_administers(wallet: Wallet, env: Env, message: Message)
    requires
        is_administrative(message),
        !env.from_wallet(),
    ensures
        wallet.refusal(env, message) == Some(Refusal::NotFromWallet),
{
}

/// What is for owners only is refused to anybody else.
pub proof fn law_only_owners_take_part(wallet: Wallet, env: Env, message: Message)
    requires
        is_for_owners(message),
        !wallet.is_owner(env.caller),
    ensures
        wallet.refusal(env, message) == Some(Refusal::NotAnOwner),
{
}

/// Whether a transaction can be executed does not depend on who asks.
pub proof fn law_anyone_can_execute(wallet: Wallet, env: Env, other: Env, id: TransactionId)
    ensures
        wallet.refusal(env, Message::InvokeTransaction { trans_id: id }) == wallet.refusal(
            other,
            Message::InvokeTransaction { trans_id: id },
        ),
        wallet.refusal(env, Message::EvalTransaction { trans_id: id }) == wallet.refusal(
            other,
            Message::EvalTransaction { trans_id: id },
        ),
{
}

/// The owners and the requirement stay as they are for as long as no message comes from the
/// wallet itself.
pub proof fn law_nobody_else_changes_owners(wallet: Wallet, history: Seq<(Env, Message)>)
    requires
        forall|i: int| 0 <= i < history.len() ==> !(#[trigger] history[i]).0.from_wallet(),
    ensures
        wallet.run(history).owners == wallet.owners,
        wallet.run(history).requirement == wallet.requirement,
    decreases history.len(),
{
    if history.len() > 0 {
        let earlier = history.drop_last();
        assert forall|i: int| 0 <= i < earlier.len() implies !(
        #[trigger] earlier[i]).0.from_wallet() by {
            assert(earlier[i] == history[i]);
        }
        law_nobody_else_changes_owners(wallet, earlier);
        assert(!history[history.len() - 1].0.from_wallet());
    }
}

/// Nobody can confirm a transaction on behalf of another account.
pub proof fn law_nobody_confirms_for_another(
    wallet: Wallet,
    env: Env,
    message: Message,
    id: TransactionId,
    account: AccountId,
)
    requires
        account != env.caller,
        !wallet.confirmations.contains((id, account)),
    ensures
        !wallet.step(env, message).confirmations.contains((id, account)),
{
}

/// A confirmation stays until its owner revokes it or ceases to be an owner, or the
/// transaction is executed or canceled.
pub proof fn law_confirmations_stay(
    wallet: Wallet,
    env: Env,
    message: Message,
    id: TransactionId,
    account: AccountId,
)
    requires
        wallet.confirmations.contains((id, account)),
        message is RevokeConfirmation && message->RevokeConfirmation_trans_id == id ==> account
            != env.caller,
        message is RemoveOwner ==> message->owner != account,
        message is ReplaceOwner ==> message->old_owner != account,
        message != (Message::InvokeTransaction { trans_id: id }),
        message != (Message::EvalTransaction { trans_id: id }),
        message != (Message::CancelTransaction { trans_id: id }),
    ensures
        wallet.step(env, message).confirmations.contains((id, account)),
{
}

/// Removing an owner who was just added leads back to where the wallet was.
pub proof fn law_remove_undoes_add(wallet: Wallet, account: AccountId)
    requires
        wallet.inv(),
        !wallet.is_owner(account),
    ensures
        wallet.add_owner(account).remove_owner(account) == wallet,
{
    let added = wallet.add_owner(account);
    let n = wallet.owners.len() as int;
    assert(added.owners[n] == account);
    assert(added.owners.contains(account));
    let i = added.owners.index_of(account);
    if i < n {
        assert(wallet.owners[i] == account);
    }
    assert(added.remove_owner(account).owners =~= wallet.owners);
    assert forall|id: TransactionId| !wallet.confirmations.contains((id, account)) by {}
    assert forall|key: (TransactionId, AccountId)| wallet.confirmations.contains(
        key,
    ) implies key.1 != account by {
        assert(wallet.confirmations.contains((key.0, key.1)));
    }
    assert(added.remove_owner(account) =~= wallet);
}

/// A removed owner is no owner any more and has left no confirmation behind; each of the
/// others, and what they have confirmed, stays. The requirement becomes the number of the
/// owners that are left where it was more than that, and else stays.
pub proof fn law_removed_owner_leaves_nothing(wallet: Wallet, owner: AccountId, id: TransactionId)
    requires
        wallet.inv(),
        wallet.is_owner(owner),
        wallet.owners.len() > 1,
    ensures
        ({
            let after = wallet.remove_owner(owner);
            &&& after.owners.to_set() == wallet.owners.to_set().remove(owner)
            &&& after.owners.len() == wallet.owners.len() - 1
            &&& after.requirement == (if wallet.requirement <= after.owners.len() {
                wallet.requirement as nat
            } else {
                after.owners.len()
            })
            &&& after.confirmers(id) == wallet.confirmers(id).remove(owner)
            &&& after.count(id) == wallet.confirmers(id).remove(owner).len()
            &&& after.transactions == wallet.transactions
        }),
{
    preservation::lemma_remove_owner_keeps_inv(wallet, owner);
    let after = wallet.remove_owner(owner);
    preservation::lemma_confirmers_finite(after, id);
    assert(after.confirmers(id) =~= wallet.confirmers(id).remove(owner));
}

/// A replaced owner is no owner any more and has left no confirmation behind; the new owner
/// has the place of the old one and has confirmed nothing yet; nobody else is affected.
pub proof fn law_replaced_owner_leaves_nothing(
    wallet: Wallet,
    old_owner: AccountId,
    new_owner: AccountId,
    id: TransactionId,
)
    requires
        wallet.inv(),
        wallet.is_owner(old_owner),
        !wallet.is_owner(new_owner),
    ensures
        ({
            let after = wallet.replace_owner(old_owner, new_owner);
            &&& after.owners.to_set() == wallet.owners.to_set().remove(old_owner).insert(new_owner)
            &&& after.owners.len() == wallet.owners.len()
            &&& after.requirement == wallet.requirement
            &&& after.confirmers(id) == wallet.confirmers(id).remove(old_owner)
            &&& !after.confirmers(id).contains(new_owner)
            &&& after.count(id) == wallet.confirmers(id).remove(old_owner).len()
            &&& after.transactions == wallet.transactions
        }),
{
    preservation::lemma_replace_owner_keeps_inv(wallet, old_owner, new_owner);
    let after = wallet.replace_owner(old_owner, new_owner);
    preservation::lemma_confirmers_finite(after, id);
    assert(after.confirmers(id) =~= wallet.confirmers(id).remove(old_owner));
    assert(!wallet.confirmations.contains((id, new_owner)));
}

/// Replacing an owner and then the newcomer by the same owner gives the old list of owners.
pub proof fn law_replacing_back_restores_owners(
    wallet: Wallet,
    old_owner: AccountId,
    new_owner: AccountId,
)
    requires
        wallet.inv(),
        wallet.is_owner(old_owner),
        !wallet.is_owner(new_owner),
    ensures
        wallet.replace_owner(old_owner, new_owner).replace_owner(new_owner, old_owner).owners
            == wallet.owners,
{
    preservation::lemma_replace_owner_keeps_inv(wallet, old_owner, new_owner);
    let there = wallet.replace_owner(old_owner, new_owner);
    let i = wallet.owners.index_of(old_owner);
    assert(there.owners[i] == new_owner);
    assert(there.owners.contains(new_owner));
    let j = there.owners.index_of(new_owner);
    assert(i == j);
    assert(there.replace_owner(new_owner, old_owner).owners =~= wallet.owners);
}

/// A change of the requirement touches nothing but the requirement.
pub proof fn law_change_requirement_changes_no_more(wallet: Wallet, new_requirement: u32)
    ensures
        wallet.change_requirement(new_requirement).requirement == new_requirement,
        wallet.change_requirement(new_requirement).owners == wallet.owners,
        wallet.change_requirement(new_requirement).transactions == wallet.transactions,
        wallet.change_requirement(new_requirement).confirmations == wallet.confirmations,
        wallet.change_requirement(new_requirement).confirmation_count
            == wallet.confirmation_count,
        wallet.change_requirement(new_requirement).change_requirement(wallet.requirement)
            == wallet,
{
}

/// The status of a transaction that the wallet holds tells whether it can be executed, and
/// else how many confirmations, at least one, are missing.
pub proof fn law_status_tells_what_is_missing(wallet: Wallet, id: TransactionId)
    requires
        wallet.inv(),
        wallet.holds(id),
    ensures
        wallet.status(id) == ConfirmationStatus::Confirmed <==> wallet.execute_refusal(id) is None,
        wallet.status(id) matches ConfirmationStatus::ConfirmationsNeeded(missing) ==> missing > 0
            && wallet.confirmers(id).len() + missing == wallet.requirement,
{
    preservation::lemma_confirmers_finite(wallet, id);
}

/// A submitted transaction gets an id that was not in use, under which the wallet holds it,
/// and is confirmed by its submitter and nobody else.
pub proof fn law_submitting_confirms_for_the_caller(
    wallet: Wallet,
    transaction: Transaction,
    account: AccountId,
)
    requires
        wallet.inv(),
        wallet.is_owner(account),
        !wallet.transactions.is_full(),
    ensures
        ({
            let id = wallet.transactions.next_id();
            let after = wallet.submit(transaction, account);
            &&& !wallet.holds(id)
            &&& after.holds(id)
            &&& after.transactions.items[id] == transaction
            &&& after.confirmers(id) == set![account]
            &&& after.count(id) == 1
        }),
{
    preservation::lemma_submit_keeps_inv(wallet, transaction, account);
    let id = wallet.transactions.next_id();
    assert forall|other: AccountId| !wallet.confirmations.contains((id, other)) by {}
    assert(wallet.submit(transaction, account).confirmers(id) =~= set![account]);
}

/// Canceling a transaction that was just submitted gives back the transactions, the
/// confirmations and the owners that were there before.
pub proof fn law_cancel_undoes_submit(wallet: Wallet, transaction: Transaction, account: AccountId)
    requires
        wallet.inv(),
        wallet.is_owner(account),
        !wallet.transactions.is_full(),
    ensures
        ({
            let id = wallet.transactions.next_id();
            let after = wallet.submit(transaction, account).take(id);
            &&& after.transactions.items == wallet.transactions.items
            &&& after.confirmations == wallet.confirmations
            &&& after.confirmation_count == wallet.confirmation_count
            &&& after.owners == wallet.owners
            &&& after.requirement == wallet.requirement
        }),
{
    preservation::lemma_submit_keeps_inv(wallet, transaction, account);
    let id = wallet.transactions.next_id();
    let after = wallet.submit(transaction, account).take(id);
    assert(after.transactions.items =~= wallet.transactions.items);
    assert forall|key: (TransactionId, AccountId)| wallet.confirmations.contains(
        key,
    ) implies key.0 != id by {
        assert(wallet.confirmations.contains((key.0, key.1)));
    }
    assert(after.confirmations =~= wallet.confirmations);
    assert(after.confirmation_count =~= wallet.confirmation_count);
}

} // verus!
