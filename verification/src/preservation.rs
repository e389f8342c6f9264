use crate::model::Wallet;
use crate::types::{AccountId, Transaction, TransactionId};
use vstd::prelude::*;

verus! {

/// Dropping repetitions leaves every account once, and drops no account altogether.
pub proof fn lemma_distinct(accounts: Seq<AccountId>)
    ensures
        crate::model::distinct(accounts).no_duplicates(),
        crate::model::distinct(accounts).to_set() == accounts.to_set(),
        crate::model::distinct(accounts).len() <= accounts.len(),
    decreases accounts.len(),
{
    if accounts.len() > 0 {
        let front = accounts.drop_last();
        lemma_distinct(front);
        let kept = crate::model::distinct(front);
        let all = crate::model::distinct(accounts);
        assert forall|account: AccountId| all.contains(account) == accounts.contains(account) by {
            assert(kept.to_set().contains(account) == front.to_set().contains(account));
            if accounts.contains(account) {
                let i = accounts.index_of(account);
                if i < front.len() {
                    assert(front[i] == account);
                    let j = kept.index_of(account);
                    assert(all[j] == account);
                } else if !kept.contains(account) {
                    assert(all[kept.len() as int] == account);
                }
            }
            if all.contains(account) {
                let i = all.index_of(account);
                if i < kept.len() {
                    assert(kept[i] == account);
                    let j = front.index_of(account);
                    assert(accounts[j] == account);
                } else {
                    assert(accounts[accounts.len() - 1] == account);
                }
            }
        }
        assert(all.to_set() =~= accounts.to_set());
    } else {
        assert(crate::model::distinct(accounts) =~= accounts);
    }
}

/// The confirmers of a transaction are among the owners, and its count is their number.
pub proof fn lemma_confirmers_finite(wallet: Wallet, id: TransactionId)
    requires
        wallet.inv(),
    ensures
        wallet.confirmers(id).subset_of(wallet.owners.to_set()),
        wallet.confirmers(id).finite(),
        wallet.confirmers(id).len() <= wallet.owners.len(),
        wallet.count(id) == wallet.confirmers(id).len(),
{
    let owners = wallet.owners.to_set();
    assert forall|account: AccountId| wallet.confirmers(id).contains(account) implies owners.contains(
        account,
    ) by {
        assert(wallet.confirmations.contains((id, account)));
    }
    wallet.owners.unique_seq_to_set();
    vstd::set_lib::lemma_set_subset_finite(owners, wallet.confirmers(id));
    vstd::set_lib::lemma_len_subset(wallet.confirmers(id), owners);
    if !wallet.confirmation_count.contains_key(id) {
        assert(wallet.confirmers(id) =~= Set::empty());
    }
}

/// A wallet that was set up with owners and a requirement that go together is well formed.
pub proof fn lemma_initial_keeps_inv(requirement: u32, owners: Seq<AccountId>)
    requires
        crate::model::requirement_is_valid(
            crate::model::distinct(owners).len(),
            requirement as nat,
        ),
    ensures
        Wallet::initial(requirement, owners).inv(),
{
    lemma_distinct(owners);
}

/// Adding somebody who is no owner yet keeps the invariant where there is room for one more.
pub proof fn lemma_add_owner_keeps_inv(wallet: Wallet, new_owner: AccountId)
    requires
        wallet.inv(),
        !wallet.is_owner(new_owner),
        crate::model::requirement_is_valid(wallet.owners.len() + 1, wallet.requirement as nat),
    ensures
        wallet.add_owner(new_owner).inv(),
{
    let after = wallet.add_owner(new_owner);
    assert forall|id: TransactionId, account: AccountId| #[trigger]
        after.confirmations.contains((id, account)) implies after.holds(id) && after.is_owner(
        account,
    ) by {
        assert(wallet.is_owner(account));
        let i = wallet.owners.index_of(account);
        assert(after.owners[i] == account);
    }
    assert forall|id: TransactionId| after.confirmers(id) == wallet.confirmers(id) by {
        assert(after.confirmers(id) =~= wallet.confirmers(id));
    }
}

/// Dropping what an account has confirmed lowers exactly the counts it was part of.
pub proof fn lemma_forget_owner(wallet: Wallet, account: AccountId)
    requires
        wallet.inv(),
    ensures
        ({
            let after = wallet.forget_owner(account);
            &&& after.owners == wallet.owners
            &&& after.requirement == wallet.requirement
            &&& after.inv()
            &&& forall|id: TransactionId| !after.confirmations.contains((id, account))
        }),
{
    let after = wallet.forget_owner(account);
    assert forall|id: TransactionId| after.confirmation_count.contains_key(
        id,
    ) implies #[trigger] after.confirmation_count[id] == after.confirmers(id).len() by {
        lemma_confirmers_finite(wallet, id);
        assert(after.confirmers(id) =~= wallet.confirmers(id).remove(account));
    }
    assert forall|id: TransactionId, other: AccountId| #[trigger]
        after.confirmations.contains((id, other)) implies after.holds(id) && after.is_owner(other) by {
        assert(wallet.confirmations.contains((id, other)));
    }
}

/// Removing an owner other than the last keeps the invariant and takes away that owner only.
pub proof fn lemma_remove_owner_keeps_inv(wallet: Wallet, owner: AccountId)
    requires
        wallet.inv(),
        wallet.is_owner(owner),
        wallet.owners.len() > 1,
    ensures
        wallet.remove_owner(owner).inv(),
        wallet.remove_owner(owner).owners.to_set() == wallet.owners.to_set().remove(owner),
{
    lemma_forget_owner(wallet, owner);
    let kept = wallet.forget_owner(owner);
    let after = wallet.remove_owner(owner);
    let i = wallet.owners.index_of(owner);
    assert forall|account: AccountId| after.owners.contains(account) == (account != owner
        && wallet.owners.contains(account)) by {
        if wallet.owners.contains(account) && account != owner {
            let j = wallet.owners.index_of(account);
            if j < wallet.owners.len() - 1 {
                assert(after.owners[j] == account);
            } else {
                assert(after.owners[i] == account);
            }
        }
        if after.owners.contains(account) {
            let j = after.owners.index_of(account);
            if j == i {
                assert(wallet.owners[wallet.owners.len() - 1] == account);
            } else {
                assert(wallet.owners[j] == account);
            }
        }
    }
    assert(after.owners.to_set() =~= wallet.owners.to_set().remove(owner));
    assert forall|id: TransactionId, account: AccountId| #[trigger]
        after.confirmations.contains((id, account)) implies after.holds(id) && after.is_owner(
        account,
    ) by {
        assert(kept.confirmations.contains((id, account)));
    }
    assert forall|id: TransactionId| after.confirmers(id) == kept.confirmers(id) by {
        assert(after.confirmers(id) =~= kept.confirmers(id));
    }
    assert forall|id: TransactionId| #[trigger]
        after.confirmation_count.contains_key(id) implies after.confirmation_count[id]
        == after.confirmers(id).len() by {
        assert(kept.confirmation_count.contains_key(id));
    }
}

/// Replacing an owner by somebody who is none keeps the invariant and exchanges these two only.
pub proof fn lemma_replace_owner_keeps_inv(
    wallet: Wallet,
    old_owner: AccountId,
    new_owner: AccountId,
)
    requires
        wallet.inv(),
        wallet.is_owner(old_owner),
        !wallet.is_owner(new_owner),
    ensures
        wallet.replace_owner(old_owner, new_owner).inv(),
        wallet.replace_owner(old_owner, new_owner).owners.to_set()
            == wallet.owners.to_set().remove(old_owner).insert(new_owner),
{
    lemma_forget_owner(wallet, old_owner);
    let kept = wallet.forget_owner(old_owner);
    let after = wallet.replace_owner(old_owner, new_owner);
    let i = wallet.owners.index_of(old_owner);
    assert forall|account: AccountId| after.owners.contains(account) == (account == new_owner || (
    account != old_owner && wallet.owners.contains(account))) by {
        assert(after.owners[i] == new_owner);
        if wallet.owners.contains(account) && account != old_owner {
            let j = wallet.owners.index_of(account);
            assert(after.owners[j] == account);
        }
        if after.owners.contains(account) {
            let j = after.owners.index_of(account);
            if j != i {
                assert(wallet.owners[j] == account);
            }
        }
    }
    assert(after.owners.to_set() =~= wallet.owners.to_set().remove(old_owner).insert(new_owner));
    assert forall|id: TransactionId, account: AccountId| #[trigger]
        after.confirmations.contains((id, account)) implies after.holds(id) && after.is_owner(
        account,
    ) by {
        assert(kept.confirmations.contains((id, account)));
    }
    assert forall|id: TransactionId| #[trigger]
        after.confirmation_count.contains_key(id) implies after.confirmation_count[id]
        == after.confirmers(id).len() by {
        assert(kept.confirmation_count.contains_key(id));
        assert(after.confirmers(id) =~= kept.confirmers(id));
    }
}

/// Changing the requirement to one that the owners can meet keeps the invariant.
pub proof fn lemma_change_requirement_keeps_inv(wallet: Wallet, new_requirement: u32)
    requires
        wallet.inv(),
        crate::model::requirement_is_valid(wallet.owners.len(), new_requirement as nat),
    ensures
        wallet.change_requirement(new_requirement).inv(),
{
    let after = wallet.change_requirement(new_requirement);
    assert forall|id: TransactionId| after.confirmers(id) == wallet.confirmers(id) by {
        assert(after.confirmers(id) =~= wallet.confirmers(id));
    }
}

/// A confirmation by an owner of a transaction that the wallet holds keeps the invariant.
pub proof fn lemma_confirm_keeps_inv(wallet: Wallet, id: TransactionId, account: AccountId)
    requires
        wallet.inv(),
        wallet.holds(id),
        wallet.is_owner(account),
    ensures
        wallet.confirm(id, account).inv(),
{
    let after = wallet.confirm(id, account);
    assert forall|other: TransactionId| #[trigger]
        after.confirmation_count.contains_key(other) implies after.confirmation_count[other]
        == after.confirmers(other).len() by {
        lemma_confirmers_finite(wallet, other);
        if other == id {
            assert(after.confirmers(id) =~= wallet.confirmers(id).insert(account));
        } else {
            assert(after.confirmers(other) =~= wallet.confirmers(other));
        }
    }
}

/// Revoking a confirmation keeps the invariant.
pub proof fn lemma_revoke_keeps_inv(wallet: Wallet, id: TransactionId, account: AccountId)
    requires
        wallet.inv(),
    ensures
        wallet.revoke(id, account).inv(),
{
    let after = wallet.revoke(id, account);
    if wallet.confirmations.contains((id, account)) {
        assert(wallet.holds(id));
        assert forall|other: TransactionId| #[trigger]
            after.confirmation_count.contains_key(other) implies after.confirmation_count[other]
            == after.confirmers(other).len() by {
            lemma_confirmers_finite(wallet, other);
            if other == id {
                assert(after.confirmers(id) =~= wallet.confirmers(id).remove(account));
            } else {
                assert(after.confirmers(other) =~= wallet.confirmers(other));
            }
        }
    }
}

/// Submitting a transaction keeps the invariant; the transaction starts with one confirmation.
pub proof fn lemma_submit_keeps_inv(wallet: Wallet, transaction: Transaction, account: AccountId)
    requires
        wallet.inv(),
        wallet.is_owner(account),
        !wallet.transactions.is_full(),
    ensures
        wallet.submit(transaction, account).inv(),
        !wallet.holds(wallet.transactions.next_id()),
        wallet.submit(transaction, account).holds(wallet.transactions.next_id()),
        wallet.submit(transaction, account).confirmation_count[wallet.transactions.next_id()] == 1,
{
    wallet.transactions.lemma_put(transaction);
    let id = wallet.transactions.next_id();
    let after = wallet.submit(transaction, account);
    assert(!wallet.confirmation_count.contains_key(id));
    assert(!wallet.confirmations.contains((id, account)));
    assert forall|other: TransactionId| #[trigger]
        after.confirmation_count.contains_key(other) implies after.confirmation_count[other]
        == after.confirmers(other).len() by {
        lemma_confirmers_finite(wallet, other);
        if other == id {
            assert(after.confirmers(id) =~= wallet.confirmers(id).insert(account));
        } else {
            assert(after.confirmers(other) =~= wallet.confirmers(other));
        }
    }
}

/// Taking a transaction out keeps the invariant.
pub proof fn lemma_take_keeps_inv(wallet: Wallet, id: TransactionId)
    requires
        wallet.inv(),
    ensures
        wallet.take(id).inv(),
{
    wallet.transactions.lemma_take(id);
    let after = wallet.take(id);
    if wallet.holds(id) {
        assert forall|other: TransactionId, account: AccountId| #[trigger]
            after.confirmations.contains((other, account)) implies after.holds(other)
            && after.is_owner(account) by {
            assert(wallet.confirmations.contains((other, account)));
        }
        assert forall|other: TransactionId| #[trigger]
            after.confirmation_count.contains_key(other) implies after.confirmation_count[other]
            == after.confirmers(other).len() by {
            assert(wallet.confirmation_count.contains_key(other));
            assert(after.confirmers(other) =~= wallet.confirmers(other));
        }
    }
}

} // verus!
