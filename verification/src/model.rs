use crate::env::{Cancelation, Confirmation, Env, Event, Revokation, Submission};
use crate::stash::StashView;
use crate::types::{AccountId, ConfirmationStatus, Refusal, Transaction, TransactionId};
use vstd::prelude::*;

verus! {

/// Tune this to your liking but be wary that allowing too many owners will not perform well.
pub const MAX_OWNERS: u32 = 50;

/// The invariant between the number of owners and the requirement.
pub open spec fn requirement_is_valid(owners: nat, requirement: nat) -> bool {
    0 < requirement && requirement <= owners && owners <= MAX_OWNERS
}

/// `accounts` with every account that already stands further left dropped.
pub open spec fn distinct(accounts: Seq<AccountId>) -> Seq<AccountId>
    decreases accounts.len(),
{
    if accounts.len() == 0 {
        Seq::empty()
    } else {
        let front = distinct(accounts.drop_last());
        if front.contains(accounts.last()) {
            front
        } else {
            front.push(accounts.last())
        }
    }
}

/// `accounts` without the one at `i`, whose place the last one takes.
pub open spec fn swap_removed(accounts: Seq<AccountId>, i: int) -> Seq<AccountId> {
    accounts.update(i, accounts.last()).drop_last()
}

/// The state of a wallet.
#[verifier::ext_equal]
pub struct Wallet {
    /// Which owner has confirmed which transaction.
    pub confirmations: Set<(TransactionId, AccountId)>,
    /// The amount of confirmations for every transaction.
    pub confirmation_count: Map<TransactionId, nat>,
    /// The transactions that await execution.
    pub transactions: StashView<Transaction>,
    /// The owners, each once.
    pub owners: Seq<AccountId>,
    /// Minimum number of owners that have to confirm a transaction to be executed.
    pub requirement: u32,
}

impl Wallet {
    pub open spec fn is_owner(self, account: AccountId) -> bool {
        self.owners.contains(account)
    }

    /// The wallet holds a transaction under `id`.
    pub open spec fn holds(self, id: TransactionId) -> bool {
        self.transactions.items.contains_key(id)
    }

    /// Who has confirmed transaction `id`.
    pub open spec fn confirmers(self, id: TransactionId) -> Set<AccountId> {
        Set::new(|account: AccountId| self.confirmations.contains((id, account)))
    }

    /// The amount of confirmations of `id`, none where the wallet has no record of it.
    pub open spec fn count(self, id: TransactionId) -> nat {
        if self.confirmation_count.contains_key(id) {
            self.confirmation_count[id]
        } else {
            0
        }
    }

    /// What holds of every wallet at all times: the requirement can be met, no owner is
    /// listed twice, exactly the transactions that the wallet holds have a confirmation
    /// count, only owners have confirmed, and each count is the number of confirmers.
    pub open spec fn inv(self) -> bool {
        &&& requirement_is_valid(self.owners.len(), self.requirement as nat)
        &&& self.owners.no_duplicates()
        &&& self.transactions.inv()
        &&& forall|id: TransactionId| #[trigger]
            self.confirmation_count.contains_key(id) <==> self.holds(id)
        &&& forall|id: TransactionId, account: AccountId| #[trigger]
            self.confirmations.contains((id, account)) ==> self.holds(id) && self.is_owner(account)
        &&& forall|id: TransactionId| #[trigger]
            self.confirmation_count.contains_key(id) ==> self.confirmation_count[id]
                == self.confirmers(id).len()
    }

    /// A wallet that was just set up: without any transaction.
    pub open spec fn initial(requirement: u32, owners: Seq<AccountId>) -> Self {
        Wallet {
            confirmations: Set::empty(),
            confirmation_count: Map::empty(),
            transactions: StashView { items: Map::empty(), vacant: Seq::empty(), slots: 0 },
            owners: distinct(owners),
            requirement,
        }
    }

    /// Enough owners have confirmed `id` for it to be executed.
    pub open spec fn is_confirmed(self, id: TransactionId) -> bool {
        self.count(id) >= self.requirement
    }

    /// How far `id` is from being confirmed.
    pub open spec fn status(self, id: TransactionId) -> ConfirmationStatus {
        if self.is_confirmed(id) {
            ConfirmationStatus::Confirmed
        } else {
            ConfirmationStatus::ConfirmationsNeeded((self.requirement - self.count(id)) as u32)
        }
    }

    /// Without any confirmation of `account`.
    pub open spec fn forget_owner(self, account: AccountId) -> Self {
        Wallet {
            confirmations: self.confirmations.filter(
                |key: (TransactionId, AccountId)| key.1 != account,
            ),
            confirmation_count: Map::new(
                |id: TransactionId| self.confirmation_count.contains_key(id),
                |id: TransactionId|
                    if self.confirmations.contains((id, account)) {
                        (self.confirmation_count[id] - 1) as nat
                    } else {
                        self.confirmation_count[id]
                    },
            ),
            ..self
        }
    }

    pub open spec fn add_owner(self, new_owner: AccountId) -> Self {
        Wallet { owners: self.owners.push(new_owner), ..self }
    }

    /// The requirement is lowered where fewer owners would be left than it asks for.
    pub open spec fn remove_owner(self, owner: AccountId) -> Self {
        let owners = swap_removed(self.owners, self.owners.index_of(owner));
        let requirement = if owners.len() < self.requirement {
            owners.len() as u32
        } else {
            self.requirement
        };
        Wallet { owners, requirement, ..self.forget_owner(owner) }
    }

    pub open spec fn replace_owner(self, old_owner: AccountId, new_owner: AccountId) -> Self {
        Wallet {
            owners: self.owners.update(self.owners.index_of(old_owner), new_owner),
            ..self.forget_owner(old_owner)
        }
    }

    pub open spec fn change_requirement(self, new_requirement: u32) -> Self {
        Wallet { requirement: new_requirement, ..self }
    }

    /// With the confirmation of `id` by `account`; nothing changes where it was there.
    pub open spec fn confirm(self, id: TransactionId, account: AccountId) -> Self {
        let more: nat = if self.confirmations.contains((id, account)) { 0 } else { 1 };
        Wallet {
            confirmations: self.confirmations.insert((id, account)),
            confirmation_count: self.confirmation_count.insert(id, self.count(id) + more),
            ..self
        }
    }

    /// Without the confirmation of `id` by `account`; nothing changes where there was none.
    pub open spec fn revoke(self, id: TransactionId, account: AccountId) -> Self {
        if self.confirmations.contains((id, account)) {
            Wallet {
                confirmations: self.confirmations.remove((id, account)),
                confirmation_count: self.confirmation_count.insert(
                    id,
                    (self.count(id) - 1) as nat,
                ),
                ..self
            }
        } else {
            self
        }
    }

    /// With `transaction` stored and confirmed by `account`.
    pub open spec fn submit(self, transaction: Transaction, account: AccountId) -> Self {
        let stored = Wallet { transactions: self.transactions.put(transaction), ..self };
        stored.confirm(self.transactions.next_id(), account)
    }

    /// Without transaction `id` and its confirmations; nothing changes where there is none.
    pub open spec fn take(self, id: TransactionId) -> Self {
        if self.holds(id) {
            Wallet {
                confirmations: self.confirmations.filter(
                    |key: (TransactionId, AccountId)| key.0 != id,
                ),
                confirmation_count: self.confirmation_count.remove(id),
                transactions: self.transactions.take(id),
                ..self
            }
        } else {
            self
        }
    }

    /// What the confirmation of `id` by `account` emits.
    pub open spec fn confirm_events(self, id: TransactionId, account: AccountId) -> Seq<Event> {
        if self.confirmations.contains((id, account)) {
            Seq::empty()
        } else {
            seq![
                Event::Confirmation(
                    Confirmation {
                        transaction: id,
                        from: account,
                        status: self.confirm(id, account).status(id),
                    },
                ),
            ]
        }
    }

    pub open spec fn revoke_events(self, id: TransactionId, account: AccountId) -> Seq<Event> {
        if self.confirmations.contains((id, account)) {
            seq![Event::Revokation(Revokation { transaction: id, from: account })]
        } else {
            Seq::empty()
        }
    }

    pub open spec fn submit_events(self, transaction: Transaction, account: AccountId) -> Seq<
        Event,
    > {
        let id = self.transactions.next_id();
        let stored = Wallet { transactions: self.transactions.put(transaction), ..self };
        seq![Event::Submission(Submission { transaction: id })] + stored.confirm_events(
            id,
            account,
        )
    }

    pub open spec fn cancel_events(self, id: TransactionId) -> Seq<Event> {
        if self.holds(id) {
            seq![Event::Cancelation(Cancelation { transaction: id })]
        } else {
            Seq::empty()
        }
    }

    /// Why `new_owner` may not be added, if there is a reason.
    pub open spec fn add_owner_refusal(self, env: Env, new_owner: AccountId) -> Option<Refusal> {
        if !env.from_wallet() {
            Some(Refusal::NotFromWallet)
        } else if self.is_owner(new_owner) {
            Some(Refusal::AlreadyAnOwner)
        } else if !requirement_is_valid(self.owners.len() + 1, self.requirement as nat) {
            Some(Refusal::InvalidRequirement)
        } else {
            None
        }
    }

    /// Why `owner` may not be removed, if there is a reason. The last owner stays.
    pub open spec fn remove_owner_refusal(self, env: Env, owner: AccountId) -> Option<Refusal> {
        if !env.from_wallet() {
            Some(Refusal::NotFromWallet)
        } else if !self.is_owner(owner) {
            Some(Refusal::NotAnOwner)
        } else if self.owners.len() == 1 {
            Some(Refusal::InvalidRequirement)
        } else {
            None
        }
    }

    /// Why `old_owner` may not be replaced by `new_owner`, if there is a reason.
    pub open spec fn replace_owner_refusal(
        self,
        env: Env,
        old_owner: AccountId,
        new_owner: AccountId,
    ) -> Option<Refusal> {
        if !env.from_wallet() {
            Some(Refusal::NotFromWallet)
        } else if !self.is_owner(old_owner) {
            Some(Refusal::NotAnOwner)
        } else if self.is_owner(new_owner) {
            Some(Refusal::AlreadyAnOwner)
        } else {
            None
        }
    }

    /// Why the requirement may not become `new_requirement`, if there is a reason.
    pub open spec fn change_requirement_refusal(self, env: Env, new_requirement: u32) -> Option<
        Refusal,
    > {
        if !env.from_wallet() {
            Some(Refusal::NotFromWallet)
        } else if !requirement_is_valid(self.owners.len(), new_requirement as nat) {
            Some(Refusal::InvalidRequirement)
        } else {
            None
        }
    }

    /// Why the caller may not submit a transaction, if there is a reason.
    pub open spec fn submit_refusal(self, env: Env) -> Option<Refusal> {
        if !self.is_owner(env.caller) {
            Some(Refusal::NotAnOwner)
        } else if self.transactions.is_full() {
            Some(Refusal::OutOfTransactionIds)
        } else {
            None
        }
    }

    /// Why the caller may not cancel a transaction, if there is a reason.
    pub open spec fn cancel_refusal(self, env: Env) -> Option<Refusal> {
        if !env.from_wallet() {
            Some(Refusal::NotFromWallet)
        } else {
            None
        }
    }

    /// Why the caller may neither confirm `id` nor revoke a confirmation of it, if there
    /// is a reason.
    pub open spec fn vote_refusal(self, env: Env, id: TransactionId) -> Option<Refusal> {
        if !self.is_owner(env.caller) {
            Some(Refusal::NotAnOwner)
        } else if !self.holds(id) {
            Some(Refusal::WrongTransactionId)
        } else {
            None
        }
    }

    /// Why `id` may not be executed, if there is a reason. It does not matter who asks.
    pub open spec fn execute_refusal(self, id: TransactionId) -> Option<Refusal> {
        if !self.holds(id) {
            Some(Refusal::WrongTransactionId)
        } else if !self.is_confirmed(id) {
            Some(Refusal::NotConfirmed)
        } else {
            None
        }
    }
}

} // verus!
