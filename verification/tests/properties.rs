use multisig_plain::{
    ensure_requirement_is_valid, parameterize_call, AccountId, CallInput, CallMode, Cancelation,
    Confirmation, ConfirmationStatus, Env, Event, Execution, Message, MultisigPlain,
    OwnerAddition, OwnerRemoval, Refusal, Reply, RequirementChange, Revokation, Stash, Submission,
    Transaction, MAX_OWNERS,
};

const WALLET: AccountId = (7, 7);
const ALICE: AccountId = (1, 1);
const BOB: AccountId = (2, 2);
const EVE: AccountId = (5, 5);
const FRANK: AccountId = (6, 6);

fn env_of(caller: AccountId) -> Env {
    Env::new(caller, WALLET)
}

fn transaction(tag: u8) -> Transaction {
    Transaction {
        callee: (9, tag as u128),
        selector: [tag, 2, 3, 4],
        input: vec![tag, tag],
        transferred_value: 10 + tag as u128,
        gas_limit: 500,
    }
}

fn three_owners(requirement: u32) -> MultisigPlain {
    MultisigPlain::new(requirement, vec![ALICE, BOB, EVE])
}

fn submit(wallet: &mut MultisigPlain, caller: AccountId, tag: u8) -> u32 {
    wallet.submit_transaction(&mut env_of(caller), transaction(tag)).0
}

fn confirm(wallet: &mut MultisigPlain, caller: AccountId, id: u32) -> ConfirmationStatus {
    wallet.confirm_transaction(&mut env_of(caller), id)
}

fn accounts(n: u32) -> Vec<AccountId> {
    (0..n).map(|i| (0, i as u128)).collect()
}

#[test]
fn three_given_owners_are_three_owners() {
    assert_eq!(three_owners(2).owners().len(), 3);
}

#[test]
fn duplicate_owners_are_silently_dropped() {
    let wallet = MultisigPlain::new(2, vec![BOB, ALICE, BOB, BOB, ALICE]);
    assert_eq!(*wallet.owners(), vec![BOB, ALICE]);
    // Three names of the same account are one owner, too few for two confirmations.
    let refused = MultisigPlain::deploy(2, vec![BOB, BOB, BOB]);
    assert!(matches!(refused, Err(Refusal::InvalidRequirement)));
}

#[test]
fn number_of_owners_is_limited() {
    assert_eq!(MAX_OWNERS, 50);
    assert!(MultisigPlain::deploy(50, accounts(50)).is_ok());
    assert!(MultisigPlain::deploy(50, accounts(51)).is_err());
    let mut wallet = MultisigPlain::new(1, accounts(50));
    let refused = wallet.handle(&mut env_of(WALLET), Message::AddOwner { new_owner: ALICE });
    assert_eq!(refused, Err(Refusal::InvalidRequirement));
    assert_eq!(wallet.owners().len(), 50);
}

#[test]
fn requirement_check() {
    assert_eq!(ensure_requirement_is_valid(3, 1), Ok(()));
    assert_eq!(ensure_requirement_is_valid(3, 3), Ok(()));
    assert_eq!(ensure_requirement_is_valid(50, 50), Ok(()));
    assert_eq!(ensure_requirement_is_valid(3, 4), Err(Refusal::InvalidRequirement));
    assert_eq!(ensure_requirement_is_valid(3, 0), Err(Refusal::InvalidRequirement));
    assert_eq!(ensure_requirement_is_valid(0, 0), Err(Refusal::InvalidRequirement));
    assert_eq!(ensure_requirement_is_valid(51, 1), Err(Refusal::InvalidRequirement));
}

#[test]
fn last_owner_cannot_be_removed() {
    let mut wallet = MultisigPlain::new(1, vec![ALICE]);
    let refused = wallet.handle(&mut env_of(WALLET), Message::RemoveOwner { owner: ALICE });
    assert_eq!(refused, Err(Refusal::InvalidRequirement));
    assert_eq!(*wallet.owners(), vec![ALICE]);
}

#[test]
fn requirement_follows_the_number_of_owners_down() {
    let mut wallet = three_owners(3);
    let mut env = env_of(WALLET);
    wallet.remove_owner(&mut env, ALICE);
    assert_eq!(wallet.requirement(), 2);
    assert_eq!(*wallet.owners(), vec![EVE, BOB]);
    assert_eq!(env.events, vec![Event::OwnerRemoval(OwnerRemoval { owner: ALICE })]);

    let mut wallet = three_owners(1);
    wallet.remove_owner(&mut env, BOB);
    assert_eq!(wallet.requirement(), 1);
    assert_eq!(*wallet.owners(), vec![ALICE, EVE]);
}

#[test]
fn removed_owner_leaves_no_confirmation() {
    let mut wallet = three_owners(2);
    let first = submit(&mut wallet, ALICE, 1);
    let second = submit(&mut wallet, BOB, 2);
    confirm(&mut wallet, BOB, first);
    assert_eq!(wallet.ensure_confirmed(first), Ok(()));
    wallet.remove_owner(&mut env_of(WALLET), BOB);
    assert_eq!(wallet.confirmation_count(first), Some(1));
    assert_eq!(wallet.confirmation_count(second), Some(0));
    assert_eq!(wallet.number_of_confirmations(), 1);
    assert!(wallet.has_confirmed(first, ALICE));
    assert!(!wallet.has_confirmed(first, BOB));
    assert_eq!(wallet.ensure_confirmed(first), Err(Refusal::NotConfirmed));
}

#[test]
fn replaced_owner_leaves_no_confirmation() {
    let mut wallet = three_owners(2);
    let id = submit(&mut wallet, BOB, 1);
    confirm(&mut wallet, EVE, id);
    let mut env = env_of(WALLET);
    wallet.replace_owner(&mut env, BOB, FRANK);
    assert_eq!(*wallet.owners(), vec![ALICE, FRANK, EVE]);
    assert_eq!(wallet.confirmation_count(id), Some(1));
    assert!(!wallet.has_confirmed(id, BOB));
    assert!(!wallet.has_confirmed(id, FRANK));
    assert!(wallet.has_confirmed(id, EVE));
    assert_eq!(
        env.events,
        vec![
            Event::OwnerRemoval(OwnerRemoval { owner: BOB }),
            Event::OwnerAddition(OwnerAddition { owner: FRANK }),
        ]
    );
    wallet.replace_owner(&mut env, FRANK, BOB);
    assert_eq!(*wallet.owners(), vec![ALICE, BOB, EVE]);
}

#[test]
fn removing_undoes_adding() {
    let mut wallet = three_owners(2);
    let id = submit(&mut wallet, ALICE, 1);
    let mut env = env_of(WALLET);
    wallet.add_owner(&mut env, FRANK);
    assert_eq!(*wallet.owners(), vec![ALICE, BOB, EVE, FRANK]);
    wallet.remove_owner(&mut env, FRANK);
    assert_eq!(*wallet.owners(), vec![ALICE, BOB, EVE]);
    assert_eq!(wallet.requirement(), 2);
    assert_eq!(wallet.confirmation_count(id), Some(1));
}

#[test]
fn confirmations_are_counted_down() {
    let mut wallet = three_owners(3);
    let mut env = env_of(ALICE);
    let (id, status) = wallet.submit_transaction(&mut env, transaction(1));
    assert_eq!(status, ConfirmationStatus::ConfirmationsNeeded(2));
    assert_eq!(confirm(&mut wallet, BOB, id), ConfirmationStatus::ConfirmationsNeeded(1));
    assert_eq!(confirm(&mut wallet, BOB, id), ConfirmationStatus::ConfirmationsNeeded(1));
    assert_eq!(confirm(&mut wallet, EVE, id), ConfirmationStatus::Confirmed);
    assert_eq!(
        env.events,
        vec![
            Event::Submission(Submission { transaction: id }),
            Event::Confirmation(Confirmation {
                transaction: id,
                from: ALICE,
                status: ConfirmationStatus::ConfirmationsNeeded(2),
            }),
        ]
    );
    // Reaching the threshold executes nothing.
    assert_eq!(wallet.transactions().len(), 1);
}

#[test]
fn single_owner_requirement_is_confirmed_on_submission() {
    let mut wallet = three_owners(1);
    let (id, status) = wallet.submit_transaction(&mut env_of(EVE), transaction(1));
    assert_eq!(status, ConfirmationStatus::Confirmed);
    assert_eq!(wallet.ensure_confirmed(id), Ok(()));
}

#[test]
fn revoking_and_confirming_undo_each_other() {
    let mut wallet = three_owners(2);
    let id = submit(&mut wallet, ALICE, 1);
    confirm(&mut wallet, BOB, id);
    let mut env = env_of(BOB);
    wallet.revoke_confirmation(&mut env, id);
    assert_eq!(env.events, vec![Event::Revokation(Revokation { transaction: id, from: BOB })]);
    assert_eq!(wallet.confirmation_count(id), Some(1));
    assert_eq!(wallet.ensure_confirmed(id), Err(Refusal::NotConfirmed));
    assert_eq!(confirm(&mut wallet, BOB, id), ConfirmationStatus::Confirmed);
    assert_eq!(wallet.confirmation_count(id), Some(2));
}

#[test]
fn unknown_transactions_are_refused() {
    let mut wallet = three_owners(1);
    for message in vec![
        Message::ConfirmTransaction { trans_id: 0 },
        Message::RevokeConfirmation { trans_id: 0 },
        Message::InvokeTransaction { trans_id: 0 },
        Message::EvalTransaction { trans_id: 0 },
    ] {
        let mut env = env_of(ALICE);
        assert_eq!(wallet.handle(&mut env, message), Err(Refusal::WrongTransactionId));
        assert_eq!(env.events, vec![]);
    }
    let ignored = wallet.handle(&mut env_of(WALLET), Message::CancelTransaction { trans_id: 0 });
    assert_eq!(ignored, Ok(Reply::Done));
}

#[test]
fn administration_is_for_the_wallet_only() {
    for caller in vec![ALICE, FRANK] {
        for message in vec![
            Message::AddOwner { new_owner: FRANK },
            Message::RemoveOwner { owner: BOB },
            Message::ReplaceOwner { old_owner: BOB, new_owner: FRANK },
            Message::ChangeRequirement { new_requirement: 1 },
            Message::CancelTransaction { trans_id: 0 },
        ] {
            let mut wallet = three_owners(2);
            let id = submit(&mut wallet, ALICE, 1);
            let mut env = env_of(caller);
            assert_eq!(wallet.handle(&mut env, message), Err(Refusal::NotFromWallet));
            assert_eq!(env.events, vec![]);
            assert_eq!(*wallet.owners(), vec![ALICE, BOB, EVE]);
            assert_eq!(wallet.requirement(), 2);
            assert_eq!(wallet.transactions().get(id), Some(&transaction(1)));
        }
    }
}

#[test]
fn taking_part_is_for_owners_only() {
    for caller in vec![FRANK, WALLET] {
        for message in vec![
            Message::SubmitTransaction { transaction: transaction(2) },
            Message::ConfirmTransaction { trans_id: 0 },
            Message::RevokeConfirmation { trans_id: 0 },
        ] {
            let mut wallet = three_owners(2);
            submit(&mut wallet, ALICE, 1);
            assert_eq!(wallet.handle(&mut env_of(caller), message), Err(Refusal::NotAnOwner));
            assert_eq!(wallet.transactions().len(), 1);
            assert_eq!(wallet.number_of_confirmations(), 1);
        }
    }
}

#[test]
fn each_reason_of_the_owner_messages() {
    let mut wallet = three_owners(2);
    let mut env = env_of(WALLET);
    assert_eq!(
        wallet.handle(&mut env, Message::AddOwner { new_owner: BOB }),
        Err(Refusal::AlreadyAnOwner)
    );
    assert_eq!(
        wallet.handle(&mut env, Message::RemoveOwner { owner: FRANK }),
        Err(Refusal::NotAnOwner)
    );
    assert_eq!(
        wallet.handle(&mut env, Message::ReplaceOwner { old_owner: FRANK, new_owner: (8, 8) }),
        Err(Refusal::NotAnOwner)
    );
    assert_eq!(
        wallet.handle(&mut env, Message::ReplaceOwner { old_owner: ALICE, new_owner: BOB }),
        Err(Refusal::AlreadyAnOwner)
    );
    assert_eq!(
        wallet.handle(&mut env, Message::ChangeRequirement { new_requirement: 4 }),
        Err(Refusal::InvalidRequirement)
    );
    assert_eq!(
        wallet.handle(&mut env, Message::ChangeRequirement { new_requirement: 3 }),
        Ok(Reply::Done)
    );
    assert_eq!(
        env.events,
        vec![Event::RequirementChange(RequirementChange { new_requirement: 3 })]
    );
}

#[test]
fn anyone_executes_a_confirmed_transaction_once() {
    let mut wallet = three_owners(2);
    let id = submit(&mut wallet, ALICE, 1);
    let too_early = wallet.handle(&mut env_of(FRANK), Message::EvalTransaction { trans_id: id });
    assert_eq!(too_early, Err(Refusal::NotConfirmed));
    confirm(&mut wallet, EVE, id);
    let mut env = env_of(FRANK);
    let reply = wallet.handle(&mut env, Message::EvalTransaction { trans_id: id });
    assert_eq!(reply, Ok(Reply::Call(parameterize_call(CallMode::Eval, transaction(1)))));
    assert_eq!(env.events, vec![]);
    let again = wallet.handle(&mut env, Message::EvalTransaction { trans_id: id });
    assert_eq!(again, Err(Refusal::WrongTransactionId));
}

#[test]
fn owner_is_added_through_a_transaction_of_the_wallet() {
    let mut wallet = MultisigPlain::new(2, vec![BOB, EVE]);
    let add_alice = Transaction {
        callee: WALLET,
        selector: [1, 2, 3, 4],
        input: vec![1; 32],
        transferred_value: 0,
        gas_limit: 0,
    };
    let (id, _) = wallet.submit_transaction(&mut env_of(BOB), add_alice);
    confirm(&mut wallet, EVE, id);
    let call = wallet.invoke_transaction(id);
    assert_eq!(call.callee, WALLET);
    // The call comes back to the wallet, which is its own sender now.
    wallet.add_owner(&mut env_of(call.callee), ALICE);
    assert_eq!(MultisigPlain::invoke_finished(&mut env_of(BOB), id, Ok(())), Ok(()));
    assert_eq!(*wallet.owners(), vec![BOB, EVE, ALICE]);
    assert_eq!(wallet.requirement(), 2);
}

#[test]
fn nobody_votes_for_another() {
    let mut wallet = three_owners(3);
    let id = submit(&mut wallet, ALICE, 1);
    confirm(&mut wallet, BOB, id);
    assert!(!wallet.has_confirmed(id, EVE));
    wallet.revoke_confirmation(&mut env_of(BOB), id);
    assert!(wallet.has_confirmed(id, ALICE));
    assert!(!wallet.has_confirmed(id, BOB));
}

#[test]
fn outcomes_are_recorded() {
    let mut env = env_of(FRANK);
    assert_eq!(MultisigPlain::invoke_finished(&mut env, 3, Ok(())), Ok(()));
    assert_eq!(MultisigPlain::invoke_finished(&mut env, 4, Err(())), Err(()));
    assert_eq!(MultisigPlain::eval_finished(&mut env, 5, Ok(vec![1, 2])), Ok(vec![1, 2]));
    assert_eq!(MultisigPlain::eval_finished(&mut env, 6, Err(())), Err(()));
    assert_eq!(
        env.events,
        vec![
            Event::Execution(Execution { transaction: 3, result: Ok(None) }),
            Event::Execution(Execution { transaction: 4, result: Err(()) }),
            Event::Execution(Execution { transaction: 5, result: Ok(Some(vec![1, 2])) }),
            Event::Execution(Execution { transaction: 6, result: Err(()) }),
        ]
    );
}

#[test]
fn call_carries_what_the_transaction_says() {
    let call = parameterize_call(CallMode::Invoke, transaction(8));
    assert_eq!(call.mode, CallMode::Invoke);
    assert_eq!(call.callee, (9, 8));
    assert_eq!(call.selector, [8, 2, 3, 4]);
    assert_eq!(call.gas_limit, 500);
    assert_eq!(call.transferred_value, 18);
    assert_eq!(call.input, vec![8, 8]);
    assert_eq!(call.data(), vec![8, 2, 3, 4, 8, 8]);
}

#[test]
fn call_input_is_written_as_it_is() {
    let mut bytes = vec![1];
    CallInput(&[2, 3]).encode_to(&mut bytes);
    assert_eq!(bytes, vec![1, 2, 3]);
}

#[test]
fn transaction_ids_are_stable() {
    let mut wallet = three_owners(2);
    let first = submit(&mut wallet, ALICE, 1);
    let second = submit(&mut wallet, BOB, 2);
    let third = submit(&mut wallet, EVE, 3);
    assert_eq!((first, second, third), (0, 1, 2));
    let mut env = env_of(WALLET);
    wallet.cancel_transaction(&mut env, second);
    assert_eq!(env.events, vec![Event::Cancelation(Cancelation { transaction: second })]);
    assert_eq!(wallet.transactions().get(first), Some(&transaction(1)));
    assert_eq!(wallet.transactions().get(second), None);
    assert_eq!(wallet.transactions().get(third), Some(&transaction(3)));
    assert_eq!(wallet.confirmation_count(first), Some(1));
    assert_eq!(wallet.confirmation_count(second), None);
    assert_eq!(wallet.confirmation_count(third), Some(1));
    // The id is used again, without the confirmations it had.
    assert_eq!(submit(&mut wallet, ALICE, 4), second);
    assert!(!wallet.has_confirmed(second, BOB));
    assert_eq!(wallet.confirmation_count(second), Some(1));
}

#[test]
fn canceling_undoes_submitting() {
    let mut wallet = three_owners(2);
    let kept = submit(&mut wallet, ALICE, 1);
    let id = submit(&mut wallet, BOB, 2);
    wallet.cancel_transaction(&mut env_of(WALLET), id);
    assert_eq!(wallet.transactions().len(), 1);
    assert_eq!(wallet.number_of_confirmations(), 1);
    assert_eq!(wallet.confirmation_count(kept), Some(1));
}

#[test]
fn stash_hands_out_the_id_given_back_last() {
    let mut stash: Stash<char> = Stash::new();
    assert_eq!(stash.put('a'), 0);
    assert_eq!(stash.put('b'), 1);
    assert_eq!(stash.put('c'), 2);
    assert_eq!(stash.take(0), Some('a'));
    assert_eq!(stash.take(0), None);
    assert_eq!(stash.take(2), Some('c'));
    assert_eq!(stash.take(9), None);
    assert_eq!(stash.len(), 1);
    assert_eq!(stash.slots(), 3);
    assert_eq!(stash.put('d'), 2);
    assert_eq!(stash.put('e'), 0);
    assert_eq!(stash.put('f'), 3);
    assert_eq!(stash.get(2), Some(&'d'));
    assert_eq!(stash.get(1), Some(&'b'));
    assert_eq!(stash.get(4), None);
    assert!(!stash.is_full());
}
