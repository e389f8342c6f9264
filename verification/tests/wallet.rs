use multisig_plain::{
    AccountId, CallMode, Env, Event, Execution, Message, MultisigPlain, Reply, Transaction,
};
use parity_scale_codec::Encode;

const WALLET: u8 = 7;

struct Accounts {
    alice: AccountId,
    bob: AccountId,
    charlie: AccountId,
    django: AccountId,
    eve: AccountId,
    frank: AccountId,
}

fn account(byte: u8) -> AccountId {
    (
        u128::from_be_bytes([byte; 16]),
        u128::from_be_bytes([byte; 16]),
    )
}

fn default_accounts() -> Accounts {
    Accounts {
        alice: account(1),
        bob: account(2),
        charlie: account(3),
        django: account(4),
        eve: account(5),
        frank: account(6),
    }
}

fn change_requirement_transaction(requirement: u32) -> Transaction {
    Transaction {
        callee: account(WALLET),
        selector: [0xBE, 0x57, 0x7F, 0x48],
        input: requirement.encode(),
        transferred_value: 0,
        gas_limit: 1000000,
    }
}

fn new_env() -> Env {
    Env::new(account(WALLET), account(WALLET))
}

fn set_sender(env: &mut Env, sender: AccountId) {
    env.caller = sender;
}

fn set_from_wallet(env: &mut Env) {
    set_sender(env, account(WALLET));
}

fn set_from_owner(env: &mut Env) {
    set_sender(env, default_accounts().alice);
}

fn set_from_noowner(env: &mut Env) {
    set_sender(env, default_accounts().django);
}

fn build_contract() -> MultisigPlain {
    let accounts = default_accounts();
    let owners = vec![accounts.alice, accounts.bob, accounts.eve];
    MultisigPlain::new(2, owners)
}

fn submit_transaction(env: &mut Env) -> MultisigPlain {
    let mut contract = build_contract();
    let accounts = default_accounts();
    set_from_owner(env);
    contract.submit_transaction(env, change_requirement_transaction(1));
    assert_eq!(contract.transactions().len(), 1);
    assert_eq!(env.events.len(), 2);
    let transaction = contract.transactions().get(0).unwrap();
    assert_eq!(*transaction, change_requirement_transaction(1));
    assert!(contract.has_confirmed(0, accounts.alice));
    assert_eq!(contract.number_of_confirmations(), 1);
    assert_eq!(contract.confirmation_count(0).unwrap(), 1);
    contract
}

#[test]
fn construction_works() {
    let accounts = default_accounts();
    let owners = vec![accounts.alice, accounts.bob, accounts.eve];
    let contract = build_contract();

    assert_eq!(contract.requirement(), 2);
    assert!(contract.owners().iter().eq(owners.iter()));
    assert!(contract.ensure_owner(&accounts.alice).is_ok());
    assert!(contract.ensure_owner(&accounts.bob).is_ok());
    assert!(contract.ensure_owner(&accounts.eve).is_ok());
    assert!(contract.ensure_owner(&accounts.charlie).is_err());
    assert!(contract.ensure_owner(&accounts.django).is_err());
    assert!(contract.ensure_owner(&accounts.frank).is_err());
    assert_eq!(contract.number_of_confirmations(), 0);
    assert_eq!(contract.number_of_confirmation_counts(), 0);
    assert_eq!(contract.transactions().len(), 0);
}

#[test]
#[should_panic]
fn empty_owner_construction_fails() {
    MultisigPlain::deploy(0, vec![]).unwrap_or_else(|refusal| panic!("{:?}", refusal));
}

#[test]
#[should_panic]
fn zero_requirement_construction_fails() {
    let accounts = default_accounts();
    MultisigPlain::deploy(0, vec![accounts.alice, accounts.bob])
        .unwrap_or_else(|refusal| panic!("{:?}", refusal));
}

#[test]
#[should_panic]
fn too_large_requirement_construction_fails() {
    let accounts = default_accounts();
    MultisigPlain::deploy(3, vec![accounts.alice, accounts.bob])
        .unwrap_or_else(|refusal| panic!("{:?}", refusal));
}

#[test]
fn add_owner_works() {
    let accounts = default_accounts();
    let mut contract = build_contract();
    let mut env = new_env();
    set_from_wallet(&mut env);
    let owners = contract.owners().len();
    contract.add_owner(&mut env, accounts.frank);
    assert_eq!(contract.owners().len(), owners + 1);
    assert!(contract.ensure_owner(&accounts.frank).is_ok());
    assert_eq!(env.events.len(), 1);
}

#[test]
#[should_panic]
fn add_existing_owner_fails() {
    let accounts = default_accounts();
    let mut contract = build_contract();
    let mut env = new_env();
    set_from_wallet(&mut env);
    contract.handle(&mut env, Message::AddOwner { new_owner: accounts.bob }).unwrap();
}

#[test]
#[should_panic]
fn add_owner_permission_denied_fails() {
    let accounts = default_accounts();
    let mut contract = build_contract();
    let mut env = new_env();
    set_from_owner(&mut env);
    contract.handle(&mut env, Message::AddOwner { new_owner: accounts.frank }).unwrap();
}

#[test]
fn remove_owner_works() {
    let accounts = default_accounts();
    let mut contract = build_contract();
    let mut env = new_env();
    set_from_wallet(&mut env);
    let owners = contract.owners().len();
    contract.remove_owner(&mut env, accounts.alice);
    assert_eq!(contract.owners().len(), owners - 1);
    assert!(contract.ensure_owner(&accounts.alice).is_err());
    assert_eq!(env.events.len(), 1);
}

#[test]
#[should_panic]
fn remove_owner_nonexisting_fails() {
    let accounts = default_accounts();
    let mut contract = build_contract();
    let mut env = new_env();
    set_from_wallet(&mut env);
    contract.handle(&mut env, Message::RemoveOwner { owner: accounts.django }).unwrap();
}

#[test]
#[should_panic]
fn remove_owner_permission_denied_fails() {
    let accounts = default_accounts();
    let mut contract = build_contract();
    let mut env = new_env();
    set_from_owner(&mut env);
    contract.handle(&mut env, Message::RemoveOwner { owner: accounts.alice }).unwrap();
}

#[test]
fn replace_owner_works() {
    let accounts = default_accounts();
    let mut contract = build_contract();
    let mut env = new_env();
    set_from_wallet(&mut env);
    let owners = contract.owners().len();
    contract.replace_owner(&mut env, accounts.alice, accounts.django);
    assert_eq!(contract.owners().len(), owners);
    assert!(contract.ensure_owner(&accounts.alice).is_err());
    assert!(contract.ensure_owner(&accounts.django).is_ok());
    assert_eq!(env.events.len(), 2);
}

#[test]
#[should_panic]
fn replace_owner_existing_fails() {
    let accounts = default_accounts();
    let mut contract = build_contract();
    let mut env = new_env();
    set_from_wallet(&mut env);
    let message = Message::ReplaceOwner { old_owner: accounts.alice, new_owner: accounts.bob };
    contract.handle(&mut env, message).unwrap();
}

#[test]
#[should_panic]
fn replace_owner_nonexisting_fails() {
    let accounts = default_accounts();
    let mut contract = build_contract();
    let mut env = new_env();
    set_from_wallet(&mut env);
    let message = Message::ReplaceOwner { old_owner: accounts.django, new_owner: accounts.frank };
    contract.handle(&mut env, message).unwrap();
}

#[test]
#[should_panic]
fn replace_owner_permission_denied_fails() {
    let accounts = default_accounts();
    let mut contract = build_contract();
    let mut env = new_env();
    set_from_owner(&mut env);
    let message = Message::ReplaceOwner { old_owner: accounts.alice, new_owner: accounts.django };
    contract.handle(&mut env, message).unwrap();
}

#[test]
fn change_requirement_works() {
    let mut contract = build_contract();
    let mut env = new_env();
    assert_eq!(contract.requirement(), 2);
    set_from_wallet(&mut env);
    contract.change_requirement(&mut env, 3);
    assert_eq!(contract.requirement(), 3);
    assert_eq!(env.events.len(), 1);
}

#[test]
#[should_panic]
fn change_requirement_too_high_fails() {
    let mut contract = build_contract();
    let mut env = new_env();
    set_from_wallet(&mut env);
    contract.handle(&mut env, Message::ChangeRequirement { new_requirement: 4 }).unwrap();
}

#[test]
#[should_panic]
fn change_requirement_zero_fails() {
    let mut contract = build_contract();
    let mut env = new_env();
    set_from_wallet(&mut env);
    contract.handle(&mut env, Message::ChangeRequirement { new_requirement: 0 }).unwrap();
}

#[test]
fn submit_transaction_works() {
    submit_transaction(&mut new_env());
}

#[test]
#[should_panic]
fn submit_transaction_noowner_fails() {
    let mut contract = build_contract();
    let mut env = new_env();
    set_from_noowner(&mut env);
    let transaction = change_requirement_transaction(1);
    contract.handle(&mut env, Message::SubmitTransaction { transaction }).unwrap();
}

#[test]
#[should_panic]
fn submit_transaction_wallet_fails() {
    let mut contract = build_contract();
    let mut env = new_env();
    set_from_wallet(&mut env);
    let transaction = change_requirement_transaction(1);
    contract.handle(&mut env, Message::SubmitTransaction { transaction }).unwrap();
}

#[test]
fn cancel_transaction_works() {
    let mut env = new_env();
    let mut contract = submit_transaction(&mut env);
    set_from_wallet(&mut env);
    contract.cancel_transaction(&mut env, 0);
    assert_eq!(contract.transactions().len(), 0);
    assert_eq!(env.events.len(), 3);
}

#[test]
fn cancel_transaction_nonexisting() {
    let mut env = new_env();
    let mut contract = submit_transaction(&mut env);
    set_from_wallet(&mut env);
    contract.cancel_transaction(&mut env, 1);
    assert_eq!(contract.transactions().len(), 1);
    assert_eq!(env.events.len(), 2);
}

#[test]
#[should_panic]
fn cancel_transaction_no_permission_fails() {
    let mut env = new_env();
    let mut contract = submit_transaction(&mut env);
    contract.handle(&mut env, Message::CancelTransaction { trans_id: 0 }).unwrap();
}

#[test]
fn confirm_transaction_works() {
    let mut env = new_env();
    let mut contract = submit_transaction(&mut env);
    let accounts = default_accounts();
    set_sender(&mut env, accounts.bob);
    contract.confirm_transaction(&mut env, 0);
    assert_eq!(env.events.len(), 3);
    assert!(contract.has_confirmed(0, accounts.bob));
    assert_eq!(contract.number_of_confirmations(), 2);
    assert_eq!(contract.confirmation_count(0).unwrap(), 2);
}

#[test]
fn confirm_transaction_already_confirmed() {
    let mut env = new_env();
    let mut contract = submit_transaction(&mut env);
    let accounts = default_accounts();
    set_sender(&mut env, accounts.alice);
    contract.confirm_transaction(&mut env, 0);
    assert_eq!(env.events.len(), 2);
    assert!(contract.has_confirmed(0, accounts.alice));
    assert_eq!(contract.number_of_confirmations(), 1);
    assert_eq!(contract.confirmation_count(0).unwrap(), 1);
}

#[test]
#[should_panic]
fn confirm_transaction_noowner_fail() {
    let mut env = new_env();
    let mut contract = submit_transaction(&mut env);
    set_from_noowner(&mut env);
    contract.handle(&mut env, Message::ConfirmTransaction { trans_id: 0 }).unwrap();
}

#[test]
fn revoke_transaction_works() {
    let mut env = new_env();
    let mut contract = submit_transaction(&mut env);
    let accounts = default_accounts();
    set_sender(&mut env, accounts.alice);
    contract.revoke_confirmation(&mut env, 0);
    assert_eq!(env.events.len(), 3);
    assert!(!contract.has_confirmed(0, accounts.alice));
    assert_eq!(contract.number_of_confirmations(), 0);
    assert_eq!(contract.confirmation_count(0).unwrap(), 0);
}

#[test]
fn revoke_transaction_no_confirmer() {
    let mut env = new_env();
    let mut contract = submit_transaction(&mut env);
    let accounts = default_accounts();
    set_sender(&mut env, accounts.bob);
    contract.revoke_confirmation(&mut env, 0);
    assert_eq!(env.events.len(), 2);
    assert!(contract.has_confirmed(0, accounts.alice));
    assert_eq!(contract.number_of_confirmations(), 1);
    assert_eq!(contract.confirmation_count(0).unwrap(), 1);
}

#[test]
#[should_panic]
fn revoke_transaction_noowner_fail() {
    let mut env = new_env();
    let mut contract = submit_transaction(&mut env);
    let accounts = default_accounts();
    set_sender(&mut env, accounts.django);
    contract.handle(&mut env, Message::RevokeConfirmation { trans_id: 0 }).unwrap();
}

#[test]
fn execute_transaction_works() {
    let mut env = new_env();
    let mut contract = submit_transaction(&mut env);
    let accounts = default_accounts();
    set_sender(&mut env, accounts.bob);
    contract.confirm_transaction(&mut env, 0);

    set_from_noowner(&mut env);
    let reply = contract.handle(&mut env, Message::InvokeTransaction { trans_id: 0 }).unwrap();
    let call = match reply {
        Reply::Call(call) => call,
        other => panic!("{:?}", other),
    };
    assert_eq!(call.mode, CallMode::Invoke);
    assert_eq!(call.callee, account(WALLET));
    assert_eq!(call.gas_limit, 1000000);
    assert_eq!(call.transferred_value, 0);
    assert_eq!(call.data(), vec![0xBE, 0x57, 0x7F, 0x48, 1, 0, 0, 0]);
    assert_eq!(contract.transactions().len(), 0);
    assert_eq!(contract.number_of_confirmations(), 0);
    assert_eq!(contract.confirmation_count(0), None);

    // The call reaches the wallet itself before it returns.
    set_from_wallet(&mut env);
    contract.change_requirement(&mut env, 1);
    assert_eq!(contract.requirement(), 1);

    set_from_noowner(&mut env);
    assert_eq!(MultisigPlain::invoke_finished(&mut env, 0, Ok(())), Ok(()));
    assert_eq!(env.events.len(), 5);
    assert_eq!(
        env.events[4],
        Event::Execution(Execution { transaction: 0, result: Ok(None) })
    );
}
