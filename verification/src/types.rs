use ink_prelude::vec::Vec;
use vstd::prelude::*;

verus! {

/// An account. The 32 bytes that identify it are held as two big-endian halves, the
/// more significant half first, so that accounts are ordered as their bytes are.
pub type AccountId = (u128, u128);

/// Tells whether `a` and `b` are the same account.
pub fn same_account(a: &AccountId, b: &AccountId) -> (same: bool)
    ensures
        same == (*a == *b),
{
    a.0 == b.0 && a.1 == b.1
}

/// An amount of chain balance.
pub type Balance = u128;

/// Identifies a submitted transaction for as long as the wallet holds it.
pub type TransactionId = u32;

/// Indicates whether a transaction is already confirmed or needs further confirmations.
#[derive(Clone, Copy, Debug, PartialEq, Eq, Structural)]
pub enum ConfirmationStatus {
    /// The transaction is already confirmed.
    Confirmed,
    /// Indicates how many confirmations are remaining.
    ConfirmationsNeeded(u32),
}

/// A Transaction is what every `owner` can submit for confirmation by other owners.
/// If enough owners agree it will be executed by the contract.
#[derive(Debug, PartialEq, Eq)]
pub struct Transaction {
    /// The AccountId of the contract that is called in this transaction.
    pub callee: AccountId,
    /// The selector bytes that identifies the function of the callee that should be called.
    pub selector: [u8; 4],
    /// The SCALE encoded parameters that are passed to the called function.
    pub input: Vec<u8>,
    /// The amount of chain balance that is transferred to the callee.
    pub transferred_value: Balance,
    /// Gas limit for the execution of the call.
    pub gas_limit: u64,
}

/// Whether the output of a call is wanted.
#[derive(Clone, Copy, Debug, PartialEq, Eq, Structural)]
pub enum CallMode {
    /// Call without getting the output.
    Invoke,
    /// Call and get the output as bytes.
    Eval,
}

/// A call to another contract that is to be made with the wallet as the sender.
#[derive(Debug, PartialEq, Eq)]
pub struct CallRequest {
    pub mode: CallMode,
    /// The contract that is called.
    pub callee: AccountId,
    /// The selector bytes of the called function.
    pub selector: [u8; 4],
    /// The gas limit of the call.
    pub gas_limit: u64,
    /// The balance that goes to the callee.
    pub transferred_value: Balance,
    /// The encoded parameters. They follow the selector as they are, with nothing added.
    pub input: Vec<u8>,
}

/// Calls `parity_scale_codec::Output::write` on a byte vector.
///
/// Claimed of it: the bytes are appended to the vector as they are, and nothing else of the
/// vector changes.
#[verifier::external_body]
fn scale_write(dest: &mut Vec<u8>, bytes: &[u8])
    ensures
        final(dest)@ == old(dest)@ + bytes@,
{
    parity_scale_codec::Output::write(dest, bytes);
}

/// A wrapper that allows us to encode a blob of bytes.
///
/// The parameters of a transaction are untyped and encoded already: they are passed on as
/// they are, without a length in front.
pub struct CallInput<'a>(pub &'a [u8]);

impl<'a> CallInput<'a> {
    /// Appends the bytes to `dest`.
    pub fn encode_to(&self, dest: &mut Vec<u8>)
        ensures
            final(dest)@ == old(dest)@ + self.0@,
    {
        scale_write(dest, self.0);
    }
}

impl CallRequest {
    /// The bytes that are sent to the callee: the selector, then the parameters.
    pub fn data(&self) -> (data: Vec<u8>)
        ensures
            data@ == self.selector@ + self.input@,
    {
        let mut data: Vec<u8> = Vec::new();
        CallInput(self.selector.as_slice()).encode_to(&mut data);
        CallInput(self.input.as_slice()).encode_to(&mut data);
        assert(data@ =~= self.selector@ + self.input@);
        data
    }
}

/// The call that executes `t`.
pub open spec fn call_of(mode: CallMode, t: Transaction) -> CallRequest {
    CallRequest {
        mode,
        callee: t.callee,
        selector: t.selector,
        gas_limit: t.gas_limit,
        transferred_value: t.transferred_value,
        input: t.input,
    }
}

/// Parameterize a call with the arguments stored inside a transaction.
pub fn parameterize_call(mode: CallMode, t: Transaction) -> (call: CallRequest)
    ensures
        call == call_of(mode, t),
        call.mode == mode,
        call.callee == t.callee,
        call.selector@ == t.selector@,
        call.gas_limit == t.gas_limit,
        call.transferred_value == t.transferred_value,
        call.input@ == t.input@,
{
    CallRequest {
        mode,
        callee: t.callee,
        selector: t.selector,
        gas_limit: t.gas_limit,
        transferred_value: t.transferred_value,
        input: t.input,
    }
}

/// Why a request is turned down.
#[derive(Clone, Copy, Debug, PartialEq, Eq, Structural)]
pub enum Refusal {
    /// Only the wallet itself may send this message.
    NotFromWallet,
    /// The account is no owner of the wallet.
    NotAnOwner,
    /// The account already is an owner of the wallet.
    AlreadyAnOwner,
    /// The number of owners and the requirement would not go together.
    InvalidRequirement,
    /// The user specified an invalid transaction id.
    WrongTransactionId,
    /// Too few owners have confirmed the transaction.
    NotConfirmed,
    /// Every transaction id is in use.
    OutOfTransactionIds,
}

/// The answer of a check that finds `reason` or nothing to refuse a request for.
pub open spec fn verdict(reason: Option<Refusal>) -> Result<(), Refusal> {
    match reason {
        None => Ok(()),
        Some(refusal) => Err(refusal),
    }
}

} // verus!
