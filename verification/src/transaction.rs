//! Building the signed transfer transaction of one sender and one receiver.

use crate::ledger::{
    keypair_accepted, keypair_accepts, sign_with_payer, signed_by, system_transfer,
};
use crate::wallet::{ReceiverAddress, SenderIdentity};
use vstd::prelude::*;

verus! {

/// The public address of an account: the 32 bytes of its public key.
#[derive(Clone, Copy, Debug, PartialEq, Eq)]
pub struct Address {
    pub bytes: [u8; 32],
}

impl View for Address {
    type V = Seq<u8>;

    open spec fn view(&self) -> Seq<u8> {
        self.bytes@
    }
}

/// The signature that identifies a transaction on the ledger: 64 bytes.
#[derive(Clone, Copy, Debug, PartialEq, Eq)]
pub struct Signature {
    pub bytes: [u8; 64],
}

impl View for Signature {
    type V = Seq<u8>;

    open spec fn view(&self) -> Seq<u8> {
        self.bytes@
    }
}

/// A token of the ledger's recent state, which a transaction must carry to be
/// valid. It expires after a short while, so each transaction gets a fresh
/// one.
#[derive(Clone, Copy, Debug, PartialEq, Eq)]
pub struct BlockReference {
    pub hash: [u8; 32],
}

impl View for BlockReference {
    type V = Seq<u8>;

    open spec fn view(&self) -> Seq<u8> {
        self.hash@
    }
}

/// One account that an instruction names, with what the instruction asks of it.
#[derive(Clone, Copy, Debug, PartialEq, Eq)]
pub struct AccountRole {
    pub address: Address,
    /// The transaction must carry this account's signature.
    pub signer: bool,
    /// The instruction may change the account.
    pub writable: bool,
}

impl View for AccountRole {
    type V = (Seq<u8>, bool, bool);

    open spec fn view(&self) -> (Seq<u8>, bool, bool) {
        (self.address@, self.signer, self.writable)
    }
}

/// An instruction for a program of the ledger.
#[derive(Clone, Debug, PartialEq, Eq)]
pub struct Instruction {
    /// The program that carries the instruction out.
    pub program: Address,
    /// The accounts that the instruction names, in order.
    pub accounts: Vec<AccountRole>,
    /// What the program reads.
    pub data: Vec<u8>,
}

/// An [`Instruction`] as plain sequences.
pub ghost struct InstructionView {
    pub program: Seq<u8>,
    pub accounts: Seq<(Seq<u8>, bool, bool)>,
    pub data: Seq<u8>,
}

impl View for Instruction {
    type V = InstructionView;

    open spec fn view(&self) -> InstructionView {
        InstructionView {
            program: self.program@,
            accounts: Seq::new(self.accounts@.len(), |i: int| self.accounts@[i]@),
            data: self.data@,
        }
    }
}

/// The address of the system program, which moves funds: 32 zero bytes.
pub open spec fn system_program() -> Seq<u8> {
    Seq::new(32, |i: int| 0u8)
}

/// The eight bytes of `value`, lowest first.
pub open spec fn le_bytes(value: u64) -> Seq<u8> {
    seq![
        (value % 0x100) as u8,
        (value / 0x100 % 0x100) as u8,
        (value / 0x1_0000 % 0x100) as u8,
        (value / 0x100_0000 % 0x100) as u8,
        (value / 0x1_0000_0000 % 0x100) as u8,
        (value / 0x100_0000_0000 % 0x100) as u8,
        (value / 0x1_0000_0000_0000 % 0x100) as u8,
        (value / 0x100_0000_0000_0000 % 0x100) as u8,
    ]
}

/// The data of a transfer by the system program: the number 2 in four bytes,
/// then the amount in eight.
pub open spec fn transfer_data(lamports: u64) -> Seq<u8> {
    seq![2u8, 0u8, 0u8, 0u8] + le_bytes(lamports)
}

/// The instruction that moves `lamports` base units from `from` to `to`: the
/// sender signs and is charged, the receiver is credited.
pub open spec fn transfer_instruction(from: Seq<u8>, to: Seq<u8>, lamports: u64) -> InstructionView {
    InstructionView {
        program: system_program(),
        accounts: seq![(from, true, true), (to, false, true)],
        data: transfer_data(lamports),
    }
}

/// Why no transaction could be built.
#[derive(Clone, Copy, Debug, PartialEq, Eq)]
pub enum BuildError {
    /// The sender's signing key is no key pair.
    MalformedKey,
    /// The signing key is a key pair of another address than the sender's.
    AddressMismatch,
    /// The transfer names a sender or a receiver that the wallet set lacks.
    UnknownWallet,
}

/// A transfer that is signed and ready to be submitted. It cannot be copied:
/// a transaction is submitted once.
#[derive(Debug, PartialEq, Eq)]
pub struct SignedTransaction {
    instruction: Instruction,
    block_reference: BlockReference,
    signature: Signature,
    message: Vec<u8>,
}

/// A [`SignedTransaction`] as plain sequences: the instruction, the block
/// reference, the sender's signature, and the bytes of the message that the
/// signature is for.
pub ghost struct SignedTransactionView {
    pub instruction: InstructionView,
    pub block_reference: Seq<u8>,
    pub signature: Seq<u8>,
    pub message: Seq<u8>,
}

impl View for SignedTransaction {
    type V = SignedTransactionView;

    closed spec fn view(&self) -> SignedTransactionView {
        SignedTransactionView {
            instruction: self.instruction@,
            block_reference: self.block_reference@,
            signature: self.signature@,
            message: self.message@,
        }
    }
}

impl SignedTransaction {
    /// The one instruction of the transaction.
    pub fn instruction(&self) -> (r: &Instruction)
        ensures
            r@ == self@.instruction,
    {
        &self.instruction
    }

    /// The block reference that the transaction was signed with.
    pub fn block_reference(&self) -> (r: BlockReference)
        ensures
            r@ == self@.block_reference,
    {
        self.block_reference
    }

    /// The sender's signature, by which the ledger knows the transaction.
    pub fn signature(&self) -> (r: Signature)
        ensures
            r@ == self@.signature,
    {
        self.signature
    }

    /// The bytes of the message that the signature is for.
    pub fn message(&self) -> (r: &Vec<u8>)
        ensures
            r@ == self@.message,
    {
        &self.message
    }

    /// The transaction in the form that a ledger client submits: the
    /// signature, and the bytes of the message that it signs.
    pub fn into_transaction(self) -> (parts: (Signature, Vec<u8>))
        ensures
            parts.0@ == self@.signature,
            parts.1@ == self@.message,
    {
        (self.signature, self.message)
    }
}

/// The public half of the key pair `key`: its last 32 bytes.
pub open spec fn public_half(key: Seq<u8>) -> Seq<u8> {
    key.subrange(32, 64)
}

/// What [`send_sol`] returns for a sender with the signing key `key` and the
/// address `from`.
pub open spec fn signed_transfer(
    key: Seq<u8>,
    from: Seq<u8>,
    to: Seq<u8>,
    lamports: u64,
    block_reference: Seq<u8>,
) -> Result<SignedTransactionView, BuildError> {
    if !keypair_accepted(key) {
        Err(BuildError::MalformedKey)
    } else if public_half(key) != from {
        Err(BuildError::AddressMismatch)
    } else {
        let instruction = transfer_instruction(from, to, lamports);
        let signed = signed_by(
            key,
            instruction.program,
            instruction.accounts,
            instruction.data,
            block_reference,
        );
        Ok(
            SignedTransactionView {
                instruction,
                block_reference,
                signature: signed.0,
                message: signed.1,
            },
        )
    }
}

/// Whether the last 32 bytes of the 64-byte `key` are those of `address`.
fn is_public_half(address: &Address, key: &Vec<u8>) -> (r: bool)
    requires
        key@.len() == 64,
    ensures
        r == (public_half(key@) == address@),
{
    let mut i: usize = 0;
    while i < 32
        invariant
            i <= 32,
            key@.len() == 64,
            forall|j: int| 0 <= j < i ==> key@[32 + j] == address.bytes@[j],
        decreases 32 - i,
    {
        if key[32 + i] != address.bytes[i] {
            assert(public_half(key@)[i as int] != address@[i as int]);
            return false;
        }
        i = i + 1;
    }
    assert(public_half(key@) =~= address@);
    true
}

/// Builds the transaction that sends `amount` base units from `sender` to
/// `receiver`, and signs it with the sender's key and `block_reference`.
///
/// The transaction holds one instruction, the system program's transfer from
/// the sender's address to the receiver's, and the sender pays its fee. A
/// sender may be its own receiver. Nothing is sent: the result is what a
/// ledger client submits.
///
/// Building fails where the signing key is no key pair, or is the key pair of
/// another address than the sender's; it succeeds on every other input.
pub fn send_sol(
    sender: &SenderIdentity,
    receiver: &ReceiverAddress,
    amount: u64,
    block_reference: &BlockReference,
) -> (result: Result<SignedTransaction, BuildError>)
    ensures
        match result {
            Ok(transaction) => signed_transfer(
                sender.signing_key@,
                sender.address@,
                receiver.address@,
                amount,
                block_reference@,
            ) == Ok::<SignedTransactionView, BuildError>(transaction@),
            Err(e) => signed_transfer(
                sender.signing_key@,
                sender.address@,
                receiver.address@,
                amount,
                block_reference@,
            ) == Err::<SignedTransactionView, BuildError>(e),
        },
{
    if !keypair_accepts(sender.signing_key.as_slice()) {
        return Err(BuildError::MalformedKey);
    }
    if !is_public_half(&sender.address, &sender.signing_key) {
        return Err(BuildError::AddressMismatch);
    }
    let instruction = system_transfer(&sender.address, &receiver.address, amount);
    assert(instruction@.accounts.len() == 2);
    assert(instruction.accounts@.len() == 2);
    assert(instruction.accounts@[0]@ == instruction@.accounts[0]);
    assert(instruction.accounts@[1]@ == instruction@.accounts[1]);
    let (signature, message) = sign_with_payer(
        &instruction,
        sender.signing_key.as_slice(),
        &sender.address,
        &block_reference.hash,
    );
    Ok(
        SignedTransaction {
            instruction,
            block_reference: *block_reference,
            signature: Signature { bytes: signature },
            message,
        },
    )
}

} // verus!
