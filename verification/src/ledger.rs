//! What this library takes on trust from the `solana_sdk` crate: the decoding
//! of addresses and key pairs, the system program's transfer instruction, and
//! the signing of a transaction.

use crate::transaction::{transfer_instruction, AccountRole, Address, Instruction};
use solana_sdk::hash;
use solana_sdk::instruction as wire;
use solana_sdk::pubkey::Pubkey;
use solana_sdk::signature::Keypair;
#[allow(deprecated)]
use solana_sdk::system_instruction;
use solana_sdk::transaction::Transaction;
use std::str::FromStr;
use vstd::prelude::*;

verus! {

/// The 32 bytes that the base58 text `text` stands for, where it stands for
/// an address at all.
pub uninterp spec fn decoded_address(text: Seq<char>) -> Option<Seq<u8>>;

/// `Pubkey::from_str` of `solana_sdk`: the address that a base58 text denotes,
/// or nothing where it denotes none. The contract gives the result its name
/// and claims nothing more of it.
#[verifier::external_body]
pub(crate) fn decode_base58(text: &str) -> (r: Option<[u8; 32]>)
    ensures
        match r {
            Some(bytes) => decoded_address(text@) == Some(bytes@),
            None => decoded_address(text@) is None,
        },
{
    Pubkey::from_str(text).ok().map(|key| key.to_bytes())
}

/// Whether `key` holds a key pair: a secret key, followed by the public key
/// that belongs to it.
pub uninterp spec fn keypair_accepted(key: Seq<u8>) -> bool;

/// `Keypair::from_bytes` of `solana_sdk`: whether it accepts `key`. The
/// contract names the answer, and claims that nothing but 64 bytes is
/// accepted.
#[verifier::external_body]
#[allow(deprecated)]
pub(crate) fn keypair_accepts(key: &[u8]) -> (r: bool)
    ensures
        r == keypair_accepted(key@),
        r ==> key@.len() == 64,
{
    Keypair::from_bytes(key).is_ok()
}

/// `system_instruction::transfer` of `solana_sdk`: the instruction by which
/// the system program moves `lamports` from `from` to `to`. The contract
/// claims all of the result: the program's address, the two accounts with
/// their roles, and the twelve bytes of data.
#[verifier::external_body]
#[allow(deprecated)]
pub(crate) fn system_transfer(from: &Address, to: &Address, lamports: u64) -> (r: Instruction)
    ensures
        r@ == transfer_instruction(from@, to@, lamports),
{
    let built = system_instruction::transfer(&Pubkey::from(from.bytes), &Pubkey::from(to.bytes), lamports);
    let accounts = built.accounts.iter().map(|meta| AccountRole {
        address: Address { bytes: meta.pubkey.to_bytes() },
        signer: meta.is_signer,
        writable: meta.is_writable,
    }).collect();
    Instruction { program: Address { bytes: built.program_id.to_bytes() }, accounts, data: built.data }
}

/// The transaction that holds the one instruction named by `program`,
/// `accounts` and `data`, is paid for by the address of the key pair `key`,
/// carries `block_hash` and is signed by `key`: the signature, and the bytes
/// of the message that was signed.
pub uninterp spec fn signed_by(
    key: Seq<u8>,
    program: Seq<u8>,
    accounts: Seq<(Seq<u8>, bool, bool)>,
    data: Seq<u8>,
    block_hash: Seq<u8>,
) -> (Seq<u8>, Seq<u8>);

/// `Transaction::new_signed_with_payer` of `solana_sdk`, for one instruction,
/// with `payer` as the payer and the key pair `key` as the only signer. The
/// result is the signature that comes first in the transaction and the
/// message as `Transaction::message_data` writes it; the contract names the
/// two. The call panics where a signature is missing, so the payer and every
/// account that must sign have to be the key pair's own address. It also
/// panics where the message cannot be written: the data may hold no more
/// than 65535 bytes, and the accounts must be few.
#[verifier::external_body]
#[allow(deprecated)]
pub(crate) fn sign_with_payer(
    instruction: &Instruction,
    key: &[u8],
    payer: &Address,
    block_hash: &[u8; 32],
) -> (r: ([u8; 64], Vec<u8>))
    requires
        keypair_accepted(key@),
        payer@ == key@.subrange(32, 64),
        instruction.accounts@.len() <= 64,
        instruction.data@.len() <= 65535,
        forall|i: int|
            0 <= i < instruction.accounts@.len() && (#[trigger] instruction.accounts@[i]).signer
                ==> instruction.accounts@[i].address@ == key@.subrange(32, 64),
    ensures
        (r.0@, r.1@) == signed_by(
            key@,
            instruction@.program,
            instruction@.accounts,
            instruction@.data,
            block_hash@,
        ),
{
    let signer = Keypair::from_bytes(key).unwrap();
    let accounts = instruction.accounts.iter().map(|role| wire::AccountMeta {
        pubkey: Pubkey::from(role.address.bytes),
        is_signer: role.signer,
        is_writable: role.writable,
    }).collect();
    let program_id = Pubkey::from(instruction.program.bytes);
    let one = wire::Instruction { program_id, accounts, data: instruction.data.clone() };
    let recent = hash::Hash::new_from_array(*block_hash);
    let first = Pubkey::from(payer.bytes);
    let signed = Transaction::new_signed_with_payer(&[one], Some(&first), &[&signer], recent);
    (<[u8; 64]>::from(signed.signatures[0]), signed.message_data())
}

} // verus!
