//! The wallet set of a batch: the senders with their signing keys, and the
//! receivers.

use crate::keys::{decode_key_material, parse_bytes_from_string};
use crate::ledger::{decode_base58, decoded_address, keypair_accepted, keypair_accepts};
use crate::transaction::Address;
use vstd::prelude::*;

verus! {

/// A sender: the key that signs for it and its public address.
#[derive(Clone, Debug, PartialEq, Eq)]
pub struct SenderIdentity {
    pub signing_key: Vec<u8>,
    pub address: Address,
}

/// A receiver's public address.
#[derive(Clone, Copy, Debug, PartialEq, Eq)]
pub struct ReceiverAddress {
    pub address: Address,
}

/// A sender as the configuration writes it: the key material as a list of
/// byte values, the address in base58.
#[derive(Clone, Debug, PartialEq, Eq)]
pub struct Wallet {
    pub private_key: String,
    pub public_key: String,
}

/// The configuration of a batch.
#[derive(Clone, Debug, PartialEq, Eq)]
pub struct Config {
    pub wallets: Vec<Wallet>,
    /// The receivers' addresses, in base58.
    pub receivers: Vec<String>,
    pub rpc_url: String,
}

/// The senders and receivers of a batch, decoded.
#[derive(Clone, Debug, PartialEq, Eq)]
pub struct WalletSet {
    pub senders: Vec<SenderIdentity>,
    pub receivers: Vec<ReceiverAddress>,
}

/// Why a configuration gives no wallet set. Each variant says which entry is
/// at fault, counted from zero.
#[derive(Clone, Debug, PartialEq, Eq)]
pub enum WalletError {
    /// The key material of a sender is no list of bytes.
    KeyMaterial { wallet: usize, message: String },
    /// The address of a sender is no base58 address.
    SenderAddress { wallet: usize },
    /// The key material of a sender is no key pair.
    KeyPair { wallet: usize },
    /// The address of a receiver is no base58 address.
    ReceiverAddress { receiver: usize },
}

/// What is wrong with one sender of the configuration.
pub ghost enum SenderFault {
    KeyMaterial(Seq<char>),
    Address,
    KeyPair,
}

/// The signing key and the address of the sender that `wallet` describes. Its
/// key material is looked at first, then its address, then whether the key
/// material is a key pair.
pub open spec fn sender_of(wallet: Wallet) -> Result<(Seq<u8>, Seq<u8>), SenderFault> {
    match decode_key_material(wallet.private_key@) {
        Err(message) => Err(SenderFault::KeyMaterial(message)),
        Ok(key) => match decoded_address(wallet.public_key@) {
            None => Err(SenderFault::Address),
            Some(address) => if keypair_accepted(key) {
                Ok((key, address))
            } else {
                Err(SenderFault::KeyPair)
            },
        },
    }
}

/// Whether the first `count` senders of `config` are all in order.
pub open spec fn senders_in_order(config: Config, count: int) -> bool {
    forall|i: int| 0 <= i < count ==> (#[trigger] sender_of(config.wallets@[i])) is Ok
}

/// Whether the first `count` receivers of `config` are all in order.
pub open spec fn receivers_in_order(config: Config, count: int) -> bool {
    forall|j: int| 0 <= j < count ==> (#[trigger] decoded_address(config.receivers@[j]@)) is Some
}

/// Whether `set` holds the senders and receivers of `config`, each at its
/// place.
pub open spec fn is_wallet_set_of(set: WalletSet, config: Config) -> bool {
    &&& set.senders@.len() == config.wallets@.len()
    &&& forall|i: int|
        0 <= i < set.senders@.len() ==> sender_of(config.wallets@[i]) == Ok::<
            (Seq<u8>, Seq<u8>),
            SenderFault,
        >(((#[trigger] set.senders@[i]).signing_key@, set.senders@[i].address@))
    &&& set.receivers@.len() == config.receivers@.len()
    &&& forall|j: int|
        0 <= j < set.receivers@.len() ==> decoded_address(config.receivers@[j]@) == Some(
            (#[trigger] set.receivers@[j]).address@,
        )
}

/// Whether `error` names the first entry of `config` that is at fault, and
/// its fault. Senders come before receivers.
pub open spec fn is_first_fault_of(error: WalletError, config: Config) -> bool {
    match error {
        WalletError::KeyMaterial { wallet, message } => {
            &&& wallet < config.wallets@.len()
            &&& senders_in_order(config, wallet as int)
            &&& sender_of(config.wallets@[wallet as int]) == Err::<
                (Seq<u8>, Seq<u8>),
                SenderFault,
            >(SenderFault::KeyMaterial(message@))
        },
        WalletError::SenderAddress { wallet } => {
            &&& wallet < config.wallets@.len()
            &&& senders_in_order(config, wallet as int)
            &&& sender_of(config.wallets@[wallet as int]) == Err::<
                (Seq<u8>, Seq<u8>),
                SenderFault,
            >(SenderFault::Address)
        },
        WalletError::KeyPair { wallet } => {
            &&& wallet < config.wallets@.len()
            &&& senders_in_order(config, wallet as int)
            &&& sender_of(config.wallets@[wallet as int]) == Err::<
                (Seq<u8>, Seq<u8>),
                SenderFault,
            >(SenderFault::KeyPair)
        },
        WalletError::ReceiverAddress { receiver } => {
            &&& receiver < config.receivers@.len()
            &&& senders_in_order(config, config.wallets@.len() as int)
            &&& receivers_in_order(config, receiver as int)
            &&& decoded_address(config.receivers@[receiver as int]@) is None
        },
    }
}

/// Whether every sender and every receiver of `config` is in order.
pub open spec fn in_order(config: Config) -> bool {
    &&& senders_in_order(config, config.wallets@.len() as int)
    &&& receivers_in_order(config, config.receivers@.len() as int)
}

/// Decodes an address from its base58 text, which must denote one.
pub fn get_public_key(public_key: &str) -> (address: Address)
    requires
        decoded_address(public_key@) is Some,
    ensures
        decoded_address(public_key@) == Some(address@),
{
    match decode_base58(public_key) {
        Some(bytes) => Address { bytes },
        None => vstd::pervasive::unreached(),
    }
}

/// Decodes an address from its base58 text. The result is `None` where the
/// text denotes no address: where it holds a character outside the base58
/// alphabet, or does not stand for exactly 32 bytes.
pub fn try_get_public_key(public_key: &str) -> (result: Option<Address>)
    ensures
        match result {
            Some(address) => decoded_address(public_key@) == Some(address@),
            None => decoded_address(public_key@) is None,
        },
{
    match decode_base58(public_key) {
        Some(_) => Some(get_public_key(public_key)),
        None => None,
    }
}

/// Decodes the senders and the receivers of `config`, or names the first
/// entry at fault.
fn decode_wallets(config: &Config) -> (result: Result<WalletSet, WalletError>)
    ensures
        match result {
            Ok(set) => is_wallet_set_of(set, *config),
            Err(error) => is_first_fault_of(error, *config),
        },
{
    let mut senders: Vec<SenderIdentity> = Vec::new();
    let mut i: usize = 0;
    while i < config.wallets.len()
        invariant
            i <= config.wallets@.len(),
            senders@.len() == i,
            senders_in_order(*config, i as int),
            forall|k: int|
                0 <= k < i ==> sender_of(config.wallets@[k]) == Ok::<
                    (Seq<u8>, Seq<u8>),
                    SenderFault,
                >(((#[trigger] senders@[k]).signing_key@, senders@[k].address@)),
        decreases config.wallets@.len() - i,
    {
        let wallet = &config.wallets[i];
        let signing_key = match parse_bytes_from_string(wallet.private_key.as_str()) {
            Ok(bytes) => bytes,
            Err(message) => {
                return Err(WalletError::KeyMaterial { wallet: i, message });
            },
        };
        let address = match try_get_public_key(wallet.public_key.as_str()) {
            Some(address) => address,
            None => {
                return Err(WalletError::SenderAddress { wallet: i });
            },
        };
        if !keypair_accepts(signing_key.as_slice()) {
            return Err(WalletError::KeyPair { wallet: i });
        }
        senders.push(SenderIdentity { signing_key, address });
        assert(sender_of(config.wallets@[i as int]) is Ok);
        i = i + 1;
    }
    let mut receivers: Vec<ReceiverAddress> = Vec::new();
    let mut j: usize = 0;
    while j < config.receivers.len()
        invariant
            j <= config.receivers@.len(),
            receivers@.len() == j,
            senders_in_order(*config, config.wallets@.len() as int),
            receivers_in_order(*config, j as int),
            forall|k: int|
                0 <= k < j ==> decoded_address(config.receivers@[k]@) == Some(
                    (#[trigger] receivers@[k]).address@,
                ),
        decreases config.receivers@.len() - j,
    {
        match try_get_public_key(config.receivers[j].as_str()) {
            Some(address) => {
                receivers.push(ReceiverAddress { address });
                assert(decoded_address(config.receivers@[j as int]@) is Some);
            },
            None => {
                return Err(WalletError::ReceiverAddress { receiver: j });
            },
        }
        j = j + 1;
    }
    Ok(WalletSet { senders, receivers })
}

/// Decodes the senders and the receivers of a configuration in which every
/// entry is in order: every sender holds key material that is a list of
/// bytes and a key pair, and an address in base58; every receiver is an
/// address in base58. The result holds one identity for each sender and one
/// address for each receiver, in the order of the configuration.
pub fn process_wallets(config: &Config) -> (set: WalletSet)
    requires
        in_order(*config),
    ensures
        is_wallet_set_of(set, *config),
{
    match decode_wallets(config) {
        Ok(set) => set,
        Err(error) => {
            proof {
                match error {
                    WalletError::KeyMaterial { wallet, .. } => {
                        assert(sender_of(config.wallets@[wallet as int]) is Ok);
                    },
                    WalletError::SenderAddress { wallet } => {
                        assert(sender_of(config.wallets@[wallet as int]) is Ok);
                    },
                    WalletError::KeyPair { wallet } => {
                        assert(sender_of(config.wallets@[wallet as int]) is Ok);
                    },
                    WalletError::ReceiverAddress { receiver } => {
                        assert(decoded_address(config.receivers@[receiver as int]@) is Some);
                    },
                }
            }
            vstd::pervasive::unreached()
        },
    }
}

/// Decodes the senders and the receivers of any configuration. The entries
/// are looked at in order, senders first, and the first one at fault is
/// reported: key material that is no list of bytes, an address that is no
/// base58 address, key material that is no key pair. Without a fault the
/// result is that of [`process_wallets`].
pub fn try_process_wallets(config: &Config) -> (result: Result<WalletSet, WalletError>)
    ensures
        match result {
            Ok(set) => in_order(*config) && is_wallet_set_of(set, *config),
            Err(error) => !in_order(*config) && is_first_fault_of(error, *config),
        },
{
    match decode_wallets(config) {
        Ok(found) => {
            proof {
                assert forall|i: int| 0 <= i < config.wallets@.len() implies (#[trigger] sender_of(
                    config.wallets@[i],
                )) is Ok by {
                    let _ = found.senders@[i];
                }
                assert forall|j: int| 0 <= j < config.receivers@.len() implies (
                #[trigger] decoded_address(config.receivers@[j]@)) is Some by {
                    let _ = found.receivers@[j];
                }
            }
            Ok(process_wallets(config))
        },
        Err(error) => {
            proof {
                match error {
                    WalletError::KeyMaterial { wallet, .. } => {
                        assert(!(sender_of(config.wallets@[wallet as int]) is Ok));
                    },
                    WalletError::SenderAddress { wallet } => {
                        assert(!(sender_of(config.wallets@[wallet as int]) is Ok));
                    },
                    WalletError::KeyPair { wallet } => {
                        assert(!(sender_of(config.wallets@[wallet as int]) is Ok));
                    },
                    WalletError::ReceiverAddress { receiver } => {
                        assert(!(decoded_address(config.receivers@[receiver as int]@) is Some));
                    },
                }
            }
            Err(error)
        },
    }
}

} // verus!
