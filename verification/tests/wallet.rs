use solana_rpc_transactions::transaction::Address;
use solana_rpc_transactions::wallet::{
    get_public_key, process_wallets, try_get_public_key, try_process_wallets, Config, Wallet,
    WalletError,
};
use solana_sdk::signature::Keypair;
use solana_sdk::signer::Signer;

fn wallet_of(seed: u8) -> (Wallet, Keypair) {
    let pair = Keypair::new_from_array([seed; 32]);
    let wallet = Wallet {
        private_key: format!("{:?}", pair.to_bytes().to_vec()),
        public_key: pair.pubkey().to_string(),
    };
    (wallet, pair)
}

fn config_of(wallets: Vec<Wallet>, receivers: Vec<&str>) -> Config {
    Config {
        wallets,
        receivers: receivers.iter().map(|r| r.to_string()).collect(),
        rpc_url: "http://localhost:8899".to_string(),
    }
}

#[test]
fn decodes_the_system_program_address() {
    assert_eq!(
        try_get_public_key("11111111111111111111111111111111"),
        Some(Address { bytes: [0u8; 32] })
    );
    assert_eq!(get_public_key("11111111111111111111111111111111"), Address { bytes: [0u8; 32] });
}

#[test]
fn decodes_an_address_to_the_bytes_of_its_key() {
    let pair = Keypair::new_from_array([5u8; 32]);
    let text = pair.pubkey().to_string();
    assert_eq!(try_get_public_key(&text), Some(Address { bytes: pair.pubkey().to_bytes() }));
    assert_eq!(get_public_key(&text), Address { bytes: pair.pubkey().to_bytes() });
    assert_ne!(pair.pubkey().to_bytes(), [0u8; 32]);
}

#[test]
fn rejects_an_address_with_a_strange_character() {
    assert_eq!(try_get_public_key("1111111111111111111111111111111O"), None);
    assert_eq!(try_get_public_key("not an address"), None);
}

#[test]
fn rejects_an_address_of_the_wrong_size() {
    assert_eq!(try_get_public_key(""), None);
    assert_eq!(try_get_public_key("1111"), None);
    assert_eq!(try_get_public_key("111111111111111111111111111111111111111111111111111111"), None);
}

#[test]
fn loads_senders_and_receivers_in_order() {
    let (first, first_pair) = wallet_of(1);
    let (second, second_pair) = wallet_of(2);
    let receiver = Keypair::new_from_array([3u8; 32]).pubkey();
    let config = config_of(
        vec![first, second],
        vec![&receiver.to_string(), "11111111111111111111111111111111"],
    );
    let set = process_wallets(&config);
    assert_eq!(try_process_wallets(&config), Ok(set.clone()));
    assert_eq!(set.senders.len(), 2);
    assert_eq!(set.senders[0].signing_key, first_pair.to_bytes().to_vec());
    assert_eq!(set.senders[0].address.bytes, first_pair.pubkey().to_bytes());
    assert_eq!(set.senders[1].signing_key, second_pair.to_bytes().to_vec());
    assert_eq!(set.senders[1].address.bytes, second_pair.pubkey().to_bytes());
    assert_eq!(set.receivers.len(), 2);
    assert_eq!(set.receivers[0].address.bytes, receiver.to_bytes());
    assert_eq!(set.receivers[1].address.bytes, [0u8; 32]);
}

#[test]
fn loads_an_empty_configuration() {
    let set = process_wallets(&config_of(vec![], vec![]));
    assert_eq!(try_process_wallets(&config_of(vec![], vec![])), Ok(set.clone()));
    assert!(set.senders.is_empty());
    assert!(set.receivers.is_empty());
}

#[test]
fn reports_key_material_that_is_no_list() {
    let (good, _) = wallet_of(1);
    let (mut bad, _) = wallet_of(2);
    bad.private_key = "[1, 2, 300]".to_string();
    assert_eq!(
        try_process_wallets(&config_of(vec![good, bad], vec![])),
        Err(WalletError::KeyMaterial {
            wallet: 1,
            message: "Number 300 out of byte range".to_string()
        })
    );
}

#[test]
fn reports_a_sender_address_that_is_none() {
    let (mut bad, _) = wallet_of(1);
    bad.public_key = "0".to_string();
    assert_eq!(
        try_process_wallets(&config_of(vec![bad], vec![])),
        Err(WalletError::SenderAddress { wallet: 0 })
    );
}

#[test]
fn reports_key_material_that_is_no_key_pair() {
    let (good, _) = wallet_of(1);
    let (mut short, _) = wallet_of(2);
    short.private_key = "[1, 2, 3]".to_string();
    assert_eq!(
        try_process_wallets(&config_of(vec![good.clone(), short], vec![])),
        Err(WalletError::KeyPair { wallet: 1 })
    );
    let (mut mixed, _) = wallet_of(3);
    let mut bytes = Keypair::new_from_array([3u8; 32]).to_bytes().to_vec();
    bytes[0] ^= 1;
    mixed.private_key = format!("{:?}", bytes);
    assert_eq!(
        try_process_wallets(&config_of(vec![good, mixed], vec![])),
        Err(WalletError::KeyPair { wallet: 1 })
    );
}

#[test]
fn reports_a_receiver_address_that_is_none() {
    let (good, _) = wallet_of(1);
    assert_eq!(
        try_process_wallets(&config_of(
            vec![good],
            vec!["11111111111111111111111111111111", "l"]
        )),
        Err(WalletError::ReceiverAddress { receiver: 1 })
    );
}

#[test]
fn reports_a_faulty_sender_before_a_faulty_receiver() {
    let (mut bad, _) = wallet_of(1);
    bad.private_key = "[]".to_string();
    assert_eq!(
        try_process_wallets(&config_of(vec![bad], vec!["l"])),
        Err(WalletError::KeyMaterial {
            wallet: 0,
            message: "Failed to parse number: cannot parse integer from empty string".to_string()
        })
    );
}

#[test]
fn looks_at_the_key_material_before_the_address() {
    let (mut bad, _) = wallet_of(1);
    bad.private_key = "[x]".to_string();
    bad.public_key = "0".to_string();
    assert_eq!(
        try_process_wallets(&config_of(vec![bad], vec![])),
        Err(WalletError::KeyMaterial {
            wallet: 0,
            message: "Failed to parse number: invalid digit found in string".to_string()
        })
    );
    let (mut other, _) = wallet_of(1);
    other.private_key = "[1]".to_string();
    other.public_key = "0".to_string();
    assert_eq!(
        try_process_wallets(&config_of(vec![other], vec![])),
        Err(WalletError::SenderAddress { wallet: 0 })
    );
}
