use solana_sdk::signature::{Keypair, Signer};
use tipfinity::{link_wallet, CreateCreatorInput, LinkError, Registry, WalletLinkInput};

fn registry_with_alice() -> Registry {
    let mut reg = Registry::new();
    reg.create_creator(
        CreateCreatorInput {
            username: String::from("alice"),
            display_name: String::from("Alice"),
            email: String::from("alice@example.com"),
            bio: None,
            profile_image: None,
        },
        50,
    )
    .unwrap();
    reg
}

fn signed_link_input(keypair: &Keypair, message: &str, creator_id: u64) -> WalletLinkInput {
    let signature = keypair.sign_message(message.as_bytes());
    WalletLinkInput {
        public_key: bs58::encode(keypair.pubkey().as_array()).into_string(),
        message: String::from(message),
        signature: bs58::encode(signature.as_array()).into_string(),
        creator_id,
    }
}

#[test]
fn genuine_signature_links_the_wallet() {
    let mut reg = registry_with_alice();
    let keypair = Keypair::new_from_array([7u8; 32]);
    let input = signed_link_input(&keypair, "link my wallet to alice", 1);
    let expected = input.public_key.clone();
    let resp = link_wallet(&mut reg, input).unwrap();
    assert!(resp.verified);
    assert_eq!(resp.wallet_address, expected);
    assert_eq!(
        reg.get_creator(1).unwrap().wallet_address.as_deref(),
        Some(expected.as_str())
    );
}

#[test]
fn relinking_overwrites_only_after_a_new_proof() {
    let mut reg = registry_with_alice();
    let first = Keypair::new_from_array([7u8; 32]);
    let second = Keypair::new_from_array([9u8; 32]);
    link_wallet(&mut reg, signed_link_input(&first, "proof one", 1)).unwrap();
    let second_key = bs58::encode(second.pubkey().as_array()).into_string();
    link_wallet(&mut reg, signed_link_input(&second, "proof two", 1)).unwrap();
    assert_eq!(
        reg.get_creator(1).unwrap().wallet_address.as_deref(),
        Some(second_key.as_str())
    );
}

#[test]
fn signature_by_another_key_fails_verification() {
    let mut reg = registry_with_alice();
    let claimed = Keypair::new_from_array([7u8; 32]);
    let other = Keypair::new_from_array([8u8; 32]);
    let mut input = signed_link_input(&other, "link my wallet to alice", 1);
    // claim one key, sign with another
    input.public_key = bs58::encode(claimed.pubkey().as_array()).into_string();
    assert_eq!(
        link_wallet(&mut reg, input),
        Err(LinkError::VerificationFailed)
    );
    assert_eq!(reg.get_creator(1).unwrap().wallet_address, None);
}

#[test]
fn tampered_message_fails_verification() {
    let mut reg = registry_with_alice();
    let keypair = Keypair::new_from_array([7u8; 32]);
    let mut input = signed_link_input(&keypair, "pay to alice", 1);
    input.message = String::from("pay to mallory");
    assert_eq!(
        link_wallet(&mut reg, input),
        Err(LinkError::VerificationFailed)
    );
    assert_eq!(reg.get_creator(1).unwrap().wallet_address, None);
}

#[test]
fn text_outside_the_base58_alphabet_is_malformed() {
    let mut reg = registry_with_alice();
    let keypair = Keypair::new_from_array([7u8; 32]);
    let mut input = signed_link_input(&keypair, "hello", 1);
    // '0' and 'l' are not base58 digits
    input.public_key = String::from("0l0l0l");
    assert_eq!(link_wallet(&mut reg, input), Err(LinkError::MalformedInput));
    let mut input2 = signed_link_input(&keypair, "hello", 1);
    input2.signature = String::from("IOIOIO");
    assert_eq!(
        link_wallet(&mut reg, input2),
        Err(LinkError::MalformedInput)
    );
    assert_eq!(reg.get_creator(1).unwrap().wallet_address, None);
}

#[test]
fn wrong_byte_length_is_malformed() {
    let mut reg = registry_with_alice();
    let keypair = Keypair::new_from_array([7u8; 32]);
    // valid base58, but not 32 bytes of key
    let mut input = signed_link_input(&keypair, "hello", 1);
    input.public_key = bs58::encode([1u8; 8]).into_string();
    assert_eq!(link_wallet(&mut reg, input), Err(LinkError::MalformedInput));
    // valid base58, but not 64 bytes of signature
    let mut input2 = signed_link_input(&keypair, "hello", 1);
    input2.signature = bs58::encode([1u8; 16]).into_string();
    assert_eq!(
        link_wallet(&mut reg, input2),
        Err(LinkError::MalformedInput)
    );
}

#[test]
fn linking_an_unknown_creator_reports_not_found() {
    let mut reg = registry_with_alice();
    let keypair = Keypair::new_from_array([7u8; 32]);
    let input = signed_link_input(&keypair, "hello", 99);
    assert_eq!(link_wallet(&mut reg, input), Err(LinkError::NotFound));
    assert_eq!(reg.get_creator(1).unwrap().wallet_address, None);
}

#[test]
fn update_path_cannot_touch_the_wallet() {
    let mut reg = registry_with_alice();
    let keypair = Keypair::new_from_array([7u8; 32]);
    let input = signed_link_input(&keypair, "bind", 1);
    let linked = input.public_key.clone();
    link_wallet(&mut reg, input).unwrap();
    reg.update_creator(
        1,
        tipfinity::UpdateCreatorInput {
            display_name: Some(String::from("Alice II")),
            email: Some(String::from("alice2@example.com")),
            bio: Some(String::from("new bio")),
            profile_image: Some(String::from("new.png")),
        },
    );
    assert_eq!(
        reg.get_creator(1).unwrap().wallet_address.as_deref(),
        Some(linked.as_str())
    );
}
