//! Wallet linker: binds a wallet address to a creator only after the caller
//! proves control of the corresponding key, by an ed25519 signature over a
//! caller-supplied message. Decoding and verification failures are distinct
//! outcomes, and nothing is written on any failure branch. This is the only
//! writer of a creator's wallet address.
use crate::creator::{has_creator, patched_wallet, Registry};
use vstd::prelude::*;

verus! {

/// What the request carries: the claimed public key and the signature in
/// their base58 text encoding, and the message that was signed.
pub struct WalletLinkInput {
    pub public_key: String,
    pub message: String,
    pub signature: String,
    pub creator_id: u64,
}

#[derive(Debug, PartialEq, Eq)]
pub struct WalletLinkResponse {
    pub verified: bool,
    pub wallet_address: String,
}

#[derive(PartialEq, Eq, Structural, Clone, Copy, Debug)]
pub enum LinkError {
    /// The public key or the signature is not valid base58, or decodes to the
    /// wrong number of bytes. A client error, distinct from a failed proof.
    MalformedInput,
    /// The inputs are well-formed but the signature does not prove control of
    /// the claimed key for this exact message.
    VerificationFailed,
    /// No creator has the given id.
    NotFound,
}

/// What `bs58::decode` yields on a given text: `None` exactly on text that is
/// not valid base58.
pub uninterp spec fn base58_decoded(s: Seq<char>) -> Option<Seq<u8>>;

/// The UTF-8 encoding of a text.
pub uninterp spec fn utf8_bytes(s: Seq<char>) -> Seq<u8>;

/// Whether `signature` is a valid ed25519 signature by the holder of
/// `public_key` over `message`. False also when the key bytes are not a valid
/// curve point.
pub uninterp spec fn ed25519_verifies(
    message: Seq<u8>,
    public_key: Seq<u8>,
    signature: Seq<u8>,
) -> bool;

/// Relies on bs58::decode(..).into_vec(): base58 decoding, a function of the
/// input text alone, failing exactly on text outside the base58 alphabet.
#[verifier::external_body]
fn base58_decode(s: &String) -> (r: Option<Vec<u8>>)
    ensures
        match r {
            Some(v) => base58_decoded(s@) == Some(v@),
            None => base58_decoded(s@) is None,
        },
{
    bs58::decode(s.as_str()).into_vec().ok()
}

/// Relies on str::as_bytes: the UTF-8 encoding depends on the characters
/// alone.
#[verifier::external_body]
fn message_bytes(s: &String) -> (r: Vec<u8>)
    ensures
        r@ == utf8_bytes(s@),
{
    s.as_bytes().to_vec()
}

/// Relies on solana_sdk's Signature::try_from (a 64-byte length conversion,
/// which the caller guarantees) and Signature::verify: strict ed25519
/// verification, deterministic in the three byte strings.
#[verifier::external_body]
fn ed25519_verify(message: &[u8], public_key: &[u8], signature: &[u8]) -> (r: bool)
    requires
        public_key@.len() == 32,
        signature@.len() == 64,
    ensures
        r == ed25519_verifies(message@, public_key@, signature@),
{
    let sig = solana_sdk::signature::Signature::try_from(signature).unwrap();
    sig.verify(public_key, message)
}

/// The claimed key, if it is base58 for exactly 32 bytes.
pub open spec fn decoded_key(s: Seq<char>) -> Option<Seq<u8>> {
    match base58_decoded(s) {
        Some(b) => if b.len() == 32 {
            Some(b)
        } else {
            None
        },
        None => None,
    }
}

/// The claimed signature, if it is base58 for exactly 64 bytes.
pub open spec fn decoded_sig(s: Seq<char>) -> Option<Seq<u8>> {
    match base58_decoded(s) {
        Some(b) => if b.len() == 64 {
            Some(b)
        } else {
            None
        },
        None => None,
    }
}

/// A request whose key or signature does not decode to the right shape.
pub open spec fn link_malformed(input: WalletLinkInput) -> bool {
    decoded_key(input.public_key@) is None || decoded_sig(input.signature@) is None
}

/// A well-formed request whose signature proves control of the claimed key
/// for the request's own message.
pub open spec fn link_verified(input: WalletLinkInput) -> bool {
    &&& !link_malformed(input)
    &&& ed25519_verifies(
        utf8_bytes(input.message@),
        decoded_key(input.public_key@).unwrap(),
        decoded_sig(input.signature@).unwrap(),
    )
}

/// Bind a wallet address to a creator after proof of control. Exactly one
/// creator record is mutated, and only on full success: the verified wallet
/// address is the submitted public key text, every other field and every
/// other creator is untouched. Each failure branch writes nothing and names
/// its cause: malformed encoding, a failed proof, or an unknown creator.
pub fn link_wallet(registry: &mut Registry, input: WalletLinkInput) -> (r: Result<
    WalletLinkResponse,
    LinkError,
>)
    requires
        old(registry).wf(),
    ensures
        final(registry).wf(),
        final(registry).next_id == old(registry).next_id,
        link_malformed(input) ==> r == Err::<WalletLinkResponse, LinkError>(
            LinkError::MalformedInput,
        ) && final(registry)@ == old(registry)@,
        !link_malformed(input) && !link_verified(input) ==> r == Err::<
            WalletLinkResponse,
            LinkError,
        >(LinkError::VerificationFailed) && final(registry)@ == old(registry)@,
        link_verified(input) && !has_creator(old(registry)@, input.creator_id) ==> r == Err::<
            WalletLinkResponse,
            LinkError,
        >(LinkError::NotFound) && final(registry)@ == old(registry)@,
        link_verified(input) && has_creator(old(registry)@, input.creator_id) ==> {
            &&& r matches Ok(resp) && resp.verified && resp.wallet_address@ == input.public_key@
            &&& final(registry)@.len() == old(registry)@.len()
            &&& forall|j: int|
                0 <= j < old(registry)@.len() && old(registry)@[j].id != input.creator_id
                    ==> final(registry)@[j] == old(registry)@[j]
            &&& forall|j: int|
                0 <= j < old(registry)@.len() && old(registry)@[j].id == input.creator_id
                    ==> final(registry)@[j] == patched_wallet(
                    old(registry)@[j],
                    input.public_key@,
                )
        },
{
    let key_bytes = match base58_decode(&input.public_key) {
        Some(b) => b,
        None => {
            return Err(LinkError::MalformedInput);
        },
    };
    if key_bytes.len() != 32 {
        return Err(LinkError::MalformedInput);
    }
    let sig_bytes = match base58_decode(&input.signature) {
        Some(b) => b,
        None => {
            return Err(LinkError::MalformedInput);
        },
    };
    if sig_bytes.len() != 64 {
        return Err(LinkError::MalformedInput);
    }
    let msg = message_bytes(&input.message);
    if !ed25519_verify(msg.as_slice(), key_bytes.as_slice(), sig_bytes.as_slice()) {
        return Err(LinkError::VerificationFailed);
    }
    if registry.set_wallet(input.creator_id, &input.public_key) {
        Ok(WalletLinkResponse { verified: true, wallet_address: input.public_key })
    } else {
        Err(LinkError::NotFound)
    }
}

} // verus!
