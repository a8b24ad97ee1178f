//! The signing capability, through threshold_crypto's BLS keys. Keys and
//! signatures travel as their compressed bytes.
use vstd::prelude::*;

verus! {

#[verifier::external_type_specification]
#[verifier::external_body]
pub struct ExSecretKey(threshold_crypto::SecretKey);

/// Whether `signature` is a valid signature of `message` under `public_key`,
/// both given as compressed bytes; false where either does not decode.
pub uninterp spec fn signature_valid(
    public_key: Seq<u8>,
    signature: Seq<u8>,
    message: Seq<u8>,
) -> bool;

/// Relies on threshold_crypto's `PublicKey::from_bytes`, `Signature::from_bytes`
/// and `PublicKey::verify`: a pairing check that depends on the bytes alone.
#[verifier::external_body]
pub(crate) fn verify_signature(public_key: &Vec<u8>, signature: &Vec<u8>, message: &Vec<u8>) -> (r:
    bool)
    ensures
        r == signature_valid(public_key@, signature@, message@),
{
    let pk: [u8; 48] = match public_key.as_slice().try_into() {
        Ok(a) => a,
        Err(_) => return false,
    };
    let sig: [u8; 96] = match signature.as_slice().try_into() {
        Ok(a) => a,
        Err(_) => return false,
    };
    match (threshold_crypto::PublicKey::from_bytes(pk), threshold_crypto::Signature::from_bytes(sig)) {
        (Ok(pk), Ok(sig)) => pk.verify(&sig, message.as_slice()),
        _ => false,
    }
}

/// A node's signing capability: its secret key and the compressed bytes of
/// the matching public key.
pub struct Signer {
    key: threshold_crypto::SecretKey,
    public_key: Vec<u8>,
}

impl Signer {
    pub closed spec fn public_key_spec(&self) -> Seq<u8> {
        self.public_key@
    }

    /// Relies on threshold_crypto's `SecretKey::public_key` and
    /// `PublicKey::to_bytes`: the matching public key, compressed to
    /// `PK_SIZE` (48) bytes.
    #[verifier::external_body]
    pub fn from_secret(key: threshold_crypto::SecretKey) -> (r: Signer)
        ensures
            r.public_key_spec().len() == 48,
    {
        let public_key = key.public_key().to_bytes().to_vec();
        Signer { key, public_key }
    }

    /// The compressed bytes of the public key.
    pub fn public_key(&self) -> (r: Vec<u8>)
        ensures
            r@ == self.public_key_spec(),
    {
        self.public_key.clone()
    }

    /// Relies on threshold_crypto's `SecretKey::sign` and `Signature::to_bytes`:
    /// a BLS signature, compressed to `SIG_SIZE` (96) bytes, that
    /// `PublicKey::verify` accepts for the same message under the matching
    /// public key.
    #[verifier::external_body]
    pub fn sign(&self, message: &Vec<u8>) -> (r: Vec<u8>)
        ensures
            r@.len() == 96,
            signature_valid(self.public_key_spec(), r@, message@),
    {
        self.key.sign(message.as_slice()).to_bytes().to_vec()
    }
}

} // verus!
