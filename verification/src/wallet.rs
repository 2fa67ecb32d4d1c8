//! Cryptographic identity: ed25519 keypairs, signing, and signature
//! verification.
//!
//! An account or validator is identified by its public key, rendered as 64
//! lower-case hex characters. The cryptography itself is supplied by the
//! `ed25519_dalek` crate and is trusted; everything stated about it here is
//! the contract this crate consumes: signing is deterministic, a signature
//! produced by a wallet verifies under that wallet's public key id, and
//! verification fails closed on malformed input.

use vstd::prelude::*;

verus! {

#[verifier::external_type_specification]
#[verifier::external_body]
pub struct ExSigningKey(ed25519_dalek::SigningKey);

/// Whether `sig` is a valid ed25519 signature over `msg` by the key whose
/// 32 public-key bytes `pubkey_hex` spells in hex, as decided by
/// `ed25519_dalek::VerifyingKey::verify_strict`; false whenever
/// `pubkey_hex` does not decode to a well-formed public key. The result
/// depends on the three arguments alone.
pub uninterp spec fn ed25519_verifies(pubkey_hex: Seq<char>, msg: Seq<u8>, sig: Seq<u8>) -> bool;

/// A detached ed25519 signature, carried as its 64 bytes.
pub struct Signature {
    pub bytes: Vec<u8>,
}

impl View for Signature {
    type V = Seq<u8>;

    open spec fn view(&self) -> Seq<u8> {
        self.bytes@
    }
}

impl DeepView for Signature {
    type V = Seq<u8>;

    open spec fn deep_view(&self) -> Seq<u8> {
        self.bytes@
    }
}

impl Clone for Signature {
    fn clone(&self) -> (r: Self)
        ensures
            r@ == self@,
    {
        Signature { bytes: clone_byte_vec(&self.bytes) }
    }
}

/// Copies a byte vector.
fn clone_byte_vec(v: &Vec<u8>) -> (r: Vec<u8>)
    ensures
        r@ == v@,
{
    let mut r: Vec<u8> = Vec::new();
    let mut i: usize = 0;
    while i < v.len()
        invariant
            i <= v@.len(),
            r@ == v@.take(i as int),
        decreases v@.len() - i,
    {
        r.push(v[i]);
        proof {
            assert(v@.take(i + 1) =~= v@.take(i as int).push(v@[i as int]));
        }
        i = i + 1;
    }
    proof {
        assert(v@.take(v@.len() as int) =~= v@);
    }
    r
}

impl Signature {
    /// The dummy all-zero signature carried by the genesis block, which is
    /// exempt from verification.
    pub fn zeroed() -> (s: Self)
        ensures
            s@ == Seq::new(64, |i: int| 0u8),
    {
        let mut bytes: Vec<u8> = Vec::new();
        let mut i: usize = 0;
        while i < 64
            invariant
                i <= 64,
                bytes@ =~= Seq::new(i as nat, |j: int| 0u8),
            decreases 64 - i,
        {
            bytes.push(0u8);
            i = i + 1;
        }
        proof {
            assert(bytes@ =~= Seq::new(64, |i: int| 0u8));
        }
        Signature { bytes }
    }
}

/// An ed25519 keypair together with the hex rendering of its public key.
pub struct Wallet {
    key: ed25519_dalek::SigningKey,
    public_hex: String,
}

impl Wallet {
    /// The wallet's public key id: 64 lower-case hex characters.
    pub closed spec fn pubkey(self) -> Seq<char> {
        self.public_hex@
    }

    /// Relies on `ed25519_dalek::SigningKey::generate` over the operating
    /// system's entropy source, and on `hex::encode` of the 32 verifying-key
    /// bytes: a fresh keypair whose public key id is 64 hex characters.
    #[verifier::external_body]
    pub fn new() -> (w: Wallet)
        ensures
            w.pubkey().len() == 64,
    {
        let mut csprng = rand::rngs::OsRng;
        let key = ed25519_dalek::SigningKey::generate(&mut csprng);
        let public_hex = hex::encode(key.verifying_key().to_bytes());
        Wallet { key, public_hex }
    }

    /// Relies on `ed25519_dalek::SigningKey::from_bytes` and `hex::encode`:
    /// rebuilds the wallet persisted as its 32 secret-key bytes.
    #[verifier::external_body]
    pub fn from_secret_bytes(secret: &[u8]) -> (w: Wallet)
        requires
            secret@.len() == 32,
        ensures
            w.pubkey().len() == 64,
    {
        let arr: [u8; 32] = secret.try_into().unwrap();
        let key = ed25519_dalek::SigningKey::from_bytes(&arr);
        let public_hex = hex::encode(key.verifying_key().to_bytes());
        Wallet { key, public_hex }
    }

    /// Relies on `ed25519_dalek::SigningKey::to_bytes`: the 32 secret-key
    /// bytes, for persistence.
    #[verifier::external_body]
    pub fn to_secret_bytes(&self) -> (r: Vec<u8>)
        ensures
            r@.len() == 32,
    {
        self.key.to_bytes().to_vec()
    }

    /// The wallet's public key id.
    pub fn public_key_hex(&self) -> (r: String)
        ensures
            r@ == self.pubkey(),
    {
        self.public_hex.clone()
    }

    /// Relies on `ed25519_dalek::Signer::sign`: ed25519 signing is a
    /// deterministic function of the keypair and the message, and
    /// `verify_strict` accepts the signature it produces under the same
    /// keypair's verifying key — whose hex rendering this wallet stores as
    /// its public key id.
    #[verifier::external_body]
    pub fn sign(&self, message: &[u8]) -> (sig: Signature)
        ensures
            sig@.len() == 64,
            ed25519_verifies(self.pubkey(), message@, sig@),
    {
        let s = ed25519_dalek::Signer::sign(&self.key, message);
        Signature { bytes: s.to_bytes().to_vec() }
    }

    /// Relies on `hex::decode`, `ed25519_dalek::VerifyingKey::from_bytes`
    /// and `VerifyingKey::verify_strict`: returns exactly whether the
    /// signature is valid for this public key id and message, and fails
    /// closed (returns false) on a malformed key or signature encoding.
    #[verifier::external_body]
    pub fn verify_signature(public_key_hex: &str, message: &[u8], signature: &Signature) -> (r:
        bool)
        ensures
            r == (signature@.len() == 64 && ed25519_verifies(public_key_hex@, message@, signature@)),
    {
        let sig: Option<[u8; 64]> = signature.bytes.as_slice().try_into().ok();
        let pk: Option<[u8; 32]> =
            hex::decode(public_key_hex).ok().and_then(|b| b.as_slice().try_into().ok());
        let key = pk.and_then(|a| ed25519_dalek::VerifyingKey::from_bytes(&a).ok());
        match (key, sig) {
            (Some(k), Some(s)) => k.verify_strict(
                message,
                &ed25519_dalek::Signature::from_bytes(&s),
            ).is_ok(),
            _ => false,
        }
    }
}

} // verus!
