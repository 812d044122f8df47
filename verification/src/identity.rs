//! The collator's identity: its sr25519 signing key and the public
//! identifier derived from it.

use vstd::prelude::*;

verus! {

/// Number of bytes in the secret seed of a signing key.
pub const SEED_LEN: usize = 32;

/// Number of bytes in a collator identifier.
pub const COLLATOR_ID_LEN: usize = 32;

/// Number of bytes in a signature.
pub const SIGNATURE_LEN: usize = 64;

/// The signing key of a collator: the secret seed of an sr25519 key pair.
#[derive(Clone, Copy, PartialEq, Eq)]
pub struct CollatorKey {
    pub seed: [u8; 32],
}

impl View for CollatorKey {
    type V = Seq<u8>;

    open spec fn view(&self) -> Seq<u8> {
        self.seed@
    }
}

/// The public identifier of a collator: the public key of its key pair.
#[derive(Clone, Copy, Debug, PartialEq, Eq)]
pub struct CollatorId {
    pub bytes: [u8; 32],
}

impl View for CollatorId {
    type V = Seq<u8>;

    open spec fn view(&self) -> Seq<u8> {
        self.bytes@
    }
}

/// A signature made with a collator key.
#[derive(Clone, Copy, Debug, PartialEq, Eq)]
pub struct Signature {
    pub bytes: [u8; 64],
}

impl View for Signature {
    type V = Seq<u8>;

    open spec fn view(&self) -> Seq<u8> {
        self.bytes@
    }
}

/// The public key of the sr25519 key pair that `sp_core` expands from a
/// 32-byte seed.
pub uninterp spec fn sr25519_public(seed: Seq<u8>) -> Seq<u8>;

/// Calls `sp_core::Pair::from_seed` and `sp_core::Pair::public` of
/// `sp_core::sr25519::Pair`.
///
/// Trusted: the public key is a function of the seed alone. The expansion of
/// a 32-byte seed uses no randomness and accepts every seed of that length.
#[verifier::external_body]
fn public_from_seed(seed: &[u8; 32]) -> (public: [u8; 32])
    ensures
        public@ == sr25519_public(seed@),
{
    let pair: sp_core::sr25519::Pair = sp_core::Pair::from_seed(seed);
    sp_core::Pair::public(&pair).0
}

/// Calls `sp_core::Pair::generate` of `sp_core::sr25519::Pair` and keeps the
/// seed it drew from the operating system's random source.
///
/// Nothing is claimed of the seed.
#[verifier::external_body]
fn fresh_seed() -> (seed: [u8; 32]) {
    let generated: (sp_core::sr25519::Pair, [u8; 32]) = sp_core::Pair::generate();
    generated.1
}

/// Whether `sp_core`'s sr25519 verification accepts `signature` as a
/// signature of `message` under the public key `public`.
pub uninterp spec fn sr25519_verifies(signature: Seq<u8>, message: Seq<u8>, public: Seq<u8>) -> bool;

/// Calls `sp_core::Pair::sign` of the `sp_core::sr25519::Pair` that belongs
/// to `seed`.
///
/// Signing draws fresh randomness for every signature, so nothing is claimed
/// of the bytes themselves. Trusted: whatever they are, verification accepts
/// them for the same message under the public key of the same seed. The
/// documentation of `sp_core::Pair::Signature` says that a signature is
/// created from a key pair and a message and verified with the message and a
/// public key, and signing and verifying use the same signing context.
#[verifier::external_body]
fn sign_with_seed(seed: &[u8; 32], message: &[u8]) -> (signature: [u8; 64])
    ensures
        sr25519_verifies(signature@, message@, sr25519_public(seed@)),
{
    let pair: sp_core::sr25519::Pair = sp_core::Pair::from_seed(seed);
    sp_core::Pair::sign(&pair, message).0
}

/// Calls `sp_core::Pair::verify` of `sp_core::sr25519::Pair`.
///
/// Trusted: the answer is a function of the three byte strings alone.
/// Verification draws no randomness and returns `false`, without failing, on
/// bytes that are no signature or no public key.
#[verifier::external_body]
fn verify_with_public(signature: &[u8; 64], message: &[u8], public: &[u8; 32]) -> (valid: bool)
    ensures
        valid == sr25519_verifies(signature@, message@, public@),
{
    let signature = sp_core::sr25519::Signature::from_raw(*signature);
    let public = sp_core::sr25519::Public::from_raw(*public);
    <sp_core::sr25519::Pair as sp_core::Pair>::verify(&signature, message, &public)
}

impl CollatorId {
    /// Whether `signature` is a signature of `message` by the key that this
    /// identifier belongs to.
    pub fn verify(&self, message: &[u8], signature: &Signature) -> (valid: bool)
        ensures
            valid == sr25519_verifies(signature@, message@, self@),
    {
        verify_with_public(&signature.bytes, message, &self.bytes)
    }
}

/// A collator's key together with the identifier derived from it. Neither
/// changes after construction.
pub struct CollatorIdentity {
    key: CollatorKey,
    id: CollatorId,
}

impl CollatorIdentity {
    #[verifier::type_invariant]
    spec fn id_belongs_to_key(self) -> bool {
        self.id@ == sr25519_public(self.key@)
    }

    /// The seed of the signing key.
    pub closed spec fn seed(&self) -> Seq<u8> {
        self.key@
    }

    /// The bytes of the public identifier.
    pub closed spec fn id(&self) -> Seq<u8> {
        self.id@
    }

    /// The identity of the key pair with the given seed.
    pub fn from_seed(seed: [u8; 32]) -> (identity: CollatorIdentity)
        ensures
            identity.seed() == seed@,
            identity.id() == sr25519_public(seed@),
    {
        let public = public_from_seed(&seed);
        CollatorIdentity { key: CollatorKey { seed }, id: CollatorId { bytes: public } }
    }

    /// The identity of a freshly generated key pair.
    pub fn generate() -> (identity: CollatorIdentity)
        ensures
            identity.id() == sr25519_public(identity.seed()),
    {
        Self::from_seed(fresh_seed())
    }

    /// The public identifier: the public key that belongs to the signing key.
    pub fn collator_id(&self) -> (id: CollatorId)
        ensures
            id@ == self.id(),
            id@ == sr25519_public(self.seed()),
            id@.len() == COLLATOR_ID_LEN,
    {
        proof {
            use_type_invariant(self);
        }
        self.id
    }

    /// The signing key.
    pub fn collator_key(&self) -> (key: CollatorKey)
        ensures
            key@ == self.seed(),
            key@.len() == SEED_LEN,
    {
        self.key
    }

    /// A signature of `message` under the signing key. Two calls on the same
    /// message may return different signatures. Each of them verifies for
    /// `message` under the collator's identifier.
    pub fn sign(&self, message: &[u8]) -> (signature: Signature)
        ensures
            sr25519_verifies(signature@, message@, self.id()),
            signature@.len() == SIGNATURE_LEN,
    {
        proof {
            use_type_invariant(self);
        }
        Signature { bytes: sign_with_seed(&self.key.seed, message) }
    }
}

} // verus!
