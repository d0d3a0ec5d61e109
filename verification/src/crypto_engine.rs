//! The key agreement of the handshake: an ephemeral secret, the secret
//! shared with the peer, and the two kept together with their group.

use vstd::prelude::*;
use crate::extensions::extension_data::supported_groups::NamedGroup;

verus! {

/// The secret half of an ephemeral P-256 key pair, as the 32 bytes of its
/// scalar. Its view is those bytes.
pub struct EphemeralSecret {
    scalar: [u8; 32],
}

impl View for EphemeralSecret {
    type V = Seq<u8>;

    closed spec fn view(&self) -> Seq<u8> {
        self.scalar@
    }
}

impl EphemeralSecret {
    /// The secret with the scalar `scalar`.
    pub fn from_bytes(scalar: [u8; 32]) -> (r: Self)
        ensures
            r@ == scalar@,
    {
        EphemeralSecret { scalar }
    }
}

/// A secret that both peers have computed. Its view is its 32 bytes.
pub struct SharedSecret {
    bytes: [u8; 32],
}

impl View for SharedSecret {
    type V = Seq<u8>;

    closed spec fn view(&self) -> Seq<u8> {
        self.bytes@
    }
}

impl SharedSecret {
    /// The bytes of the secret.
    pub fn raw_secret_bytes(&self) -> (r: &[u8; 32])
        ensures
            r@ == self@,
    {
        &self.bytes
    }
}

/// What Diffie-Hellman over P-256 gives for the secret scalar `secret` and
/// the peer's public key in SEC1 encoding `peer_public`: the x coordinate of
/// the shared point, or `None` where the scalar is zero, out of range or not
/// 32 bytes, or the bytes are no point of the curve.
pub uninterp spec fn p256_shared_secret(secret: Seq<u8>, peer_public: Seq<u8>) -> Option<Seq<u8>>;

/// `p256::ecdh::diffie_hellman` on the scalar that `NonZeroScalar::try_from`
/// reads from `secret` and the point that `PublicKey::from_sec1_bytes` reads
/// from `peer_public`; `None` where either of the two does not read. The
/// result is the bytes that `SharedSecret::raw_secret_bytes` gives.
#[verifier::external_body]
fn p256_diffie_hellman(secret: &[u8; 32], peer_public: &[u8]) -> (r: Option<[u8; 32]>)
    ensures
        match r {
            Some(k) => p256_shared_secret(secret@, peer_public@) == Some(k@),
            None => p256_shared_secret(secret@, peer_public@) is None,
        },
{
    let scalar = p256::NonZeroScalar::try_from(&secret[..]).ok()?;
    let public = p256::PublicKey::from_sec1_bytes(peer_public).ok()?;
    let shared = p256::ecdh::diffie_hellman(scalar, public.as_affine());
    Some((*shared.raw_secret_bytes()).into())
}

/// Computes the secret shared with the peer whose public key, in SEC1
/// encoding, is `peer_public`. There is none where those bytes are no point
/// of the curve.
pub fn agree(secret: &EphemeralSecret, peer_public: &[u8]) -> (r: Option<SharedSecret>)
    ensures
        match r {
            Some(k) => p256_shared_secret(secret@, peer_public@) == Some(k@),
            None => p256_shared_secret(secret@, peer_public@) is None,
        },
{
    match p256_diffie_hellman(&secret.scalar, peer_public) {
        Some(bytes) => Some(SharedSecret { bytes }),
        None => None,
    }
}

/// A key agreement that has been carried out: the group and the shared secret.
pub struct CryptoEngine {
    pub group: NamedGroup,
    pub shared: SharedSecret,
}

impl CryptoEngine {
    /// The engine for the group `group` and the secret `shared`.
    pub fn new(group: NamedGroup, shared: SharedSecret) -> (r: Self)
        ensures
            r.group == group,
            r.shared@ == shared@,
    {
        CryptoEngine { group, shared }
    }
}

} // verus!
