//! The key schedule as far as the messages need it: HMAC over SHA-256, the
//! binder of a pre-shared key, and the record counters of the two
//! directions.

use vstd::prelude::*;
use crate::TlsError;
use crate::big_endian::u16_to_be;
use crate::buffer::CryptoBuffer;
use crate::handshake::finished::Finished;
use crate::parse_encode::Both;
use crate::transcript::{sha256, Transcript, HASH_LEN};

verus! {

/// The block length of SHA-256 in bytes.
pub const BLOCK_LEN: usize = 64;

/// The key of an HMAC as one block: a key longer than a block is hashed
/// first, and what is shorter than a block is filled up with zero bytes.
pub open spec fn hmac_block_key(key: Seq<u8>) -> Seq<u8> {
    let k = if key.len() > BLOCK_LEN {
        sha256(key)
    } else {
        key
    };
    Seq::new(
        BLOCK_LEN as nat,
        |i: int|
            if i < k.len() {
                k[i]
            } else {
                0u8
            },
    )
}

/// Every byte of `block` combined with `pad` by exclusive or.
pub open spec fn xor_pad(block: Seq<u8>, pad: u8) -> Seq<u8> {
    Seq::new(block.len(), |i: int| block[i] ^ pad)
}

/// HMAC over SHA-256 of the message `msg` under the key `key`.
pub open spec fn spec_hmac_sha256(key: Seq<u8>, msg: Seq<u8>) -> Seq<u8> {
    let block = hmac_block_key(key);
    sha256(xor_pad(block, 0x5c) + sha256(xor_pad(block, 0x36) + msg))
}

/// Computes HMAC over SHA-256 of the message `msg` under the key `key`.
pub fn hmac_sha256(key: &[u8], msg: &[u8]) -> (r: [u8; 32])
    ensures
        r@ == spec_hmac_sha256(key@, msg@),
{
    let mut block: [u8; 64] = [0u8; 64];
    if key.len() > BLOCK_LEN {
        let hashed = Transcript::digest(key);
        let mut i: usize = 0;
        while i < HASH_LEN
            invariant
                i <= HASH_LEN,
                hashed@ == sha256(key@),
                forall|k: int| 0 <= k < i ==> block@[k] == hashed@[k],
                forall|k: int| i <= k < BLOCK_LEN ==> block@[k] == 0,
            decreases HASH_LEN - i,
        {
            block[i] = hashed[i];
            i = i + 1;
        }
    } else {
        let n = key.len();
        let mut i: usize = 0;
        while i < n
            invariant
                i <= n,
                n == key@.len(),
                n <= BLOCK_LEN,
                forall|k: int| 0 <= k < i ==> block@[k] == key@[k],
                forall|k: int| i <= k < BLOCK_LEN ==> block@[k] == 0,
            decreases n - i,
        {
            block[i] = key[i];
            i = i + 1;
        }
    }
    assert(block@ =~= hmac_block_key(key@));
    let mut inner_pad: [u8; 64] = [0u8; 64];
    let mut outer_pad: [u8; 64] = [0u8; 64];
    let mut i: usize = 0;
    while i < BLOCK_LEN
        invariant
            i <= BLOCK_LEN,
            forall|k: int| 0 <= k < i ==> inner_pad@[k] == block@[k] ^ 0x36,
            forall|k: int| 0 <= k < i ==> outer_pad@[k] == block@[k] ^ 0x5c,
        decreases BLOCK_LEN - i,
    {
        inner_pad[i] = block[i] ^ 0x36;
        outer_pad[i] = block[i] ^ 0x5c;
        i = i + 1;
    }
    assert(inner_pad@ =~= xor_pad(block@, 0x36));
    assert(outer_pad@ =~= xor_pad(block@, 0x5c));
    let mut inner = Transcript::new();
    inner.update(&inner_pad);
    inner.update(msg);
    let inner_hash = inner.hash();
    assert(inner@ =~= xor_pad(block@, 0x36) + msg@);
    let mut outer = Transcript::new();
    outer.update(&outer_pad);
    outer.update(&inner_hash);
    assert(outer@ =~= xor_pad(block@, 0x5c) + inner_hash@);
    outer.hash()
}

/// `n` zero bytes: what stands for a secret that is not there.
pub open spec fn zero_bytes(n: nat) -> Seq<u8> {
    Seq::new(n, |i: int| 0u8)
}

/// HKDF-Extract: the pseudorandom key that the salt `salt` draws from the
/// keying material `ikm`.
pub open spec fn spec_hkdf_extract(salt: Seq<u8>, ikm: Seq<u8>) -> Seq<u8> {
    spec_hmac_sha256(salt, ikm)
}

/// Computes HKDF-Extract.
pub fn hkdf_extract(salt: &[u8], ikm: &[u8]) -> (r: [u8; 32])
    ensures
        r@ == spec_hkdf_extract(salt@, ikm@),
{
    hmac_sha256(salt, ikm)
}

/// The bytes of "tls13 ", which open every label.
pub open spec fn label_prefix() -> Seq<u8> {
    seq![0x74u8, 0x6c, 0x73, 0x31, 0x33, 0x20]
}

/// The label structure that HKDF-Expand-Label hands to HKDF-Expand: the
/// length asked for as two bytes, "tls13 " and the label behind a one-byte
/// length, and the context behind a one-byte length.
pub open spec fn spec_hkdf_label(length: u16, label: Seq<u8>, context: Seq<u8>) -> Seq<u8> {
    u16_to_be(length) + seq![(6 + label.len()) as u8] + (label_prefix() + label) + seq![
        context.len() as u8,
    ] + context
}

/// The first block of HKDF-Expand for the label structure of `length`,
/// `label` and `context`: of it, HKDF-Expand-Label gives the first `length`
/// bytes.
pub open spec fn spec_expand_block(
    secret: Seq<u8>,
    label: Seq<u8>,
    context: Seq<u8>,
    length: u16,
) -> Seq<u8> {
    spec_hmac_sha256(secret, spec_hkdf_label(length, label, context) + seq![1u8])
}

/// HKDF-Expand-Label: `length` bytes, at most 32, drawn from `secret` for
/// the label `label` and the context `context`.
pub open spec fn spec_hkdf_expand_label(
    secret: Seq<u8>,
    label: Seq<u8>,
    context: Seq<u8>,
    length: u16,
) -> Seq<u8> {
    spec_expand_block(secret, label, context, length).take(length as int)
}

/// The longest label that fits behind "tls13 " in a one-byte length.
pub const MAX_LABEL: usize = 249;

/// The longest context.
pub const MAX_CONTEXT: usize = 255;

/// Computes the first block of HKDF-Expand for the label structure of
/// `length`, `label` and `context`. There is none for a length above 32, a
/// label above [`MAX_LABEL`] bytes or a context above [`MAX_CONTEXT`] bytes.
pub fn expand_block(secret: &[u8], label: &[u8], context: &[u8], length: u16) -> (r: Option<
    [u8; 32],
>)
    ensures
        r is Some <==> length <= HASH_LEN && label@.len() <= MAX_LABEL && context@.len()
            <= MAX_CONTEXT,
        r matches Some(block) ==> block@ == spec_expand_block(secret@, label@, context@, length),
{
    if length as usize > HASH_LEN || label.len() > MAX_LABEL || context.len() > MAX_CONTEXT {
        return None;
    }
    let prefix: [u8; 6] = [0x74, 0x6c, 0x73, 0x31, 0x33, 0x20];
    assert(prefix@ =~= label_prefix());
    let mut bytes: [u8; 520] = [0u8; 520];
    let mut info = CryptoBuffer::wrap(&mut bytes);
    let r1 = info.push_u16(length);
    let prefix: &[u8] = &prefix;
    let r2 = info.push_u8_prefixed(Both(prefix, label));
    let r3 = info.push_u8_prefixed(context);
    let r4 = info.push(1);
    assert(r1 is Ok && r2 is Ok && r3 is Ok && r4 is Ok);
    assert(info@ =~= spec_hkdf_label(length, label@, context@) + seq![1u8]);
    Some(hmac_sha256(secret, info.as_slice()))
}

/// The bytes of "derived".
pub open spec fn label_derived() -> Seq<u8> {
    seq![0x64u8, 0x65, 0x72, 0x69, 0x76, 0x65, 0x64]
}

/// The bytes of "key".
pub open spec fn label_key() -> Seq<u8> {
    seq![0x6bu8, 0x65, 0x79]
}

/// The bytes of "iv".
pub open spec fn label_iv() -> Seq<u8> {
    seq![0x69u8, 0x76]
}

/// The bytes of "finished".
pub open spec fn label_finished() -> Seq<u8> {
    seq![0x66u8, 0x69, 0x6e, 0x69, 0x73, 0x68, 0x65, 0x64]
}

/// Derive-Secret: the secret of a hash's length drawn from `secret` for the
/// label `label` and the messages whose transcript hash is
/// `transcript_hash`.
pub open spec fn spec_derive_secret(secret: Seq<u8>, label: Seq<u8>, transcript_hash: Seq<u8>) -> Seq<
    u8,
> {
    spec_hkdf_expand_label(secret, label, transcript_hash, HASH_LEN as u16)
}

/// Computes Derive-Secret for the messages whose transcript hash is
/// `transcript_hash`. There is none for a label above [`MAX_LABEL`] bytes.
pub fn derive_secret(secret: &[u8], label: &[u8], transcript_hash: &[u8; 32]) -> (r: Option<
    [u8; 32],
>)
    ensures
        r is Some <==> label@.len() <= MAX_LABEL,
        r matches Some(derived) ==> derived@ == spec_derive_secret(
            secret@,
            label@,
            transcript_hash@,
        ),
{
    match expand_block(secret, label, transcript_hash, 32) {
        Some(block) => {
            assert(block@.take(32) =~= block@);
            Some(block)
        },
        None => None,
    }
}

/// The secret from which the next stage of the key schedule is extracted:
/// Derive-Secret for the label "derived" and no messages.
pub open spec fn spec_derived(secret: Seq<u8>) -> Seq<u8> {
    spec_derive_secret(secret, label_derived(), sha256(Seq::empty()))
}

/// The early secret: extracted, with a salt of zero bytes, from the
/// pre-shared key, or from zero bytes where there is none.
pub open spec fn spec_early_secret(psk: Option<Seq<u8>>) -> Seq<u8> {
    spec_hkdf_extract(
        zero_bytes(HASH_LEN as nat),
        match psk {
            Some(key) => key,
            None => zero_bytes(HASH_LEN as nat),
        },
    )
}

/// The handshake secret: extracted, with what is derived from the early
/// secret as salt, from the shared secret of the key exchange, or from zero
/// bytes where there is none.
pub open spec fn spec_handshake_secret(early: Seq<u8>, shared: Option<Seq<u8>>) -> Seq<u8> {
    spec_hkdf_extract(
        spec_derived(early),
        match shared {
            Some(key) => key,
            None => zero_bytes(HASH_LEN as nat),
        },
    )
}

/// The master secret: extracted, with what is derived from the handshake
/// secret as salt, from zero bytes.
pub open spec fn spec_master_secret(handshake: Seq<u8>) -> Seq<u8> {
    spec_hkdf_extract(spec_derived(handshake), zero_bytes(HASH_LEN as nat))
}

/// The key of the AEAD for a traffic secret: 16 bytes for the label "key".
pub open spec fn spec_traffic_key(secret: Seq<u8>) -> Seq<u8> {
    spec_hkdf_expand_label(secret, label_key(), Seq::empty(), 16)
}

/// The initialisation vector for a traffic secret: 12 bytes for the label
/// "iv".
pub open spec fn spec_traffic_iv(secret: Seq<u8>) -> Seq<u8> {
    spec_hkdf_expand_label(secret, label_iv(), Seq::empty(), 12)
}

/// The key of the Finished MAC for a traffic secret: a hash's length of
/// bytes for the label "finished".
pub open spec fn spec_finished_key(secret: Seq<u8>) -> Seq<u8> {
    spec_hkdf_expand_label(secret, label_finished(), Seq::empty(), HASH_LEN as u16)
}

/// The MAC of a Finished message: the HMAC, under the finished key of the
/// sender's handshake traffic secret, of the transcript hash.
pub open spec fn spec_verify_data(secret: Seq<u8>, transcript_hash: Seq<u8>) -> Seq<u8> {
    spec_hmac_sha256(spec_finished_key(secret), transcript_hash)
}

/// A stage of the key schedule: the early, the handshake or the master
/// secret. Its view is the bytes of the secret.
pub struct KeySchedule {
    secret: [u8; 32],
}

impl View for KeySchedule {
    type V = Seq<u8>;

    closed spec fn view(&self) -> Seq<u8> {
        self.secret@
    }
}

impl KeySchedule {
    /// The early secret, for the pre-shared key `psk` where there is one.
    pub fn early(psk: Option<&[u8]>) -> (r: Self)
        ensures
            r@ == spec_early_secret(
                match psk {
                    Some(key) => Some(key@),
                    None => None,
                },
            ),
    {
        let zero: [u8; 32] = [0u8; 32];
        assert(zero@ =~= zero_bytes(HASH_LEN as nat));
        let secret = match psk {
            Some(key) => hkdf_extract(&zero, key),
            None => hkdf_extract(&zero, &zero),
        };
        KeySchedule { secret }
    }

    /// What is derived from this stage as the salt of the next.
    fn derived(&self) -> (r: [u8; 32])
        ensures
            r@ == spec_derived(self@),
    {
        let label: [u8; 7] = [0x64, 0x65, 0x72, 0x69, 0x76, 0x65, 0x64];
        assert(label@ =~= label_derived());
        let none: [u8; 0] = [];
        assert(none@ =~= Seq::<u8>::empty());
        let empty_hash = Transcript::digest(&none);
        match derive_secret(&self.secret, &label, &empty_hash) {
            Some(derived) => derived,
            None => [0u8; 32],
        }
    }

    /// The handshake secret that follows this early secret, for the shared
    /// secret `shared` of the key exchange where there is one.
    pub fn handshake(&self, shared: Option<&[u8]>) -> (r: Self)
        ensures
            r@ == spec_handshake_secret(
                self@,
                match shared {
                    Some(key) => Some(key@),
                    None => None,
                },
            ),
    {
        let salt = self.derived();
        let zero: [u8; 32] = [0u8; 32];
        assert(zero@ =~= zero_bytes(HASH_LEN as nat));
        let secret = match shared {
            Some(key) => hkdf_extract(&salt, key),
            None => hkdf_extract(&salt, &zero),
        };
        KeySchedule { secret }
    }

    /// The master secret that follows this handshake secret.
    pub fn master(&self) -> (r: Self)
        ensures
            r@ == spec_master_secret(self@),
    {
        let salt = self.derived();
        let zero: [u8; 32] = [0u8; 32];
        assert(zero@ =~= zero_bytes(HASH_LEN as nat));
        KeySchedule { secret: hkdf_extract(&salt, &zero) }
    }

    /// The secret that this stage gives for the label `label` and the
    /// messages whose transcript hash is `transcript_hash`: a traffic
    /// secret, the binder key, the exporter or the resumption secret. There
    /// is none for a label above [`MAX_LABEL`] bytes.
    pub fn derive(&self, label: &[u8], transcript_hash: &[u8; 32]) -> (r: Option<[u8; 32]>)
        ensures
            r is Some <==> label@.len() <= MAX_LABEL,
            r matches Some(derived) ==> derived@ == spec_derive_secret(
                self@,
                label@,
                transcript_hash@,
            ),
    {
        derive_secret(&self.secret, label, transcript_hash)
    }

    /// The bytes of the secret.
    pub fn secret(&self) -> (r: &[u8; 32])
        ensures
            r@ == self@,
    {
        &self.secret
    }
}

/// Computes the key of the AEAD for the traffic secret `secret`.
pub fn traffic_key(secret: &[u8; 32]) -> (r: [u8; 16])
    ensures
        r@ == spec_traffic_key(secret@),
{
    let label: [u8; 3] = [0x6b, 0x65, 0x79];
    assert(label@ =~= label_key());
    let none: [u8; 0] = [];
    assert(none@ =~= Seq::<u8>::empty());
    let mut r: [u8; 16] = [0u8; 16];
    match expand_block(secret, &label, &none, 16) {
        Some(block) => {
            let mut i: usize = 0;
            while i < 16
                invariant
                    i <= 16,
                    forall|k: int| 0 <= k < i ==> r@[k] == block@[k],
                decreases 16 - i,
            {
                r[i] = block[i];
                i = i + 1;
            }
            assert(r@ =~= block@.take(16));
        },
        None => {},
    }
    r
}

/// Computes the initialisation vector for the traffic secret `secret`.
pub fn traffic_iv(secret: &[u8; 32]) -> (r: [u8; 12])
    ensures
        r@ == spec_traffic_iv(secret@),
{
    let label: [u8; 2] = [0x69, 0x76];
    assert(label@ =~= label_iv());
    let none: [u8; 0] = [];
    assert(none@ =~= Seq::<u8>::empty());
    let mut r: [u8; 12] = [0u8; 12];
    match expand_block(secret, &label, &none, 12) {
        Some(block) => {
            let mut i: usize = 0;
            while i < 12
                invariant
                    i <= 12,
                    forall|k: int| 0 <= k < i ==> r@[k] == block@[k],
                decreases 12 - i,
            {
                r[i] = block[i];
                i = i + 1;
            }
            assert(r@ =~= block@.take(12));
        },
        None => {},
    }
    r
}

/// Computes the key of the Finished MAC for the traffic secret `secret`.
pub fn finished_key(secret: &[u8; 32]) -> (r: [u8; 32])
    ensures
        r@ == spec_finished_key(secret@),
{
    let label: [u8; 8] = [0x66, 0x69, 0x6e, 0x69, 0x73, 0x68, 0x65, 0x64];
    assert(label@ =~= label_finished());
    let none: [u8; 0] = [];
    assert(none@ =~= Seq::<u8>::empty());
    match expand_block(secret, &label, &none, 32) {
        Some(block) => {
            assert(block@.take(32) =~= block@);
            block
        },
        None => [0u8; 32],
    }
}

/// Computes the MAC of a Finished message for the handshake traffic secret
/// `secret` of its sender and the transcript hash `transcript_hash`.
pub fn verify_data(secret: &[u8; 32], transcript_hash: &[u8; 32]) -> (r: [u8; 32])
    ensures
        r@ == spec_verify_data(secret@, transcript_hash@),
{
    let key = finished_key(secret);
    hmac_sha256(&key, transcript_hash)
}

/// The binder of a pre-shared key: the HMAC, under the binder key, of the
/// hash of the transcript `transcript`.
pub open spec fn spec_psk_binder(binder_key: Seq<u8>, transcript: Seq<u8>) -> Seq<u8> {
    spec_hmac_sha256(binder_key, sha256(transcript))
}

/// The traffic secret that a schedule holds before one is installed: 32
/// zero bytes.
pub open spec fn blank_secret() -> Seq<u8> {
    Seq::new(32, |i: int| 0u8)
}

/// The sending half of the key schedule: the binder key of the pre-shared
/// key, where there is one, and the number of records sent under the
/// traffic secret in use.
pub struct WriteKeySchedule {
    binder_key: Option<[u8; 32]>,
    traffic_secret: [u8; 32],
    counter: u64,
}

/// The receiving half of the key schedule: the number of records accepted
/// under the traffic secret in use.
pub struct ReadKeySchedule {
    traffic_secret: [u8; 32],
    counter: u64,
}

impl WriteKeySchedule {
    /// The binder key, where one is set.
    pub closed spec fn binder_key(self) -> Option<Seq<u8>> {
        match self.binder_key {
            Some(k) => Some(k@),
            None => None,
        }
    }

    /// The traffic secret in use.
    pub closed spec fn traffic_secret(self) -> Seq<u8> {
        self.traffic_secret@
    }

    /// The sequence number of the next record to send.
    pub closed spec fn sequence_number(self) -> u64 {
        self.counter
    }

    /// A schedule without a binder key, at sequence number zero. Until a
    /// traffic secret is installed it holds the secret of 32 zero bytes.
    pub fn new() -> (r: Self)
        ensures
            r.binder_key() is None,
            r.traffic_secret() == blank_secret(),
            r.sequence_number() == 0,
    {
        let traffic_secret = [0u8; 32];
        assert(traffic_secret@ =~= blank_secret());
        WriteKeySchedule { binder_key: None, traffic_secret, counter: 0 }
    }

    /// Whether a binder key is set.
    pub fn has_binder_key(&self) -> (r: bool)
        ensures
            r == self.binder_key() is Some,
    {
        self.binder_key.is_some()
    }

    /// Sets the binder key of the pre-shared key.
    pub fn set_binder_key(&mut self, key: [u8; 32])
        ensures
            final(self).binder_key() == Some(key@),
            final(self).traffic_secret() == old(self).traffic_secret(),
            final(self).sequence_number() == old(self).sequence_number(),
    {
        self.binder_key = Some(key);
    }

    /// Installs a traffic secret: records are counted from zero again.
    pub fn install_traffic_secret(&mut self, secret: [u8; 32])
        ensures
            final(self).traffic_secret() == secret@,
            final(self).sequence_number() == 0,
            final(self).binder_key() == old(self).binder_key(),
    {
        self.traffic_secret = secret;
        self.counter = 0;
    }

    /// Takes the sequence number for a record that is sent: gives the number
    /// and moves on to the next. Fails, changing nothing, when the numbers
    /// are used up.
    pub fn next_sequence_number(&mut self) -> (r: Result<u64, TlsError>)
        ensures
            final(self).traffic_secret() == old(self).traffic_secret(),
            final(self).binder_key() == old(self).binder_key(),
            match r {
                Ok(n) => n == old(self).sequence_number() && final(self).sequence_number() == n + 1,
                Err(e) => e == TlsError::EncodeError && old(self).sequence_number() == u64::MAX
                    && final(self).sequence_number() == old(self).sequence_number(),
            },
    {
        if self.counter == u64::MAX {
            Err(TlsError::EncodeError)
        } else {
            let n = self.counter;
            self.counter = n + 1;
            Ok(n)
        }
    }

    /// The key of the AEAD for the traffic secret in use.
    pub fn key(&self) -> (r: [u8; 16])
        ensures
            r@ == spec_traffic_key(self.traffic_secret()),
    {
        traffic_key(&self.traffic_secret)
    }

    /// The initialisation vector for the traffic secret in use.
    pub fn iv(&self) -> (r: [u8; 12])
        ensures
            r@ == spec_traffic_iv(self.traffic_secret()),
    {
        traffic_iv(&self.traffic_secret)
    }

    /// The Finished message to send for the transcript as it stands: its
    /// MAC is computed under the traffic secret in use.
    pub fn create_finished(&self, transcript: &Transcript) -> (r: Finished)
        ensures
            r.verify@ == spec_verify_data(self.traffic_secret(), sha256(transcript@)),
            r.hash is None,
    {
        let hash = transcript.hash();
        Finished { verify: verify_data(&self.traffic_secret, &hash), hash: None }
    }

    /// The binder for the transcript as it stands. There is none without a
    /// binder key.
    pub fn create_psk_binder(&self, transcript: &Transcript) -> (r: Option<[u8; 32]>)
        ensures
            match self.binder_key() {
                Some(key) => r matches Some(b) && b@ == spec_psk_binder(key, transcript@),
                None => r is None,
            },
    {
        match &self.binder_key {
            Some(key) => {
                let hash = transcript.hash();
                Some(hmac_sha256(key, &hash))
            },
            None => None,
        }
    }
}

impl ReadKeySchedule {
    /// The traffic secret in use.
    pub closed spec fn traffic_secret(self) -> Seq<u8> {
        self.traffic_secret@
    }

    /// The sequence number of the next record to accept.
    pub closed spec fn sequence_number(self) -> u64 {
        self.counter
    }

    /// A schedule at sequence number zero. Until a traffic secret is
    /// installed it holds the secret of 32 zero bytes.
    pub fn new() -> (r: Self)
        ensures
            r.traffic_secret() == blank_secret(),
            r.sequence_number() == 0,
    {
        let traffic_secret = [0u8; 32];
        assert(traffic_secret@ =~= blank_secret());
        ReadKeySchedule { traffic_secret, counter: 0 }
    }

    /// Installs a traffic secret: records are counted from zero again.
    pub fn install_traffic_secret(&mut self, secret: [u8; 32])
        ensures
            final(self).traffic_secret() == secret@,
            final(self).sequence_number() == 0,
    {
        self.traffic_secret = secret;
        self.counter = 0;
    }

    /// The key of the AEAD for the traffic secret in use.
    pub fn key(&self) -> (r: [u8; 16])
        ensures
            r@ == spec_traffic_key(self.traffic_secret()),
    {
        traffic_key(&self.traffic_secret)
    }

    /// The initialisation vector for the traffic secret in use.
    pub fn iv(&self) -> (r: [u8; 12])
        ensures
            r@ == spec_traffic_iv(self.traffic_secret()),
    {
        traffic_iv(&self.traffic_secret)
    }

    /// Whether the MAC of the Finished message `finished` is the MAC that
    /// the traffic secret in use gives for the transcript hash that the
    /// message carries. A message without a transcript hash does not
    /// verify.
    pub fn verify_finished(&self, finished: &Finished) -> (r: bool)
        ensures
            r == match finished.hash {
                Some(hash) => finished.verify@ == spec_verify_data(self.traffic_secret(), hash@),
                None => false,
            },
    {
        match &finished.hash {
            Some(hash) => {
                let expected = verify_data(&self.traffic_secret, hash);
                let mut same = true;
                let mut i: usize = 0;
                while i < 32
                    invariant
                        i <= 32,
                        same == (forall|k: int| 0 <= k < i ==> finished.verify@[k] == expected@[k]),
                    decreases 32 - i,
                {
                    if finished.verify[i] != expected[i] {
                        same = false;
                    }
                    i = i + 1;
                }
                assert(same == (finished.verify@ =~= expected@));
                same
            },
            None => false,
        }
    }

    /// Takes the sequence number for a record that is accepted: gives the
    /// number and moves on to the next. Fails, changing nothing, when the
    /// numbers are used up.
    pub fn next_sequence_number(&mut self) -> (r: Result<u64, TlsError>)
        ensures
            final(self).traffic_secret() == old(self).traffic_secret(),
            match r {
                Ok(n) => n == old(self).sequence_number() && final(self).sequence_number() == n + 1,
                Err(e) => e == TlsError::DecodeError && old(self).sequence_number() == u64::MAX
                    && final(self).sequence_number() == old(self).sequence_number(),
            },
    {
        if self.counter == u64::MAX {
            Err(TlsError::DecodeError)
        } else {
            let n = self.counter;
            self.counter = n + 1;
            Ok(n)
        }
    }
}

/// The eight bytes that spell `n`, most significant byte first.
pub open spec fn u64_to_be(n: u64) -> Seq<u8> {
    Seq::new(8, |i: int| ((n as int / pow256(7 - i)) % 256) as u8)
}

/// 256 to the power of `k`, for `k` up to 7.
pub open spec fn pow256(k: int) -> int {
    if k <= 0 {
        1
    } else if k == 1 {
        0x100
    } else if k == 2 {
        0x1_0000
    } else if k == 3 {
        0x100_0000
    } else if k == 4 {
        0x1_0000_0000
    } else if k == 5 {
        0x100_0000_0000
    } else if k == 6 {
        0x1_0000_0000_0000
    } else {
        0x100_0000_0000_0000
    }
}

/// The nonce of the record with sequence number `seq` under the
/// initialisation vector `iv`: the vector, with the eight bytes of the
/// sequence number combined into its last eight bytes by exclusive or.
pub open spec fn spec_nonce(iv: Seq<u8>, seq: u64) -> Seq<u8> {
    Seq::new(
        12,
        |i: int|
            if i < 4 {
                iv[i]
            } else {
                iv[i] ^ u64_to_be(seq)[i - 4]
            },
    )
}

/// Computes the nonce of the record with sequence number `seq` under the
/// initialisation vector `iv`.
pub fn nonce(iv: &[u8; 12], seq: u64) -> (r: [u8; 12])
    ensures
        r@ == spec_nonce(iv@, seq),
{
    let counter: [u8; 8] = [
        ((seq / 0x100_0000_0000_0000) % 256) as u8,
        ((seq / 0x1_0000_0000_0000) % 256) as u8,
        ((seq / 0x100_0000_0000) % 256) as u8,
        ((seq / 0x1_0000_0000) % 256) as u8,
        ((seq / 0x100_0000) % 256) as u8,
        ((seq / 0x1_0000) % 256) as u8,
        ((seq / 0x100) % 256) as u8,
        (seq % 256) as u8,
    ];
    assert(counter@ =~= u64_to_be(seq));
    let mut r: [u8; 12] = [0u8; 12];
    let mut i: usize = 0;
    while i < 12
        invariant
            i <= 12,
            counter@ == u64_to_be(seq),
            forall|k: int| 0 <= k < i ==> r@[k] == spec_nonce(iv@, seq)[k],
        decreases 12 - i,
    {
        if i < 4 {
            r[i] = iv[i];
        } else {
            r[i] = iv[i] ^ counter[i - 4];
        }
        i = i + 1;
    }
    assert(r@ =~= spec_nonce(iv@, seq));
    r
}

} // verus!
