//! The transcript hash: the running SHA-256 over the handshake messages, in
//! the order in which they are sent and received.

use vstd::prelude::*;

verus! {

/// The length of a SHA-256 digest in bytes.
pub const HASH_LEN: usize = 32;

/// The state of `sha2::Sha256`, a hash computation in progress. What it is
/// made of is not looked at: it stands for the bytes it has been fed.
#[verifier::external_body]
pub struct Sha256State {
    inner: sha2::Sha256,
}

/// The bytes that a hash computation has been fed, in order.
pub uninterp spec fn absorbed(state: Sha256State) -> Seq<u8>;

/// The SHA-256 digest of `data`, 32 bytes.
pub uninterp spec fn sha256(data: Seq<u8>) -> Seq<u8>;

/// `<sha2::Sha256 as Digest>::new` starts a hash computation that has been
/// fed nothing.
#[verifier::external_body]
fn sha256_new() -> (r: Sha256State)
    ensures
        absorbed(r) == Seq::<u8>::empty(),
{
    Sha256State { inner: <sha2::Sha256 as sha2::Digest>::new() }
}

/// `<sha2::Sha256 as Digest>::update` feeds `data` to the computation, after
/// what it has been fed before.
#[verifier::external_body]
fn sha256_update(state: &mut Sha256State, data: &[u8])
    ensures
        absorbed(*final(state)) == absorbed(*old(state)) + data@,
{
    sha2::Digest::update(&mut state.inner, data)
}

/// `<sha2::Sha256 as Clone>::clone` gives a second computation that has been
/// fed the same bytes.
#[verifier::external_body]
fn sha256_fork(state: &Sha256State) -> (r: Sha256State)
    ensures
        absorbed(r) == absorbed(*state),
{
    Sha256State { inner: state.inner.clone() }
}

/// `<sha2::Sha256 as Digest>::finalize` ends the computation and gives the
/// SHA-256 digest of all that it has been fed.
#[verifier::external_body]
fn sha256_finalize(state: Sha256State) -> (r: [u8; 32])
    ensures
        r@ == sha256(absorbed(state)),
{
    sha2::Digest::finalize(state.inner).into()
}

/// The message of the type "message hash" that stands for `messages`: the
/// type, the length of a hash as three bytes, and the hash of `messages`.
pub open spec fn spec_message_hash(messages: Seq<u8>) -> Seq<u8> {
    seq![254u8, 0, 0, 32] + sha256(messages)
}

/// The transcript of a handshake: a SHA-256 computation over the messages.
/// Its view is the bytes of the messages fed so far, one after the other.
pub struct Transcript {
    state: Sha256State,
}

impl View for Transcript {
    type V = Seq<u8>;

    closed spec fn view(&self) -> Seq<u8> {
        absorbed(self.state)
    }
}

impl Transcript {
    /// A transcript that holds no message.
    pub fn new() -> (r: Self)
        ensures
            r@ == Seq::<u8>::empty(),
    {
        Transcript { state: sha256_new() }
    }

    /// Feeds the bytes of a message to the transcript.
    pub fn update(&mut self, data: &[u8])
        ensures
            final(self)@ == old(self)@ + data@,
    {
        sha256_update(&mut self.state, data);
    }

    /// The hash of the transcript as it stands. The transcript itself goes
    /// on: the hash is taken from a copy of the running state.
    pub fn hash(&self) -> (r: [u8; 32])
        ensures
            r@ == sha256(self@),
    {
        sha256_finalize(sha256_fork(&self.state))
    }

    /// Puts a message of the type "message hash" in the place of what the
    /// transcript holds: the transcript then holds the header of such a
    /// message, which announces the length of a hash, and the hash of what
    /// it held before. A client does this to its first ClientHello when it
    /// is asked to retry.
    pub fn replace_with_message_hash(&mut self)
        ensures
            final(self)@ == spec_message_hash(old(self)@),
    {
        let hash = self.hash();
        let header: [u8; 4] = [254, 0, 0, 32];
        let mut fresh = Transcript::new();
        fresh.update(&header);
        fresh.update(&hash);
        assert(fresh@ =~= spec_message_hash(old(self)@));
        *self = fresh;
    }

    /// The SHA-256 digest of `data`.
    pub fn digest(data: &[u8]) -> (r: [u8; 32])
        ensures
            r@ == sha256(data@),
    {
        let mut t = Transcript::new();
        t.update(data);
        assert(t@ =~= data@);
        t.hash()
    }
}

} // verus!
