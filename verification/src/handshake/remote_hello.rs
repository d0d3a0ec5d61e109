//! The hello messages as they are received: ServerHello by a client,
//! ClientHello by a server.

use vstd::prelude::*;
use vstd::slice::slice_subrange;
use crate::TlsError;
use crate::alert::{AlertDescription, AlertLevel};
use crate::big_endian::u16_from_be;
use crate::cipher_suites::CipherSuite;
use crate::crypto_engine::{agree, p256_shared_secret, CryptoEngine, EphemeralSecret, SharedSecret};
use crate::extensions::extension_data::key_share::KeyShareEntry;
use crate::extensions::extension_data::supported_groups::NamedGroup;
use crate::extensions::messages::{
    extensions, held, illegal_parameter, parse_vector, spec_parse_vector, Extension, ExtensionView,
    MessageKind,
};
use crate::parse_buffer::ParseBuffer;
use crate::parse_encode::{views, Parse};

verus! {

/// The number of extensions that a ServerHello may carry.
pub const SERVER_HELLO_EXTENSIONS: usize = 4;

/// The number of extensions that a ClientHello may carry.
pub const CLIENT_HELLO_EXTENSIONS: usize = 8;

/// The random of a ServerHello that is a HelloRetryRequest: the SHA-256
/// digest of "HelloRetryRequest".
pub open spec fn hello_retry_random() -> Seq<u8> {
    seq![
        0xCFu8, 0x21, 0xAD, 0x74, 0xE5, 0x9A, 0x61, 0x11,
        0xBE, 0x1D, 0x8C, 0x02, 0x1E, 0x65, 0xB8, 0x91,
        0xC2, 0xA2, 0x11, 0x16, 0x7A, 0xBB, 0x8C, 0x5E,
        0x07, 0x9E, 0x09, 0xE2, 0xC8, 0xA8, 0x33, 0x9C,
    ]
}

/// Whether `random` is the random of a HelloRetryRequest.
fn is_hello_retry_random(random: &[u8]) -> (r: bool)
    ensures
        r == (random@ == hello_retry_random()),
{
    let magic: [u8; 32] = [
        0xCF, 0x21, 0xAD, 0x74, 0xE5, 0x9A, 0x61, 0x11,
        0xBE, 0x1D, 0x8C, 0x02, 0x1E, 0x65, 0xB8, 0x91,
        0xC2, 0xA2, 0x11, 0x16, 0x7A, 0xBB, 0x8C, 0x5E,
        0x07, 0x9E, 0x09, 0xE2, 0xC8, 0xA8, 0x33, 0x9C,
    ];
    assert(magic@ =~= hello_retry_random());
    if random.len() != 32 {
        return false;
    }
    let mut i: usize = 0;
    while i < 32
        invariant
            i <= 32,
            random@.len() == 32,
            magic@ == hello_retry_random(),
            forall|k: int| 0 <= k < i ==> random@[k] == magic@[k],
        decreases 32 - i,
    {
        if random[i] != magic[i] {
            return false;
        }
        i = i + 1;
    }
    assert(random@ =~= magic@);
    true
}

/// What stands at the front of `s` when a hello is expected, up to the end
/// of the session id: two bytes of version, 32 bytes of random, and the
/// session id behind a one-byte length. Gives the session id and the number
/// of bytes up to its end, or
/// - `InvalidHandshake` where the version is cut short,
/// - a decode error where the random is cut short,
/// - `InvalidSessionIdLength` where the session id is missing or cut
///   short.
pub open spec fn spec_parse_session_id(s: Seq<u8>) -> Result<(Seq<u8>, nat), TlsError> {
    if s.len() < 2 {
        Err(TlsError::InvalidHandshake)
    } else if s.len() < 34 {
        Err(TlsError::DecodeError)
    } else if s.len() < 35 || s.len() < 35 + s[34] {
        Err(TlsError::InvalidSessionIdLength)
    } else {
        Ok((s.subrange(35, 35 + s[34]), (35 + s[34]) as nat))
    }
}

/// Reads a hello message from its beginning up to the end of the session
/// id, and gives the session id.
pub fn parse_session_id<'a>(buf: &mut ParseBuffer<'a>) -> (r: Result<ParseBuffer<'a>, TlsError>)
    ensures
        old(buf).wf(),
        final(buf).wf(),
        final(buf).bytes() == old(buf).bytes(),
        match spec_parse_session_id(old(buf).unread()) {
            Ok((id, n)) => r matches Ok(sub) && sub.bytes() == id && sub.position() == 0
                && final(buf).position() == old(buf).position() + n,
            Err(e) => r matches Err(f) && f == e,
        },
{
    let ghost s = buf.unread();
    match buf.read_u16() {
        Ok(_) => {},
        Err(_) => {
            return Err(TlsError::InvalidHandshake);
        },
    }
    match buf.slice(32) {
        Ok(_) => {},
        Err(_) => {
            return Err(TlsError::DecodeError);
        },
    }
    assert(buf.unread() =~= s.skip(34));
    let session_id_length = match buf.read_u8() {
        Ok(v) => v as usize,
        Err(_) => {
            return Err(TlsError::InvalidSessionIdLength);
        },
    };
    match buf.slice(session_id_length) {
        Ok(sub) => {
            assert(sub.bytes() =~= s.subrange(35, 35 + session_id_length));
            Ok(sub)
        },
        Err(_) => Err(TlsError::InvalidSessionIdLength),
    }
}

/// A ServerHello as a client receives it.
pub struct RemoteServerHello<'a> {
    pub random: &'a [u8],
    pub session_id: &'a [u8],
    pub cipher_suite: CipherSuite,
    pub extensions: heapless::Vec<Extension<'a>, 8>,
}

/// What a ServerHello holds, as values.
pub struct ServerHelloView {
    pub random: Seq<u8>,
    pub session_id: Seq<u8>,
    pub cipher_suite: CipherSuite,
    pub extensions: Seq<ExtensionView>,
}

impl ServerHelloView {
    /// Whether the message is a HelloRetryRequest: a ServerHello with the
    /// random that marks one.
    pub open spec fn is_hello_retry_request(self) -> bool {
        self.random == hello_retry_random()
    }
}

impl<'a> View for RemoteServerHello<'a> {
    type V = ServerHelloView;

    open spec fn view(&self) -> ServerHelloView {
        ServerHelloView {
            random: self.random@,
            session_id: self.session_id@,
            cipher_suite: self.cipher_suite,
            extensions: views(held(self.extensions)),
        }
    }
}

/// What stands at the front of `s` when the body of a ServerHello is
/// expected: version, random and session id, two bytes of cipher suite, one
/// byte of compression method, which must be zero, and a block of
/// extensions. The extensions are those of a HelloRetryRequest where the
/// random marks one, and those of a ServerHello otherwise. Gives the message
/// and the number of bytes it takes, or
/// - the error of the part up to the session id,
/// - `InvalidCipherSuite` where the cipher suite is cut short or not known,
/// - a decode error where the compression method is missing,
/// - a fatal `illegal_parameter` where the compression method is not zero,
/// - the error of the extension block.
pub open spec fn spec_parse_server_hello(s: Seq<u8>) -> Result<(ServerHelloView, nat), TlsError> {
    match spec_parse_session_id(s) {
        Err(e) => Err(e),
        Ok((session_id, n)) => {
            let t = s.skip(n as int);
            match CipherSuite::spec_parse(t) {
                Err(_) => Err(TlsError::InvalidCipherSuite),
                Ok((cipher_suite, _)) => if t.len() < 3 {
                    Err(TlsError::DecodeError)
                } else if t[2] != 0 {
                    Err(illegal_parameter())
                } else {
                    let random = s.subrange(2, 34);
                    let m = if random == hello_retry_random() {
                        MessageKind::HelloRetryRequest
                    } else {
                        MessageKind::ServerHello
                    };
                    match spec_parse_vector(t.skip(3), m, SERVER_HELLO_EXTENSIONS as nat) {
                        Err(e) => Err(e),
                        Ok((extensions, k)) => Ok(
                            (
                                ServerHelloView { random, session_id, cipher_suite, extensions },
                                n + 3 + k,
                            ),
                        ),
                    }
                },
            }
        },
    }
}

/// The key share that the first `key_share` extension among `extensions`
/// carries, if there is one.
pub open spec fn first_key_share(extensions: Seq<ExtensionView>) -> Option<(NamedGroup, Seq<u8>)>
    decreases extensions.len(),
{
    if extensions.len() == 0 {
        None
    } else {
        match extensions[0] {
            ExtensionView::KeyShare(entry) => Some(entry),
            _ => first_key_share(extensions.skip(1)),
        }
    }
}

impl<'a> RemoteServerHello<'a> {
    /// Reads the body of a ServerHello.
    pub fn parse(buf: &mut ParseBuffer<'a>) -> (r: Result<RemoteServerHello<'a>, TlsError>)
        ensures
            old(buf).wf(),
            final(buf).wf(),
            final(buf).bytes() == old(buf).bytes(),
            match spec_parse_server_hello(old(buf).unread()) {
                Ok((v, n)) => r matches Ok(x) && x@ == v
                    && final(buf).position() == old(buf).position() + n,
                Err(e) => r matches Err(f) && f == e,
            },
    {
        let ghost s = buf.unread();
        let start = buf.offset();
        let session_id = match parse_session_id(buf) {
            Ok(sub) => sub.as_slice(),
            Err(e) => {
                return Err(e);
            },
        };
        let end = buf.offset();
        assert(start + 35 <= end);
        let random = slice_subrange(buf.as_slice(), start + 2, start + 34);
        assert(random@ =~= s.subrange(2, 34));
        let ghost n = 35 + session_id@.len() as int;
        assert(buf.unread() =~= s.skip(n));
        let cipher_suite = match CipherSuite::parse(buf) {
            Ok(suite) => suite,
            Err(_) => {
                return Err(TlsError::InvalidCipherSuite);
            },
        };
        assert(buf.unread() =~= s.skip(n).skip(2));
        // the compression method: none but zero can be chosen
        match buf.read_u8() {
            Ok(method) => {
                if method != 0 {
                    return Err(
                        TlsError::AbortHandshake(
                            AlertLevel::Fatal,
                            AlertDescription::IllegalParameter,
                        ),
                    );
                }
            },
            Err(_) => {
                return Err(TlsError::DecodeError);
            },
        }
        assert(buf.unread() =~= s.skip(n).skip(3));
        let message = if is_hello_retry_random(random) {
            MessageKind::HelloRetryRequest
        } else {
            MessageKind::ServerHello
        };
        match parse_vector(buf, message, SERVER_HELLO_EXTENSIONS) {
            Ok(extensions) => Ok(
                RemoteServerHello { random, session_id, cipher_suite, extensions },
            ),
            Err(e) => Err(e),
        }
    }

    /// Holds the cipher suite that the server selected against the suites
    /// that the client offered: a suite that was not offered is fatal.
    pub fn check_cipher_suite(&self, offered: &[CipherSuite]) -> (r: Result<(), TlsError>)
        ensures
            r is Ok <==> offered@.contains(self.cipher_suite),
            r matches Err(e) ==> e == illegal_parameter(),
    {
        let mut i: usize = 0;
        while i < offered.len()
            invariant
                i <= offered@.len(),
                forall|k: int| 0 <= k < i ==> offered@[k] != self.cipher_suite,
            decreases offered@.len() - i,
        {
            if offered[i] == self.cipher_suite {
                return Ok(());
            }
            i = i + 1;
        }
        Err(TlsError::AbortHandshake(AlertLevel::Fatal, AlertDescription::IllegalParameter))
    }

    /// Whether the message is a HelloRetryRequest.
    pub fn is_hello_retry_request(&self) -> (r: bool)
        ensures
            r == self@.is_hello_retry_request(),
    {
        is_hello_retry_random(self.random)
    }

    /// The key share that the server selected: that of the first
    /// `key_share` extension, if there is one.
    pub fn key_share(&self) -> (r: Option<&KeyShareEntry<'a>>)
        ensures
            match first_key_share(self@.extensions) {
                Some(entry) => r matches Some(e) && e@ == entry,
                None => r is None,
            },
    {
        let all = extensions(&self.extensions);
        let n = all.len();
        let mut i: usize = 0;
        assert(views(all@).skip(0) =~= views(all@));
        while i < n
            invariant
                i <= n,
                n == all@.len(),
                all@ == held(self.extensions),
                first_key_share(self@.extensions) == first_key_share(views(all@).skip(i as int)),
            decreases n - i,
        {
            assert(views(all@).skip(i as int)[0] == all@[i as int]@);
            assert(views(all@).skip(i as int).skip(1) =~= views(all@).skip(i + 1));
            if let Extension::KeyShare(entry) = &all[i] {
                return Some(&entry.0);
            }
            i = i + 1;
        }
        None
    }

    /// The secret shared with the server: Diffie-Hellman on `secret` and
    /// the server's key share. There is none where the server sent no key
    /// share or one that is no point of the curve.
    pub fn calculate_shared_secret(&self, secret: &EphemeralSecret) -> (r: Option<SharedSecret>)
        ensures
            match first_key_share(self@.extensions) {
                Some(entry) => match p256_shared_secret(secret@, entry.1) {
                    Some(k) => r matches Some(x) && x@ == k,
                    None => r is None,
                },
                None => r is None,
            },
    {
        match self.key_share() {
            Some(server_key_share) => agree(secret, server_key_share.opaque),
            None => None,
        }
    }

    /// The key agreement with the server: the group of the server's key
    /// share and the secret shared with it. There is none where there is no
    /// shared secret.
    pub fn initialize_crypto_engine(&self, secret: &EphemeralSecret) -> (r: Option<CryptoEngine>)
        ensures
            match first_key_share(self@.extensions) {
                Some(entry) => match p256_shared_secret(secret@, entry.1) {
                    Some(k) => r matches Some(x) && x.group == entry.0 && x.shared@ == k,
                    None => r is None,
                },
                None => r is None,
            },
    {
        match self.key_share() {
            Some(server_key_share) => {
                let group = server_key_share.group;
                match agree(secret, server_key_share.opaque) {
                    Some(shared) => Some(CryptoEngine::new(group, shared)),
                    None => None,
                }
            },
            None => None,
        }
    }
}

/// A ClientHello as a server receives it.
pub struct RemoteClientHello<'a> {
    pub random: &'a [u8],
    pub session_id: &'a [u8],
    pub cipher_suites: &'a [u8],
    pub extensions: heapless::Vec<Extension<'a>, 8>,
}

/// What a ClientHello holds, as values. The cipher suites are the numbers
/// offered, known or not.
pub struct ClientHelloView {
    pub random: Seq<u8>,
    pub session_id: Seq<u8>,
    pub cipher_suites: Seq<u16>,
    pub extensions: Seq<ExtensionView>,
}

/// The numbers that `raw` spells two bytes at a time, in order. A last byte
/// without a partner is left out.
pub open spec fn suite_codes(raw: Seq<u8>) -> Seq<u16> {
    Seq::new(raw.len() / 2, |i: int| u16_from_be(raw.skip(2 * i)))
}

impl<'a> View for RemoteClientHello<'a> {
    type V = ClientHelloView;

    open spec fn view(&self) -> ClientHelloView {
        ClientHelloView {
            random: self.random@,
            session_id: self.session_id@,
            cipher_suites: suite_codes(self.cipher_suites@),
            extensions: views(held(self.extensions)),
        }
    }
}

/// What stands at the front of `s` when the body of a ClientHello is
/// expected: version, random and session id, the cipher suites behind a
/// two-byte length, the compression methods behind a one-byte length, which
/// are passed over, and a block of extensions. Gives the message and the
/// number of bytes it takes, or
/// - the error of the part up to the session id,
/// - `InvalidCipherSuite` where the cipher suites are cut short or odd in
///   length,
/// - `InvalidHandshake` where the compression methods are cut short,
/// - the error of the extension block.
pub open spec fn spec_parse_client_hello(s: Seq<u8>) -> Result<(ClientHelloView, nat), TlsError> {
    match spec_parse_session_id(s) {
        Err(e) => Err(e),
        Ok((session_id, n)) => {
            let t = s.skip(n as int);
            if t.len() < 2 || u16_from_be(t) % 2 != 0 || t.len() < 2 + u16_from_be(t) {
                Err(TlsError::InvalidCipherSuite)
            } else {
                let c = u16_from_be(t) as int;
                let u = t.skip(2 + c);
                if u.len() < 1 || u.len() < 1 + u[0] {
                    Err(TlsError::InvalidHandshake)
                } else {
                    match spec_parse_vector(
                        u.skip(1 + u[0]),
                        MessageKind::ClientHello,
                        CLIENT_HELLO_EXTENSIONS as nat,
                    ) {
                        Err(e) => Err(e),
                        Ok((extensions, k)) => Ok(
                            (
                                ClientHelloView {
                                    random: s.subrange(2, 34),
                                    session_id,
                                    cipher_suites: suite_codes(t.subrange(2, 2 + c)),
                                    extensions,
                                },
                                (n + 2 + c + 1 + u[0] + k) as nat,
                            ),
                        ),
                    }
                }
            }
        },
    }
}

/// The bytes that spell the cipher suites in the body `s` of a ClientHello:
/// what stands behind the two-byte length that follows the session id, as
/// far as that length says.
pub open spec fn spec_suite_bytes(s: Seq<u8>) -> Seq<u8> {
    match spec_parse_session_id(s) {
        Ok((_, n)) => {
            let t = s.skip(n as int);
            t.subrange(2, 2 + u16_from_be(t))
        },
        Err(_) => Seq::empty(),
    }
}

impl<'a> RemoteClientHello<'a> {
    /// Reads the body of a ClientHello. The cipher suites are kept as the
    /// bytes that spell them, an even number of them.
    pub fn parse(buf: &mut ParseBuffer<'a>) -> (r: Result<Self, TlsError>)
        ensures
            old(buf).wf(),
            final(buf).wf(),
            final(buf).bytes() == old(buf).bytes(),
            match spec_parse_client_hello(old(buf).unread()) {
                Ok((v, n)) => r matches Ok(x) && x@ == v
                    && final(buf).position() == old(buf).position() + n,
                Err(e) => r matches Err(f) && f == e,
            },
            r matches Ok(x) ==> x.cipher_suites@ == spec_suite_bytes(old(buf).unread())
                && x.cipher_suites@.len() % 2 == 0,
    {
        let ghost s = buf.unread();
        let start = buf.offset();
        let session_id = match parse_session_id(buf) {
            Ok(sub) => sub.as_slice(),
            Err(e) => {
                return Err(e);
            },
        };
        let end = buf.offset();
        assert(start + 35 <= end);
        let random = slice_subrange(buf.as_slice(), start + 2, start + 34);
        assert(random@ =~= s.subrange(2, 34));
        let ghost n = 35 + session_id@.len() as int;
        let ghost t = s.skip(n);
        assert(buf.unread() =~= t);
        let cipher_suites_len = match buf.read_u16() {
            Ok(v) => v as usize,
            Err(_) => {
                return Err(TlsError::InvalidCipherSuite);
            },
        };
        if cipher_suites_len % 2 != 0 {
            return Err(TlsError::InvalidCipherSuite);
        }
        let cipher_suites = match buf.slice(cipher_suites_len) {
            Ok(sub) => sub.as_slice(),
            Err(_) => {
                return Err(TlsError::InvalidCipherSuite);
            },
        };
        assert(cipher_suites@ =~= t.subrange(2, 2 + cipher_suites_len));
        let ghost u = t.skip(2 + cipher_suites_len);
        assert(buf.unread() =~= u);
        // the compression methods are passed over: TLS 1.3 does not use them
        let compression_len = match buf.read_u8() {
            Ok(v) => v as usize,
            Err(_) => {
                return Err(TlsError::InvalidHandshake);
            },
        };
        match buf.slice(compression_len) {
            Ok(_) => {},
            Err(_) => {
                return Err(TlsError::InvalidHandshake);
            },
        }
        assert(buf.unread() =~= u.skip(1 + compression_len));
        match parse_vector(buf, MessageKind::ClientHello, CLIENT_HELLO_EXTENSIONS) {
            Ok(extensions) => Ok(
                RemoteClientHello { random, session_id, cipher_suites, extensions },
            ),
            Err(e) => Err(e),
        }
    }

    /// A cursor over the cipher suites that the client offers, in its order
    /// of preference.
    pub fn cipher_suites(&self) -> (r: CipherSuiteIter<'a>)
        ensures
            r@ == self@.cipher_suites,
    {
        let r = CipherSuiteIter { raw: self.cipher_suites, pos: 0 };
        assert(r@ =~= self@.cipher_suites);
        r
    }
}

/// A cursor over the cipher suites of a ClientHello. Its view is the
/// numbers still to come.
pub struct CipherSuiteIter<'a> {
    raw: &'a [u8],
    pos: usize,
}

impl<'a> View for CipherSuiteIter<'a> {
    type V = Seq<u16>;

    closed spec fn view(&self) -> Seq<u16> {
        if self.pos <= self.raw@.len() {
            suite_codes(self.raw@.skip(self.pos as int))
        } else {
            Seq::empty()
        }
    }
}

impl<'a> CipherSuiteIter<'a> {
    /// The next cipher suite that the client offers, or `InvalidCipherSuite`
    /// where the next number stands for no suite that is known, or `None`
    /// when no number is left.
    pub fn next(&mut self) -> (r: Option<Result<CipherSuite, TlsError>>)
        ensures
            match r {
                Some(x) => {
                    &&& old(self)@.len() > 0
                    &&& final(self)@ == old(self)@.skip(1)
                    &&& match CipherSuite::spec_of(old(self)@[0]) {
                        Some(suite) => x == Ok::<CipherSuite, TlsError>(suite),
                        None => x == Err::<CipherSuite, TlsError>(TlsError::InvalidCipherSuite),
                    }
                },
                None => old(self)@.len() == 0 && final(self)@.len() == 0,
            },
    {
        let n = self.raw.len();
        if self.pos > n || n - self.pos < 2 {
            return None;
        }
        let ghost rest = self.raw@.skip(self.pos as int);
        let code = (self.raw[self.pos] as u16) * 256 + (self.raw[self.pos + 1] as u16);
        self.pos = self.pos + 2;
        proof {
            let after = self.raw@.skip(self.pos as int);
            assert(after =~= rest.skip(2));
            assert(code == u16_from_be(rest.skip(0)));
            assert forall|i: int| 0 <= i < suite_codes(after).len() implies suite_codes(after)[i]
                == suite_codes(rest).skip(1)[i] by {
                assert(after.skip(2 * i) =~= rest.skip(2 * (i + 1)));
            }
            assert(suite_codes(after) =~= suite_codes(rest).skip(1));
        }
        match CipherSuite::of(code) {
            Some(suite) => Some(Ok(suite)),
            None => Some(Err(TlsError::InvalidCipherSuite)),
        }
    }
}

} // verus!
