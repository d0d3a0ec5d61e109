//! The ClientHello as a client sends it: how it is encoded, and how its
//! binders are filled in and the message is fed to the transcript.

use vstd::prelude::*;
use vstd::slice::slice_subrange;
use vstd::string::StringSliceAdditionalSpecFns;
use crate::TlsError;
use crate::big_endian::u16_from_be;
use crate::buffer::CryptoBuffer;
use crate::config::TlsConfig;
use crate::extensions::ExtensionType;
use crate::extensions::extension_data::key_share::KeyShareEntry;
use crate::extensions::extension_data::max_fragment_length::MaxFragmentLength;
use crate::extensions::extension_data::pre_shared_key::{
    lemma_parse_of_wire_psk_offer, placeholder_binders, placeholder_bytes, Binders,
    PreSharedKeyClientHello, PskIdentityList,
};
use crate::extensions::extension_data::psk_key_exchange_modes::{
    PskKeyExchangeMode, PskKeyExchangeModes,
};
use crate::extensions::extension_data::server_name::{
    valid_hostname, NameType, ServerName, ServerNameList,
};
use crate::extensions::extension_data::signature_algorithms::{
    SignatureAlgorithms, SignatureScheme,
};
use crate::extensions::extension_data::supported_groups::{NamedGroup, SupportedGroups};
use crate::extensions::extension_data::supported_versions::{
    tls13, ProtocolVersion, SupportedVersionsClientHello,
};
use crate::extensions::messages::{
    lemma_written_extension_is_first, prepend, spec_parse_body, spec_parse_extensions,
    spec_parse_vector, wire_extension, ExtensionView, LocalExtension, MessageKind,
};
use crate::handshake::remote_hello::{
    spec_parse_client_hello, spec_parse_session_id, suite_codes, ClientHelloView,
    CLIENT_HELLO_EXTENSIONS,
};
use crate::key_schedule::{spec_psk_binder, WriteKeySchedule};
use crate::parse_encode::{
    encode_list_u16, encoded, lemma_parse_of_wire_list, list_encodable, views, wire_list,
    wire_opaque_u16, Both, DynIterList, Encode, Local, WireFormat,
};
use crate::transcript::{Transcript, HASH_LEN};

verus! {

/// The most identities of a pre-shared key that a ClientHello offers.
pub const MAX_PSK_IDENTITIES: usize = 4;

/// The bytes that one binder takes in the message: its length and the MAC.
pub const BINDER_SLOT: usize = 33;

/// A ClientHello to send.
#[derive(Debug, Clone, Copy)]
pub struct ClientHello<'config> {
    pub config: &'config TlsConfig<'config>,
    /// The random of the hello, drawn by the caller.
    pub random: [u8; 32],
    /// The legacy session id, a fresh value drawn by the caller.
    pub session_id: [u8; 32],
    /// The public key to offer for P-256, in SEC1 encoding.
    pub public_key: &'config [u8],
}

/// The lengths of `n` binders: each is the length of a hash.
pub open spec fn binder_lengths(n: nat) -> Seq<u8> {
    Seq::new(n, |i: int| HASH_LEN as u8)
}

impl<'config> ClientHello<'config> {
    /// The hello for the configuration `config` with the given random,
    /// session id and public key.
    pub fn new(
        config: &'config TlsConfig<'config>,
        random: [u8; 32],
        session_id: [u8; 32],
        public_key: &'config [u8],
    ) -> (r: Self)
        ensures
            r == (ClientHello { config, random, session_id, public_key }),
    {
        ClientHello { config, random, session_id, public_key }
    }

    /// The fixed part of the body, before the extensions: the legacy
    /// version, the random, the session id behind its length, the one
    /// cipher suite offered behind the length of the list, and the one
    /// compression method behind the length of the list.
    #[verifier::opaque]
    pub open spec fn head(self) -> Seq<u8> {
        seq![0x03u8, 0x03] + self.random@ + seq![32u8] + self.session_id@ + seq![
            0x00u8,
            0x02,
            0x13,
            0x01,
            0x01,
            0x00,
        ]
    }

    /// The `supported_versions` extension: TLS 1.3 alone.
    pub open spec fn versions_part(self) -> Seq<u8> {
        wire_extension(ExtensionType::SupportedVersions, wire_list(seq![tls13()], 1))
    }

    /// The `signature_algorithms` extension.
    pub open spec fn signatures_part(self) -> Seq<u8> {
        wire_extension(
            ExtensionType::SignatureAlgorithms,
            wire_list(self.config.signature_schemes@, 2),
        )
    }

    /// The `max_fragment_length` extension, where a limit is configured.
    pub open spec fn fragment_part(self) -> Seq<u8> {
        match self.config.max_fragment_length {
            Some(limit) => wire_extension(ExtensionType::MaxFragmentLength, limit.wire()),
            None => Seq::empty(),
        }
    }

    /// The `supported_groups` extension.
    pub open spec fn groups_part(self) -> Seq<u8> {
        wire_extension(ExtensionType::SupportedGroups, wire_list(self.config.named_groups@, 2))
    }

    /// The `psk_key_exchange_modes` extension: a pre-shared key is used
    /// together with a Diffie-Hellman exchange only.
    pub open spec fn modes_part(self) -> Seq<u8> {
        wire_extension(
            ExtensionType::PskKeyExchangeModes,
            wire_list(seq![PskKeyExchangeMode::PskDheKe], 1),
        )
    }

    /// The `key_share` extension: the public key for P-256.
    pub open spec fn key_share_part(self) -> Seq<u8> {
        wire_extension(
            ExtensionType::KeyShare,
            wire_list(
                seq![KeyShareEntry { group: NamedGroup::Secp256r1, opaque: self.public_key }],
                2,
            ),
        )
    }

    /// The `server_name` extension, where a host is configured.
    pub open spec fn server_name_part(self) -> Seq<u8> {
        match self.config.server_name {
            Some(name) => wire_extension(
                ExtensionType::ServerName,
                wire_list(seq![ServerName { name_type: NameType::HostName, name }], 2),
            ),
            None => Seq::empty(),
        }
    }

    /// The body of the `pre_shared_key` extension: the identities, and room
    /// for a binder for each.
    pub open spec fn psk_body(self) -> Seq<u8> {
        wire_list(self.config.psk_identities@, 2) + wire_opaque_u16(
            placeholder_bytes(binder_lengths(self.config.psk_identities@.len())),
        )
    }

    /// The `pre_shared_key` extension, where a pre-shared key is configured.
    /// It is the last extension.
    pub open spec fn psk_part(self) -> Seq<u8> {
        if self.config.psk_identities@.len() > 0 {
            wire_extension(ExtensionType::PreSharedKey, self.psk_body())
        } else {
            Seq::empty()
        }
    }

    /// The extensions of the hello, one after the other.
    #[verifier::opaque]
    pub open spec fn extensions_wire(self) -> Seq<u8> {
        self.versions_part() + (self.signatures_part() + (self.fragment_part() + (
        self.groups_part() + (self.modes_part() + (self.key_share_part() + (
        self.server_name_part() + self.psk_part()))))))
    }

    /// The key share that the hello offers: the public key for P-256.
    pub open spec fn key_share(self) -> KeyShareEntry<'config> {
        KeyShareEntry { group: NamedGroup::Secp256r1, opaque: self.public_key }
    }

    /// Whether every extension of the hello can be written: every item can
    /// be written, every list fits its length and every body fits the
    /// two-byte length of its extension, and no more identities are offered
    /// than [`MAX_PSK_IDENTITIES`].
    #[verifier::opaque]
    pub open spec fn extensions_encodable(self) -> bool {
        &&& body_fits(
            list_encodable(self.config.signature_schemes@, 2),
            wire_list(self.config.signature_schemes@, 2),
        )
        &&& body_fits(
            list_encodable(self.config.named_groups@, 2),
            wire_list(self.config.named_groups@, 2),
        )
        &&& body_fits(
            list_encodable(seq![self.key_share()], 2),
            wire_list(seq![self.key_share()], 2),
        )
        &&& match self.config.server_name {
            Some(name) => body_fits(
                list_encodable(seq![ServerName { name_type: NameType::HostName, name }], 2),
                wire_list(seq![ServerName { name_type: NameType::HostName, name }], 2),
            ),
            None => true,
        }
        &&& self.config.psk_identities@.len() <= MAX_PSK_IDENTITIES
        &&& self.config.psk_identities@.len() > 0 ==> body_fits(
            list_encodable(self.config.psk_identities@, 2) && placeholder_bytes(
                binder_lengths(self.config.psk_identities@.len()),
            ).len() <= 0xffff,
            self.psk_body(),
        )
    }

    /// The body of the hello as it is written: the fixed part, then the
    /// extensions behind a two-byte length.
    pub open spec fn body_wire(self) -> Seq<u8> {
        self.head() + wire_opaque_u16(self.extensions_wire())
    }

    /// Whether the hello can be written.
    pub open spec fn body_encodable(self) -> bool {
        self.extensions_encodable() && self.extensions_wire().len() <= 0xffff
    }
}

/// Whether the body of an extension can be written in its extension: the
/// body itself can be written, and it fits the two-byte length.
pub open spec fn body_fits(encodable: bool, wire: Seq<u8>) -> bool {
    encodable && wire.len() <= 0xffff
}

/// The extensions of a ClientHello, as the body of their length-prefixed
/// region.
pub struct ClientHelloExtensions<'c, 'config>(pub &'c ClientHello<'config>);

impl<'c, 'config> Encode for ClientHelloExtensions<'c, 'config> {
    open spec fn wire(&self) -> Seq<u8> {
        self.0.extensions_wire()
    }

    open spec fn encodable(&self) -> bool {
        self.0.extensions_encodable()
    }

    #[verifier::rlimit(30)]
    fn encode(self, buf: &mut CryptoBuffer) -> (r: Result<(), TlsError>) {
        reveal(ClientHello::extensions_wire);
        reveal(ClientHello::extensions_encodable);
        let hello = self.0;
        let config = hello.config;
        let n = config.psk_identities.len();
        if n > MAX_PSK_IDENTITIES {
            let _ = buf.len();
            return Err(TlsError::EncodeError);
        }
        let versions: [ProtocolVersion; 1] = [tls13()];
        let modes: [PskKeyExchangeMode; 1] = [PskKeyExchangeMode::PskDheKe];
        let shares: [KeyShareEntry; 1] = [
            KeyShareEntry { group: NamedGroup::Secp256r1, opaque: hello.public_key },
        ];
        let all: [u8; 4] = [32, 32, 32, 32];
        let lens = slice_subrange(&all, 0, n);
        let names: [ServerName; 1] = [
            ServerName::hostname(
                match config.server_name {
                    Some(name) => name,
                    None => "",
                },
            ),
        ];
        proof {
            assert(versions@ =~= seq![tls13()]);
            assert(modes@ =~= seq![PskKeyExchangeMode::PskDheKe]);
            assert(shares@ =~= seq![hello.key_share()]);
            assert(lens@ =~= binder_lengths(n as nat)) by {
                assert forall|i: int| 0 <= i < n implies lens@[i] == 32u8 by {
                    assert(lens@[i] == all@[i]);
                }
            }
            lemma_single_item(tls13());
            lemma_single_item(PskKeyExchangeMode::PskDheKe);
            assert(versions@[0] == tls13());
            if config.server_name is Some {
                assert(names@ =~= seq![
                    ServerName { name_type: NameType::HostName, name: config.server_name->Some_0 },
                ]);
            }
        }
        let e1 = LocalExtension(
            ExtensionType::SupportedVersions,
            SupportedVersionsClientHello::new(&versions),
        );
        let e2 = LocalExtension(
            ExtensionType::SignatureAlgorithms,
            SignatureAlgorithms::new(config.signature_schemes),
        );
        let e3 = match config.max_fragment_length {
            Some(limit) => Some(LocalExtension(ExtensionType::MaxFragmentLength, limit)),
            None => None,
        };
        let e4 = LocalExtension(
            ExtensionType::SupportedGroups,
            SupportedGroups::new(config.named_groups),
        );
        let e5 = LocalExtension(
            ExtensionType::PskKeyExchangeModes,
            PskKeyExchangeModes::new(&modes),
        );
        let e6 = LocalExtension(ExtensionType::KeyShare, KeyShareList(&shares));
        let e7 = match config.server_name {
            Some(_) => Some(LocalExtension(ExtensionType::ServerName, ServerNameList::new(&names))),
            None => None,
        };
        // the pre-shared key must be the last extension
        let e8 = if n > 0 {
            Some(
                LocalExtension(
                    ExtensionType::PreSharedKey,
                    PskOffer { identities: config.psk_identities, binder_lengths: lens },
                ),
            )
        } else {
            None
        };
        proof {
            assert(e1.wire() == hello.versions_part());
            assert(e1.encodable());
            assert(e2.wire() == hello.signatures_part());
            assert(e3.wire() == hello.fragment_part());
            assert(e3.encodable());
            assert(e4.wire() == hello.groups_part());
            assert(e5.wire() == hello.modes_part());
            assert(e5.encodable());
            assert(e6.wire() == hello.key_share_part());
            assert(e7.wire() == hello.server_name_part());
            assert(e8.wire() == hello.psk_part());
        }
        let body = Both(e1, Both(e2, Both(e3, Both(e4, Both(e5, Both(e6, Both(e7, e8)))))));
        assert(body.wire() == self.wire());
        assert(body.encodable() == self.encodable());
        body.encode(buf)
    }
}

/// The bytes of a list of one item are the bytes of the item, and the list
/// can be written when the item can.
proof fn lemma_single_item<U: Encode>(item: U)
    ensures
        crate::parse_encode::wire_items(seq![item]) == item.wire(),
        crate::parse_encode::items_encodable(seq![item]) == item.encodable(),
{
    let one = seq![item];
    assert(one.skip(1).len() == 0);
    assert(crate::parse_encode::wire_items(one.skip(1)) =~= Seq::<u8>::empty());
    assert(crate::parse_encode::wire_items(one) =~= item.wire());
    assert(one[0] == item);
}

/// Key shares to offer, as the body of their extension: the entries behind
/// a two-byte length.
pub struct KeyShareList<'a>(pub &'a [KeyShareEntry<'a>]);

impl<'a> Encode for KeyShareList<'a> {
    open spec fn wire(&self) -> Seq<u8> {
        wire_list(self.0@, 2)
    }

    open spec fn encodable(&self) -> bool {
        list_encodable(self.0@, 2)
    }

    fn encode(self, buf: &mut CryptoBuffer) -> (r: Result<(), TlsError>) {
        encode_list_u16(DynIterList::new(self.0), buf)
    }
}

/// An offer of pre-shared keys, as the body of its extension: the
/// identities, and room for binders of the given lengths.
pub struct PskOffer<'a> {
    pub identities: &'a [crate::extensions::extension_data::pre_shared_key::PskIdentity<'a>],
    pub binder_lengths: &'a [u8],
}

impl<'a> Encode for PskOffer<'a> {
    open spec fn wire(&self) -> Seq<u8> {
        wire_list(self.identities@, 2) + wire_opaque_u16(placeholder_bytes(self.binder_lengths@))
    }

    open spec fn encodable(&self) -> bool {
        &&& list_encodable(self.identities@, 2)
        &&& placeholder_bytes(self.binder_lengths@).len() <= 0xffff
    }

    fn encode(self, buf: &mut CryptoBuffer) -> (r: Result<(), TlsError>) {
        let offer: PreSharedKeyClientHello<'a, Local> = PreSharedKeyClientHello {
            identities: PskIdentityList::new(self.identities),
            binders: Binders::placeholders(self.binder_lengths),
        };
        offer.encode(buf)
    }
}

/// `n` binders as they stand in the message, each the MAC `binder` behind
/// its length.
pub open spec fn binder_slots(n: nat, binder: Seq<u8>) -> Seq<u8>
    decreases n,
{
    if n == 0 {
        Seq::empty()
    } else {
        binder_slots((n - 1) as nat, binder) + seq![HASH_LEN as u8] + binder
    }
}

/// What finalizing does to an encoded ClientHello `message` that offers `n`
/// identities, when the transcript holds `transcript` and the binder key is
/// `key`: the message with its binders filled in. Without identities the
/// message stands as it is. With identities, the binders are the last `33 *
/// n` bytes of the message; each is the binder for the transcript followed
/// by the message up to the first binder. A message too short to hold the
/// binders, and a missing binder key, are errors.
pub open spec fn spec_finalize(
    message: Seq<u8>,
    n: nat,
    transcript: Seq<u8>,
    key: Option<Seq<u8>>,
) -> Result<Seq<u8>, TlsError> {
    if n == 0 {
        Ok(message)
    } else if message.len() < n * BINDER_SLOT || key is None {
        Err(TlsError::EncodeError)
    } else {
        let prefix = message.take(message.len() - n * BINDER_SLOT);
        Ok(prefix + binder_slots(n, spec_psk_binder(key->Some_0, transcript + prefix)))
    }
}

impl<'config> ClientHello<'config> {
    /// The fixed part of the body.
    fn fixed_part(&self) -> (head: [u8; 73])
        ensures
            head@ == self.head(),
    {
        let mut head: [u8; 73] = [0u8; 73];
        head[0] = 0x03;
        head[1] = 0x03;
        let mut i: usize = 0;
        while i < 32
            invariant
                i <= 32,
                head@[0] == 0x03,
                head@[1] == 0x03,
                forall|k: int| 0 <= k < i ==> head@[2 + k] == self.random@[k],
                forall|k: int| 0 <= k < i ==> head@[35 + k] == self.session_id@[k],
            decreases 32 - i,
        {
            head[2 + i] = self.random[i];
            head[35 + i] = self.session_id[i];
            i = i + 1;
        }
        // a session id of 32 bytes, for the sake of middleboxes
        head[34] = 32;
        // one cipher suite, TLS_AES_128_GCM_SHA256
        head[67] = 0x00;
        head[68] = 0x02;
        head[69] = 0x13;
        head[70] = 0x01;
        // one compression method, none
        head[71] = 0x01;
        head[72] = 0x00;
        reveal(ClientHello::head);
        assert(head@ =~= self.head());
        head
    }

    /// Writes the body of the hello. Where a pre-shared key is offered, room
    /// is left for the binders, which are the end of what is written.
    pub fn encode(&self, buf: &mut CryptoBuffer) -> (r: Result<(), TlsError>)
        ensures
            encoded(*old(buf), *final(buf), r, self.body_encodable(), self.body_wire()),
    {
        let mark = buf.len();
        let head = self.fixed_part();
        match buf.extend_from_slice(&head) {
            Ok(_) => {},
            Err(e) => {
                return Err(e);
            },
        }
        let ghost extensions = self.extensions_wire();
        match buf.push_u16_prefixed(ClientHelloExtensions(self)) {
            Ok(_) => {
                assert(buf@ =~= old(buf)@ + (self.head() + wire_opaque_u16(extensions)));
                Ok(())
            },
            Err(e) => {
                buf.truncate(mark);
                assert(buf@ =~= old(buf)@);
                Err(e)
            },
        }
    }

    /// Completes the encoded hello in `buf`, which holds the whole handshake
    /// message, and feeds it to the transcript. With a pre-shared key the
    /// message up to the binders is fed first, the binders are computed
    /// from the transcript as it then stands and written into the room left
    /// for them, and the binders are fed last. On failure nothing changes.
    #[verifier::rlimit(30)]
    pub fn finalize(
        &self,
        buf: &mut CryptoBuffer,
        transcript: &mut Transcript,
        write_key_schedule: &mut WriteKeySchedule,
    ) -> (r: Result<(), TlsError>)
        ensures
            final(buf).capacity() == old(buf).capacity(),
            final(write_key_schedule).binder_key() == old(write_key_schedule).binder_key(),
            final(write_key_schedule).sequence_number()
                == old(write_key_schedule).sequence_number(),
            final(write_key_schedule).traffic_secret() == old(write_key_schedule).traffic_secret(),
            match spec_finalize(
                old(buf)@,
                self.config.psk_identities@.len(),
                old(transcript)@,
                old(write_key_schedule).binder_key(),
            ) {
                Ok(message) => r is Ok && final(buf)@ == message
                    && final(transcript)@ == old(transcript)@ + message,
                Err(e) => r matches Err(f) && f == e && final(buf)@ == old(buf)@
                    && final(transcript)@ == old(transcript)@,
            },
    {
        let n = self.config.psk_identities.len();
        let total = buf.len();
        if n == 0 {
            transcript.update(buf.as_slice());
            return Ok(());
        }
        if n > total / BINDER_SLOT || !write_key_schedule.has_binder_key() {
            return Err(TlsError::EncodeError);
        }
        let pos = total - n * BINDER_SLOT;
        let ghost message = buf@;
        let ghost prefix = message.take(pos as int);
        // the transcript up to the binders is what the binders sign
        transcript.update(slice_subrange(buf.as_slice(), 0, pos));
        let binder = match write_key_schedule.create_psk_binder(transcript) {
            Some(binder) => binder,
            None => {
                return Err(TlsError::EncodeError);
            },
        };
        let mut slot: [u8; 33] = [0u8; 33];
        slot[0] = 32;
        let mut k: usize = 0;
        while k < 32
            invariant
                k <= 32,
                slot@[0] == 32,
                forall|j: int| 0 <= j < k ==> slot@[1 + j] == binder@[j],
            decreases 32 - k,
        {
            slot[1 + k] = binder[k];
            k = k + 1;
        }
        assert(slot@ =~= seq![HASH_LEN as u8] + binder@);
        let mut i: usize = 0;
        assert(buf@ =~= prefix + binder_slots(0, binder@) + message.skip(pos as int));
        while i < n
            invariant
                i <= n,
                n * BINDER_SLOT <= total,
                pos == total - n * BINDER_SLOT,
                total == message.len(),
                prefix == message.take(pos as int),
                buf.capacity() == old(buf).capacity(),
                slot@ == seq![HASH_LEN as u8] + binder@,
                buf@ == prefix + binder_slots(i as nat, binder@) + message.skip(
                    pos + i * BINDER_SLOT,
                ),
                binder_slots(i as nat, binder@).len() == i * BINDER_SLOT,
            decreases n - i,
        {
            let ghost before = buf@;
            let at = pos + i * BINDER_SLOT;
            let _ = buf.overwrite(at, &slot);
            assert(buf@ =~= prefix + binder_slots((i + 1) as nat, binder@) + message.skip(
                pos + (i + 1) * BINDER_SLOT,
            )) by {
                assert(before.take(at as int) =~= prefix + binder_slots(i as nat, binder@));
                assert(before.skip(at + 33) =~= message.skip(pos + (i + 1) * BINDER_SLOT));
            }
            i = i + 1;
        }
        assert(buf@ =~= prefix + binder_slots(n as nat, binder@));
        transcript.update(slice_subrange(buf.as_slice(), pos, total));
        assert(transcript@ =~= old(transcript)@ + buf@);
        Ok(())
    }
}

impl<'config> Encode for ClientHello<'config> {
    open spec fn wire(&self) -> Seq<u8> {
        self.body_wire()
    }

    open spec fn encodable(&self) -> bool {
        self.body_encodable()
    }

    fn encode(self, buf: &mut CryptoBuffer) -> (r: Result<(), TlsError>) {
        ClientHello::encode(&self, buf)
    }
}

impl<'config> ClientHello<'config> {
    /// The extensions of the hello as a server reads them, in the order in
    /// which they are written. The binders of an offer of pre-shared keys
    /// are the zero bytes of the room left for them.
    #[verifier::opaque]
    pub open spec fn extension_views(self) -> Seq<ExtensionView> {
        self.versions_view() + (self.signatures_view() + (self.fragment_view() + (
        self.groups_view() + (self.modes_view() + (self.key_share_view() + (
        self.server_name_view() + self.psk_view()))))))
    }

    /// The `supported_versions` extension as it is read.
    pub open spec fn versions_view(self) -> Seq<ExtensionView> {
        seq![ExtensionView::SupportedVersions(seq![tls13()])]
    }

    /// The `signature_algorithms` extension as it is read.
    pub open spec fn signatures_view(self) -> Seq<ExtensionView> {
        seq![ExtensionView::SignatureAlgorithms(self.config.signature_schemes@)]
    }

    /// The `max_fragment_length` extension as it is read, where there is one.
    pub open spec fn fragment_view(self) -> Seq<ExtensionView> {
        match self.config.max_fragment_length {
            Some(limit) => seq![ExtensionView::MaxFragmentLength(limit)],
            None => Seq::empty(),
        }
    }

    /// The `supported_groups` extension as it is read.
    pub open spec fn groups_view(self) -> Seq<ExtensionView> {
        seq![ExtensionView::SupportedGroups(self.config.named_groups@)]
    }

    /// The `psk_key_exchange_modes` extension as it is read.
    pub open spec fn modes_view(self) -> Seq<ExtensionView> {
        seq![ExtensionView::PskKeyExchangeModes(seq![PskKeyExchangeMode::PskDheKe])]
    }

    /// The `key_share` extension as it is read.
    pub open spec fn key_share_view(self) -> Seq<ExtensionView> {
        seq![ExtensionView::KeyShares(seq![(NamedGroup::Secp256r1, self.public_key@)])]
    }

    /// The `server_name` extension as it is read, where there is one.
    pub open spec fn server_name_view(self) -> Seq<ExtensionView> {
        match self.config.server_name {
            Some(name) => seq![
                ExtensionView::ServerName(seq![(NameType::HostName, name.spec_bytes())]),
            ],
            None => Seq::empty(),
        }
    }

    /// Whether the server that the hello names, where it names one, is
    /// named by a host name: in ASCII, without a dot at the end.
    pub open spec fn names_a_host(self) -> bool {
        match self.config.server_name {
            Some(name) => valid_hostname(name.spec_bytes()),
            None => true,
        }
    }

    /// The `pre_shared_key` extension as it is read, where there is one:
    /// the binders are the zero bytes of the room left for them.
    pub open spec fn psk_view(self) -> Seq<ExtensionView> {
        if self.config.psk_identities@.len() > 0 {
            seq![
                ExtensionView::PreSharedKey(
                    views(self.config.psk_identities@),
                    placeholder_binders(binder_lengths(self.config.psk_identities@.len())),
                ),
            ]
        } else {
            Seq::empty()
        }
    }
}

/// The extensions of the message `m` that stand in `rest` when there is
/// room for `room`, behind the extensions `first`.
pub open spec fn behind(first: Seq<ExtensionView>, rest: Seq<u8>, room: nat) -> Result<
    Seq<ExtensionView>,
    TlsError,
> {
    if first.len() <= room {
        prepend(
            first,
            spec_parse_extensions(rest, MessageKind::ClientHello, (room - first.len()) as nat),
        )
    } else {
        Err(TlsError::DecodeError)
    }
}

/// A block that starts with the `supported_versions` extension of a hello
/// holds the versions, then the extensions of what comes behind.
proof fn lemma_versions_part(hello: ClientHello, rest: Seq<u8>, room: nat)
    requires
        room > 0,
    ensures
        spec_parse_extensions(hello.versions_part() + rest, MessageKind::ClientHello, room)
            == behind(hello.versions_view(), rest, room),
{
    reveal(spec_parse_body);
    let versions = seq![tls13()];
    let body = wire_list(versions, 1);
    lemma_single_item(tls13());
    assert(versions[0] == tls13());
    lemma_parse_of_wire_list::<ProtocolVersion>(versions, 1, Seq::empty());
    assert(body + Seq::<u8>::empty() =~= body);
    assert(views(versions) =~= versions);
    lemma_written_extension_is_first(
        ExtensionType::SupportedVersions,
        body,
        rest,
        MessageKind::ClientHello,
        room,
    );
}

/// A block that starts with the `signature_algorithms` extension of a hello
/// holds the schemes, then the extensions of what comes behind.
proof fn lemma_signatures_part(hello: ClientHello, rest: Seq<u8>, room: nat)
    requires
        room > 0,
        hello.extensions_encodable(),
    ensures
        spec_parse_extensions(hello.signatures_part() + rest, MessageKind::ClientHello, room)
            == behind(hello.signatures_view(), rest, room),
{
    reveal(ClientHello::extensions_encodable);
    reveal(spec_parse_body);
    let schemes = hello.config.signature_schemes@;
    let body = wire_list(schemes, 2);
    lemma_parse_of_wire_list::<SignatureScheme>(schemes, 2, Seq::empty());
    assert(body + Seq::<u8>::empty() =~= body);
    assert(views(schemes) =~= schemes);
    lemma_written_extension_is_first(
        ExtensionType::SignatureAlgorithms,
        body,
        rest,
        MessageKind::ClientHello,
        room,
    );
}

/// A block that starts with the `max_fragment_length` extension of a hello,
/// where it has one, holds the limit, then the extensions of what comes
/// behind.
proof fn lemma_fragment_part(hello: ClientHello, rest: Seq<u8>, room: nat)
    requires
        room > 0,
    ensures
        spec_parse_extensions(hello.fragment_part() + rest, MessageKind::ClientHello, room)
            == behind(hello.fragment_view(), rest, room),
{
    reveal(spec_parse_body);
    match hello.config.max_fragment_length {
        Some(limit) => {
            MaxFragmentLength::lemma_parse_of_wire(limit, Seq::empty());
            assert(limit.wire() + Seq::<u8>::empty() =~= limit.wire());
            lemma_written_extension_is_first(
                ExtensionType::MaxFragmentLength,
                limit.wire(),
                rest,
                MessageKind::ClientHello,
                room,
            );
        },
        None => {
            lemma_nothing_in_front(rest, room);
            assert(hello.fragment_part() + rest =~= rest);
        },
    }
}

/// A block that starts with the `supported_groups` extension of a hello
/// holds the groups, then the extensions of what comes behind.
proof fn lemma_groups_part(hello: ClientHello, rest: Seq<u8>, room: nat)
    requires
        room > 0,
        hello.extensions_encodable(),
    ensures
        spec_parse_extensions(hello.groups_part() + rest, MessageKind::ClientHello, room)
            == behind(hello.groups_view(), rest, room),
{
    reveal(ClientHello::extensions_encodable);
    reveal(spec_parse_body);
    let groups = hello.config.named_groups@;
    let body = wire_list(groups, 2);
    lemma_parse_of_wire_list::<NamedGroup>(groups, 2, Seq::empty());
    assert(body + Seq::<u8>::empty() =~= body);
    assert(views(groups) =~= groups);
    lemma_written_extension_is_first(
        ExtensionType::SupportedGroups,
        body,
        rest,
        MessageKind::ClientHello,
        room,
    );
}

/// A block that starts with the `psk_key_exchange_modes` extension of a
/// hello holds the one mode, then the extensions of what comes behind.
proof fn lemma_modes_part(hello: ClientHello, rest: Seq<u8>, room: nat)
    requires
        room > 0,
    ensures
        spec_parse_extensions(hello.modes_part() + rest, MessageKind::ClientHello, room) == behind(
            hello.modes_view(),
            rest,
            room,
        ),
{
    reveal(spec_parse_body);
    let modes = seq![PskKeyExchangeMode::PskDheKe];
    let body = wire_list(modes, 1);
    lemma_single_item(PskKeyExchangeMode::PskDheKe);
    lemma_parse_of_wire_list::<PskKeyExchangeMode>(modes, 1, Seq::empty());
    assert(body + Seq::<u8>::empty() =~= body);
    assert(views(modes) =~= modes);
    lemma_written_extension_is_first(
        ExtensionType::PskKeyExchangeModes,
        body,
        rest,
        MessageKind::ClientHello,
        room,
    );
}

/// A block that starts with the `key_share` extension of a hello holds the
/// one key share, then the extensions of what comes behind.
proof fn lemma_key_share_part(hello: ClientHello, rest: Seq<u8>, room: nat)
    requires
        room > 0,
        hello.extensions_encodable(),
    ensures
        spec_parse_extensions(hello.key_share_part() + rest, MessageKind::ClientHello, room)
            == behind(hello.key_share_view(), rest, room),
{
    reveal(ClientHello::extensions_encodable);
    reveal(spec_parse_body);
    let shares = seq![hello.key_share()];
    let body = wire_list(shares, 2);
    lemma_parse_of_wire_list::<KeyShareEntry>(shares, 2, Seq::empty());
    assert(body + Seq::<u8>::empty() =~= body);
    assert(views(shares) =~= seq![(NamedGroup::Secp256r1, hello.public_key@)]);
    lemma_written_extension_is_first(
        ExtensionType::KeyShare,
        body,
        rest,
        MessageKind::ClientHello,
        room,
    );
}

/// A block that starts with the `server_name` extension of a hello, where
/// it has one, holds the name, then the extensions of what comes behind.
proof fn lemma_server_name_part(hello: ClientHello, rest: Seq<u8>, room: nat)
    requires
        room > 0,
        hello.extensions_encodable(),
        hello.names_a_host(),
    ensures
        spec_parse_extensions(hello.server_name_part() + rest, MessageKind::ClientHello, room)
            == behind(hello.server_name_view(), rest, room),
{
    reveal(ClientHello::extensions_encodable);
    reveal(spec_parse_body);
    match hello.config.server_name {
        Some(name) => {
            let names = seq![ServerName { name_type: NameType::HostName, name }];
            let body = wire_list(names, 2);
            lemma_parse_of_wire_list::<ServerName>(names, 2, Seq::empty());
            assert(body + Seq::<u8>::empty() =~= body);
            assert(views(names) =~= seq![(NameType::HostName, name.spec_bytes())]);
            lemma_written_extension_is_first(
                ExtensionType::ServerName,
                body,
                rest,
                MessageKind::ClientHello,
                room,
            );
        },
        None => {
            lemma_nothing_in_front(rest, room);
            assert(hello.server_name_part() + rest =~= rest);
        },
    }
}

/// A block that starts with the `pre_shared_key` extension of a hello,
/// where it has one, holds the identities and binders of zero bytes, then
/// the extensions of what comes behind.
proof fn lemma_psk_part(hello: ClientHello, rest: Seq<u8>, room: nat)
    requires
        room > 0,
        hello.extensions_encodable(),
    ensures
        spec_parse_extensions(hello.psk_part() + rest, MessageKind::ClientHello, room) == behind(
            hello.psk_view(),
            rest,
            room,
        ),
{
    reveal(ClientHello::extensions_encodable);
    reveal(spec_parse_body);
    let ids = hello.config.psk_identities@;
    if ids.len() > 0 {
        lemma_parse_of_wire_psk_offer(ids, binder_lengths(ids.len()), Seq::empty());
        assert(hello.psk_body() + Seq::<u8>::empty() =~= hello.psk_body());
        lemma_written_extension_is_first(
            ExtensionType::PreSharedKey,
            hello.psk_body(),
            rest,
            MessageKind::ClientHello,
            room,
        );
    } else {
        lemma_nothing_in_front(rest, room);
        assert(hello.psk_part() + rest =~= rest);
    }
}

/// No extensions in front of a block change nothing.
proof fn lemma_nothing_in_front(rest: Seq<u8>, room: nat)
    ensures
        behind(Seq::empty(), rest, room) == spec_parse_extensions(
            rest,
            MessageKind::ClientHello,
            room,
        ),
{
    let r = spec_parse_extensions(rest, MessageKind::ClientHello, room);
    if r is Ok {
        assert(Seq::<ExtensionView>::empty() + r->Ok_0 =~= r->Ok_0);
    }
}

/// Where a part of a block holds the extensions `found`, of which there
/// are `n`, and what comes behind holds the extensions `more` with the room
/// that is left, the block holds `found + more`.
proof fn lemma_part_then_rest(
    part: Seq<u8>,
    found: Seq<ExtensionView>,
    rest: Seq<u8>,
    more: Seq<ExtensionView>,
    room: nat,
)
    requires
        found.len() <= room,
        spec_parse_extensions(part + rest, MessageKind::ClientHello, room) == behind(
            found,
            rest,
            room,
        ),
        spec_parse_extensions(rest, MessageKind::ClientHello, (room - found.len()) as nat) == Ok::<
            Seq<ExtensionView>,
            TlsError,
        >(more),
    ensures
        spec_parse_extensions(part + rest, MessageKind::ClientHello, room) == Ok::<
            Seq<ExtensionView>,
            TlsError,
        >(found + more),
{
}

/// What a server finds in the extensions written for a ClientHello: the
/// extensions of the hello, each as it was written.
#[verifier::rlimit(30)]
pub proof fn lemma_parse_of_wire_extensions(hello: ClientHello)
    requires
        hello.extensions_encodable(),
        hello.names_a_host(),
    ensures
        spec_parse_extensions(
            hello.extensions_wire(),
            MessageKind::ClientHello,
            CLIENT_HELLO_EXTENSIONS as nat,
        ) == Ok::<Seq<ExtensionView>, TlsError>(hello.extension_views()),
{
    let none = Seq::<u8>::empty();
    let w8 = hello.psk_part();
    let w7 = hello.server_name_part() + w8;
    let w6 = hello.key_share_part() + w7;
    let w5 = hello.modes_part() + w6;
    let w4 = hello.groups_part() + w5;
    let w3 = hello.fragment_part() + w4;
    let w2 = hello.signatures_part() + w3;
    let t8 = hello.psk_view();
    let t7 = hello.server_name_view() + t8;
    let t6 = hello.key_share_view() + t7;
    let t5 = hello.modes_view() + t6;
    let t4 = hello.groups_view() + t5;
    let t3 = hello.fragment_view() + t4;
    let t2 = hello.signatures_view() + t3;
    let r2: nat = 7;
    let r3: nat = 6;
    let r4: nat = (r3 - hello.fragment_view().len()) as nat;
    let r5: nat = (r4 - 1) as nat;
    let r6: nat = (r5 - 1) as nat;
    let r7: nat = (r6 - 1) as nat;
    let r8: nat = (r7 - hello.server_name_view().len()) as nat;
    assert(r8 >= 1);
    assert(spec_parse_extensions(w8, MessageKind::ClientHello, r8) == Ok::<
        Seq<ExtensionView>,
        TlsError,
    >(t8)) by {
        lemma_psk_part(hello, none, r8);
        assert(hello.psk_part() + none =~= w8);
        assert(t8 + Seq::<ExtensionView>::empty() =~= t8);
    }
    assert(spec_parse_extensions(w7, MessageKind::ClientHello, r7) == Ok::<
        Seq<ExtensionView>,
        TlsError,
    >(t7)) by {
        lemma_server_name_part(hello, w8, r7);
        lemma_part_then_rest(hello.server_name_part(), hello.server_name_view(), w8, t8, r7);
    }
    assert(spec_parse_extensions(w6, MessageKind::ClientHello, r6) == Ok::<
        Seq<ExtensionView>,
        TlsError,
    >(t6)) by {
        lemma_key_share_part(hello, w7, r6);
        lemma_part_then_rest(hello.key_share_part(), hello.key_share_view(), w7, t7, r6);
    }
    assert(spec_parse_extensions(w5, MessageKind::ClientHello, r5) == Ok::<
        Seq<ExtensionView>,
        TlsError,
    >(t5)) by {
        lemma_modes_part(hello, w6, r5);
        lemma_part_then_rest(hello.modes_part(), hello.modes_view(), w6, t6, r5);
    }
    assert(spec_parse_extensions(w4, MessageKind::ClientHello, r4) == Ok::<
        Seq<ExtensionView>,
        TlsError,
    >(t4)) by {
        lemma_groups_part(hello, w5, r4);
        lemma_part_then_rest(hello.groups_part(), hello.groups_view(), w5, t5, r4);
    }
    assert(spec_parse_extensions(w3, MessageKind::ClientHello, r3) == Ok::<
        Seq<ExtensionView>,
        TlsError,
    >(t3)) by {
        lemma_fragment_part(hello, w4, r3);
        lemma_part_then_rest(hello.fragment_part(), hello.fragment_view(), w4, t4, r3);
    }
    assert(spec_parse_extensions(w2, MessageKind::ClientHello, r2) == Ok::<
        Seq<ExtensionView>,
        TlsError,
    >(t2)) by {
        lemma_signatures_part(hello, w3, r2);
        lemma_part_then_rest(hello.signatures_part(), hello.signatures_view(), w3, t3, r2);
    }
    lemma_versions_part(hello, w2, 8);
    lemma_part_then_rest(hello.versions_part(), hello.versions_view(), w2, t2, 8);
    reveal(ClientHello::extensions_wire);
    reveal(ClientHello::extension_views);
}

/// The fixed part of a hello, byte by byte.
proof fn lemma_head(hello: ClientHello)
    ensures
        hello.head().len() == 73,
        hello.head().subrange(2, 34) == hello.random@,
        hello.head()[34] == 32,
        hello.head().subrange(35, 67) == hello.session_id@,
        hello.head().subrange(67, 73) == seq![0x00u8, 0x02, 0x13, 0x01, 0x01, 0x00],
{
    reveal(ClientHello::head);
    let h = hello.head();
    assert(hello.random@.len() == 32);
    assert(hello.session_id@.len() == 32);
    assert(h.subrange(2, 34) =~= hello.random@);
    assert(h.subrange(35, 67) =~= hello.session_id@);
    assert(h.subrange(67, 73) =~= seq![0x00u8, 0x02, 0x13, 0x01, 0x01, 0x00]);
}

/// Parsing what was written for a ClientHello gives the hello back,
/// whatever follows it: its random, its session id, the one cipher suite
/// that it offers, and its extensions. This holds for a hello that names
/// no server or names it by a host name.
#[verifier::rlimit(30)]
pub proof fn lemma_parse_of_wire_client_hello(hello: ClientHello, rest: Seq<u8>)
    requires
        hello.body_encodable(),
        hello.names_a_host(),
    ensures
        spec_parse_client_hello(hello.body_wire() + rest) == Ok::<(ClientHelloView, nat), TlsError>(
            (
                ClientHelloView {
                    random: hello.random@,
                    session_id: hello.session_id@,
                    cipher_suites: seq![0x1301u16],
                    extensions: hello.extension_views(),
                },
                hello.body_wire().len(),
            ),
        ),
{
    let head = hello.head();
    let ext = hello.extensions_wire();
    let block = wire_opaque_u16(ext) + rest;
    let s = hello.body_wire() + rest;
    lemma_head(hello);
    assert(s == head + block) by {
        assert(s =~= head + block);
    }
    assert forall|i: int| 0 <= i < 73 implies s[i] == head[i] by {}
    assert(s.subrange(2, 34) == hello.random@) by {
        assert(s.subrange(2, 34) =~= head.subrange(2, 34));
    }
    assert(s.subrange(35, 67) == hello.session_id@) by {
        assert(s.subrange(35, 67) =~= head.subrange(35, 67));
    }
    assert(s[34] == 32);
    assert(spec_parse_session_id(s) == Ok::<(Seq<u8>, nat), TlsError>((hello.session_id@, 67)));
    let t = s.skip(67);
    assert(t.take(6) == seq![0x00u8, 0x02, 0x13, 0x01, 0x01, 0x00]) by {
        assert(t.take(6) =~= head.subrange(67, 73));
    }
    assert(t[0] == 0x00 && t[1] == 0x02 && t[2] == 0x13 && t[3] == 0x01 && t[4] == 0x01 && t[5]
        == 0x00) by {
        assert(t[0] == t.take(6)[0] && t[1] == t.take(6)[1] && t[2] == t.take(6)[2] && t[3]
            == t.take(6)[3] && t[4] == t.take(6)[4] && t[5] == t.take(6)[5]);
    }
    assert(u16_from_be(t) == 2);
    let suites = t.subrange(2, 4);
    assert(suite_codes(suites) == seq![0x1301u16]) by {
        assert(suites.skip(0) =~= suites);
        assert(suites[0] == 0x13 && suites[1] == 0x01);
        assert(suite_codes(suites) =~= seq![0x1301u16]);
    }
    let u = t.skip(4);
    assert(u[0] == 1 && u[1] == 0);
    assert(u.skip(2) == block) by {
        assert(u.skip(2) =~= block);
    }
    assert(spec_parse_vector(block, MessageKind::ClientHello, CLIENT_HELLO_EXTENSIONS as nat)
        == Ok::<(Seq<ExtensionView>, nat), TlsError>((hello.extension_views(), 2 + ext.len()))) by {
        crate::big_endian::lemma_u16_read_of_written(ext.len() as u16, ext + rest);
        assert(block =~= crate::big_endian::u16_to_be(ext.len() as u16) + (ext + rest));
        assert(block.subrange(2, 2 + ext.len() as int) =~= ext);
        lemma_parse_of_wire_extensions(hello);
    }
    assert(hello.body_wire().len() == 73 + 2 + ext.len()) by {
        crate::big_endian::lemma_u16_read_of_written(ext.len() as u16, ext);
    }
}

} // verus!
