//! The `pre_shared_key` extension: the identities that a client offers with
//! a binder for each, and the identity that the server selects.

use vstd::prelude::*;
use crate::TlsError;
use crate::big_endian::{
    lemma_u16_read_of_written, lemma_u16_written_of_read, lemma_u32_read_of_written,
    lemma_u32_written_of_read, u16_to_be, u32_from_be, u32_to_be,
};
use crate::buffer::CryptoBuffer;
use crate::parse_buffer::{ParseBuffer, ParseError};
use crate::parse_encode::{
    encode_list_u16, encode_opaque_u16, encoded, items_error, items_of, lemma_parse_of_wire_list,
    lemma_parse_of_wire_opaque_u16, lemma_wire_of_parsed_opaque_u16, list_encodable, parse_list_u16,
    parse_opaque_u16, spec_parse_list, spec_parse_opaque_u16, views, wire_list, wire_opaque_u16,
    DynIterList, Encode, ListIter, Local, Parse, Remote, SliceU8, StorageType, WireFormat,
};

verus! {

/// An identity of a pre-shared key, with the age of its ticket as the client
/// obscures it. Its view is the pair of the identity's bytes and the age.
#[derive(Debug, Clone, Copy, PartialEq, Eq)]
pub struct PskIdentity<'a> {
    pub identity: &'a [u8],
    pub obfuscated_ticket_age: u32,
}

impl<'a> View for PskIdentity<'a> {
    type V = (Seq<u8>, u32);

    open spec fn view(&self) -> (Seq<u8>, u32) {
        (self.identity@, self.obfuscated_ticket_age)
    }
}

impl<'a> PskIdentity<'a> {
    /// An identity that was established outside the protocol: its ticket age
    /// is zero.
    pub fn external(identity: &'a [u8]) -> (r: Self)
        ensures
            r@ == (identity@, 0u32),
    {
        PskIdentity { identity, obfuscated_ticket_age: 0 }
    }
}

impl<'a> Parse<'a> for PskIdentity<'a> {
    /// The identity behind its two-byte length, then the age as four bytes.
    open spec fn spec_parse(s: Seq<u8>) -> Result<((Seq<u8>, u32), nat), ParseError> {
        match spec_parse_opaque_u16(s) {
            Ok((identity, n)) => if s.len() < n + 4 {
                Err(ParseError::InsufficientSpace)
            } else {
                Ok(((identity, u32_from_be(s.skip(n as int))), n + 4))
            },
            Err(e) => Err(e),
        }
    }

    fn parse(buf: &mut ParseBuffer<'a>) -> (r: Result<Self, ParseError>) {
        let identity = match parse_opaque_u16(buf) {
            Ok(identity) => identity,
            Err(e) => {
                return Err(e);
            },
        };
        assert(buf.unread() =~= old(buf).unread().skip(2 + identity@.len() as int));
        match buf.read_u32() {
            Ok(obfuscated_ticket_age) => Ok(PskIdentity { identity, obfuscated_ticket_age }),
            Err(e) => Err(e),
        }
    }
}

impl<'a> Encode for PskIdentity<'a> {
    open spec fn wire(&self) -> Seq<u8> {
        wire_opaque_u16(self.identity@) + u32_to_be(self.obfuscated_ticket_age)
    }

    open spec fn encodable(&self) -> bool {
        self.identity@.len() <= 0xffff
    }

    fn encode(self, buf: &mut CryptoBuffer) -> (r: Result<(), TlsError>) {
        let mark = buf.len();
        match encode_opaque_u16(self.identity, buf) {
            Ok(_) => {},
            Err(e) => {
                return Err(e);
            },
        }
        match buf.push_u32(self.obfuscated_ticket_age) {
            Ok(_) => {
                assert(buf@ =~= old(buf)@ + self.wire());
                Ok(())
            },
            Err(e) => {
                buf.truncate(mark);
                assert(buf@ =~= old(buf)@);
                Err(e)
            },
        }
    }
}

impl<'a> WireFormat<'a> for PskIdentity<'a> {
    open spec fn well_formed(&self) -> bool {
        true
    }

    proof fn lemma_parse_of_wire(x: Self, rest: Seq<u8>) {
        let s = x.wire() + rest;
        let id = x.identity@;
        let head = wire_opaque_u16(id);
        let age = u32_to_be(x.obfuscated_ticket_age);
        let tail = age + rest;
        assert(s == head + tail) by {
            assert(s =~= head + tail);
        }
        assert(spec_parse_opaque_u16(s) == Ok::<_, ParseError>((id, 2 + id.len()))) by {
            lemma_parse_of_wire_opaque_u16(id, tail);
        }
        assert(head.len() == 2 + id.len()) by {
            lemma_u16_read_of_written(id.len() as u16, tail);
        }
        assert(s.skip(2 + id.len() as int) == tail) by {
            assert((head + tail).skip(head.len() as int) =~= tail);
        }
        assert(age.len() == 4 && u32_from_be(tail) == x.obfuscated_ticket_age) by {
            lemma_u32_read_of_written(x.obfuscated_ticket_age, rest);
        }
        assert(x.wire().len() == 2 + id.len() + 4);
    }

    proof fn lemma_wire_of_parsed(s: Seq<u8>, x: Self) {
        lemma_wire_of_parsed_opaque_u16(s);
        let n = spec_parse_opaque_u16(s)->Ok_0.1;
        lemma_u32_written_of_read(s.skip(n as int));
        assert(s.take(n as int) + s.skip(n as int).take(4) =~= s.take(n as int + 4));
    }
}

/// The identities that a client offers, behind a two-byte length.
pub struct PskIdentityList<'a, Location: StorageType<'a, PskIdentity<'a>>>(pub Location::ListType);

impl<'a> View for PskIdentityList<'a, Remote> {
    type V = Seq<<PskIdentity<'a> as View>::V>;

    /// The items of the list.
    open spec fn view(&self) -> Self::V {
        self.0@
    }
}

impl<'a> Parse<'a> for PskIdentityList<'a, Remote> {
    open spec fn spec_parse(s: Seq<u8>) -> Result<(Self::V, nat), ParseError> {
        spec_parse_list::<PskIdentity<'a>>(s, 2)
    }

    fn parse(buf: &mut ParseBuffer<'a>) -> (r: Result<Self, ParseError>) {
        match parse_list_u16::<PskIdentity<'a>>(buf) {
            Ok(list) => Ok(PskIdentityList(list)),
            Err(e) => Err(e),
        }
    }
}

impl<'a> Encode for PskIdentityList<'a, Local> {
    open spec fn wire(&self) -> Seq<u8> {
        wire_list(self.0.0@, 2)
    }

    open spec fn encodable(&self) -> bool {
        list_encodable(self.0.0@, 2)
    }

    fn encode(self, buf: &mut CryptoBuffer) -> (r: Result<(), TlsError>) {
        encode_list_u16(self.0, buf)
    }
}

impl<'a> PskIdentityList<'a, Local> {
    /// The list of the items of `items`.
    pub fn new(items: &'a [PskIdentity<'a>]) -> (r: Self)
        ensures
            r.0.0@ == items@,
    {
        PskIdentityList(DynIterList::new(items))
    }
}

impl<'a> PskIdentityList<'a, Remote> {
    /// A cursor over the items, first to last.
    pub fn iter(&self) -> (r: ListIter<'a, PskIdentity<'a>>)
        ensures
            r@ == self@,
    {
        self.0.iter()
    }

    /// The number of items.
    pub fn len(&self) -> (r: usize)
        ensures
            r == self@.len(),
    {
        self.0.len()
    }
}

/// The binders of a pre-shared key offer, one for each identity: received,
/// the binders themselves; to be sent, only the length of each, for which
/// room is left that is filled once the transcript is known.
pub struct Binders<'a, Location: StorageType<'a, u8>>(pub Location::BinderList);

impl<'a> View for Binders<'a, Remote> {
    type V = Seq<Seq<u8>>;

    /// The binders of the list.
    open spec fn view(&self) -> Seq<Seq<u8>> {
        self.0@
    }
}

impl<'a> Parse<'a> for Binders<'a, Remote> {
    /// The binders, each behind a one-byte length, all behind a two-byte length.
    open spec fn spec_parse(s: Seq<u8>) -> Result<(Seq<Seq<u8>>, nat), ParseError> {
        spec_parse_list::<SliceU8>(s, 2)
    }

    fn parse(buf: &mut ParseBuffer<'a>) -> (r: Result<Self, ParseError>) {
        match parse_list_u16::<SliceU8<'a>>(buf) {
            Ok(list) => Ok(Binders(list)),
            Err(e) => Err(e),
        }
    }
}

impl<'a> Binders<'a, Remote> {
    /// A cursor over the binders, first to last.
    pub fn iter(&self) -> (r: ListIter<'a, SliceU8<'a>>)
        ensures
            r@ == self@,
    {
        self.0.iter()
    }

    /// The number of binders.
    pub fn len(&self) -> (r: usize)
        ensures
            r == self@.len(),
    {
        self.0.len()
    }
}

/// `len` zero bytes.
pub open spec fn zeros(len: nat) -> Seq<u8> {
    Seq::new(len, |i: int| 0u8)
}

/// The room left for binders of the lengths `lens`: for each, its length as
/// one byte and that many zero bytes.
pub open spec fn placeholder_bytes(lens: Seq<u8>) -> Seq<u8>
    decreases lens.len(),
{
    if lens.len() == 0 {
        Seq::empty()
    } else {
        placeholder_bytes(lens.drop_last()) + seq![lens.last()] + zeros(lens.last() as nat)
    }
}

/// The room for binders of the given lengths, as the body of their
/// length-prefixed region.
pub struct BinderSlots<'a>(pub &'a [u8]);

impl<'a> Encode for BinderSlots<'a> {
    open spec fn wire(&self) -> Seq<u8> {
        placeholder_bytes(self.0@)
    }

    open spec fn encodable(&self) -> bool {
        true
    }

    fn encode(self, buf: &mut CryptoBuffer) -> (r: Result<(), TlsError>) {
        let mark = buf.len();
        let lens = self.0;
        let n = lens.len();
        let mut i: usize = 0;
        assert(lens@.take(0) =~= Seq::<u8>::empty());
        while i < n
            invariant
                i <= n,
                n == lens@.len(),
                lens == self.0,
                mark == old(buf)@.len(),
                old(buf).wf(),
                buf.wf(),
                buf.capacity() == old(buf).capacity(),
                buf.base() == old(buf).base(),
                buf@ == old(buf)@ + placeholder_bytes(lens@.take(i as int)),
            decreases n - i,
        {
            let len = lens[i];
            proof {
                lemma_placeholder_step(lens@, i as int);
            }
            let ghost start = buf@;
            match buf.push(len) {
                Ok(_) => {},
                Err(e) => {
                    buf.truncate(mark);
                    assert(buf@ =~= old(buf)@);
                    return Err(e);
                },
            }
            let mut j: u8 = 0;
            while j < len
                invariant
                    j <= len,
                    mark == old(buf)@.len(),
                    old(buf).wf(),
                    buf.wf(),
                    buf.capacity() == old(buf).capacity(),
                    buf.base() == old(buf).base(),
                    start == old(buf)@ + placeholder_bytes(lens@.take(i as int)),
                    buf@ == start + seq![len] + zeros(j as nat),
                    0 <= i < n,
                    n == lens@.len(),
                    len == lens@[i as int],
                    lens == self.0,
                    placeholder_bytes(lens@.take(i + 1)) == placeholder_bytes(lens@.take(i as int))
                        + seq![len] + zeros(len as nat),
                    placeholder_bytes(lens@.take(i + 1)).len() <= placeholder_bytes(lens@).len(),
                decreases len - j,
            {
                match buf.push(0) {
                    Ok(_) => {
                        assert(zeros(j as nat).push(0u8) =~= zeros((j + 1) as nat));
                        assert(buf@ =~= start + seq![len] + zeros((j + 1) as nat));
                    },
                    Err(e) => {
                        buf.truncate(mark);
                        assert(buf@ =~= old(buf)@);
                        return Err(e);
                    },
                }
                j = j + 1;
            }
            assert(buf@ =~= old(buf)@ + placeholder_bytes(lens@.take(i + 1)));
            i = i + 1;
        }
        assert(lens@.take(n as int) =~= lens@);
        Ok(())
    }
}

/// The room for the first `k + 1` binders is the room for the first `k`
/// followed by the room for binder `k`, and is no more than the room for all.
proof fn lemma_placeholder_step(lens: Seq<u8>, k: int)
    requires
        0 <= k < lens.len(),
    ensures
        placeholder_bytes(lens.take(k + 1)) == placeholder_bytes(lens.take(k)) + seq![lens[k]]
            + zeros(lens[k] as nat),
        placeholder_bytes(lens.take(k + 1)).len() <= placeholder_bytes(lens).len(),
    decreases lens.len() - k,
{
    assert(lens.take(k + 1).drop_last() =~= lens.take(k));
    if k + 1 < lens.len() {
        lemma_placeholder_step(lens, k + 1);
    } else {
        assert(lens.take(k + 1) =~= lens);
    }
}

impl<'a> Encode for Binders<'a, Local> {
    open spec fn wire(&self) -> Seq<u8> {
        wire_opaque_u16(placeholder_bytes(self.0.0@))
    }

    open spec fn encodable(&self) -> bool {
        placeholder_bytes(self.0.0@).len() <= 0xffff
    }

    fn encode(self, buf: &mut CryptoBuffer) -> (r: Result<(), TlsError>) {
        encode_binder_room(self.0, buf)
    }
}

/// Leaves room for binders of the given lengths, behind a two-byte length.
pub fn encode_binder_room<'a>(lens: DynIterList<'a, u8>, buf: &mut CryptoBuffer) -> (r: Result<
    (),
    TlsError,
>)
    ensures
        encoded(
            *old(buf),
            *final(buf),
            r,
            placeholder_bytes(lens.0@).len() <= 0xffff,
            wire_opaque_u16(placeholder_bytes(lens.0@)),
        ),
{
    let r = buf.push_u16_prefixed(BinderSlots(lens.0));
    assert(r is Ok ==> buf@ =~= old(buf)@ + wire_opaque_u16(placeholder_bytes(lens.0@)));
    r
}

impl<'a> Binders<'a, Local> {
    /// Room for binders of the lengths `lens`.
    pub fn placeholders(lens: &'a [u8]) -> (r: Self)
        ensures
            r.0.0@ == lens@,
    {
        Binders(DynIterList(lens))
    }
}

/// The offer of pre-shared keys in a ClientHello: the identities, and a
/// binder for each of them.
pub struct PreSharedKeyClientHello<
    'a,
    Location: StorageType<'a, PskIdentity<'a>> + StorageType<'a, u8>,
> {
    pub identities: PskIdentityList<'a, Location>,
    /// There must be as many binders as identities. To be sent, they are
    /// room only: the binders are computed once the message is encoded.
    pub binders: Binders<'a, Location>,
}

impl<'a> View for PreSharedKeyClientHello<'a, Remote> {
    type V = (Seq<(Seq<u8>, u32)>, Seq<Seq<u8>>);

    /// The identities and the binders.
    open spec fn view(&self) -> (Seq<(Seq<u8>, u32)>, Seq<Seq<u8>>) {
        (self.identities@, self.binders@)
    }
}

/// What stands at the front of `s` when an offer of pre-shared keys is
/// expected: the list of identities, then the list of binders, each behind a
/// two-byte length. Lists of unequal length are invalid data.
pub open spec fn spec_parse_psk_offer(s: Seq<u8>) -> Result<
    ((Seq<(Seq<u8>, u32)>, Seq<Seq<u8>>), nat),
    ParseError,
> {
    match spec_parse_list::<PskIdentity>(s, 2) {
        Ok((identities, n)) => match spec_parse_list::<SliceU8>(s.skip(n as int), 2) {
            Ok((binders, m)) => if identities.len() == binders.len() {
                Ok(((identities, binders), n + m))
            } else {
                Err(ParseError::InvalidData)
            },
            Err(e) => Err(e),
        },
        Err(e) => Err(e),
    }
}

impl<'a> Parse<'a> for PreSharedKeyClientHello<'a, Remote> {
    open spec fn spec_parse(s: Seq<u8>) -> Result<
        ((Seq<(Seq<u8>, u32)>, Seq<Seq<u8>>), nat),
        ParseError,
    > {
        spec_parse_psk_offer(s)
    }

    fn parse(buf: &mut ParseBuffer<'a>) -> (r: Result<Self, ParseError>) {
        let ghost start = buf.position();
        let identities = match PskIdentityList::<Remote>::parse(buf) {
            Ok(identities) => identities,
            Err(e) => {
                return Err(e);
            },
        };
        assert(buf.unread() =~= old(buf).unread().skip(buf.position() - start));
        let binders = match Binders::<Remote>::parse(buf) {
            Ok(binders) => binders,
            Err(e) => {
                return Err(e);
            },
        };
        if binders.len() == identities.len() {
            Ok(PreSharedKeyClientHello { identities, binders })
        } else {
            Err(ParseError::InvalidData)
        }
    }
}

impl<'a> Encode for PreSharedKeyClientHello<'a, Local> {
    open spec fn wire(&self) -> Seq<u8> {
        wire_list(self.identities.0.0@, 2) + wire_opaque_u16(
            placeholder_bytes(self.binders.0.0@),
        )
    }

    /// Both lists can be written. Whether there is room for as many binders
    /// as there are identities is not looked at.
    open spec fn encodable(&self) -> bool {
        &&& list_encodable(self.identities.0.0@, 2)
        &&& placeholder_bytes(self.binders.0.0@).len() <= 0xffff
    }

    fn encode(self, buf: &mut CryptoBuffer) -> (r: Result<(), TlsError>) {
        let mark = buf.len();
        let PreSharedKeyClientHello { identities, binders } = self;
        match encode_list_u16(identities.0, buf) {
            Ok(_) => {},
            Err(e) => {
                return Err(e);
            },
        }
        match encode_binder_room(binders.0, buf) {
            Ok(_) => {
                assert(buf@ =~= old(buf)@ + self.wire());
                Ok(())
            },
            Err(e) => {
                buf.truncate(mark);
                assert(buf@ =~= old(buf)@);
                Err(e)
            },
        }
    }
}

/// The identity that the server selected, as its index in the client's list.
#[derive(Debug, Clone, Copy, PartialEq, Eq, Structural)]
pub struct PreSharedKeyServerHello {
    pub selected_identity: u16,
}

impl View for PreSharedKeyServerHello {
    type V = u16;

    open spec fn view(&self) -> u16 {
        self.selected_identity
    }
}

impl<'a> Parse<'a> for PreSharedKeyServerHello {
    open spec fn spec_parse(s: Seq<u8>) -> Result<(u16, nat), ParseError> {
        u16::spec_parse(s)
    }

    fn parse(buf: &mut ParseBuffer<'a>) -> (r: Result<Self, ParseError>) {
        match buf.read_u16() {
            Ok(selected_identity) => Ok(PreSharedKeyServerHello { selected_identity }),
            Err(e) => Err(e),
        }
    }
}

impl Encode for PreSharedKeyServerHello {
    open spec fn wire(&self) -> Seq<u8> {
        u16_to_be(self.selected_identity)
    }

    open spec fn encodable(&self) -> bool {
        true
    }

    fn encode(self, buf: &mut CryptoBuffer) -> (r: Result<(), TlsError>) {
        buf.push_u16(self.selected_identity)
    }
}

impl<'a> WireFormat<'a> for PreSharedKeyServerHello {
    open spec fn well_formed(&self) -> bool {
        true
    }

    proof fn lemma_parse_of_wire(x: Self, rest: Seq<u8>) {
        lemma_u16_read_of_written(x.selected_identity, rest);
    }

    proof fn lemma_wire_of_parsed(s: Seq<u8>, x: Self) {
        lemma_u16_written_of_read(s);
    }
}

/// The binders that stand in the room left for binders of the lengths
/// `lens`: for each length, that many zero bytes.
pub open spec fn placeholder_binders(lens: Seq<u8>) -> Seq<Seq<u8>> {
    Seq::new(lens.len(), |i: int| zeros(lens[i] as nat))
}

/// The room for binders starts with the room for the first binder, followed
/// by the room for the others.
proof fn lemma_placeholder_front(lens: Seq<u8>)
    requires
        lens.len() > 0,
    ensures
        placeholder_bytes(lens) == seq![lens[0]] + zeros(lens[0] as nat) + placeholder_bytes(
            lens.skip(1),
        ),
    decreases lens.len(),
{
    if lens.len() == 1 {
        assert(lens.drop_last().len() == 0);
        assert(lens.skip(1).len() == 0);
        assert(placeholder_bytes(lens.drop_last()) =~= Seq::<u8>::empty());
        assert(placeholder_bytes(lens.skip(1)) =~= Seq::<u8>::empty());
        assert(lens.last() == lens[0]);
        assert(placeholder_bytes(lens) =~= seq![lens[0]] + zeros(lens[0] as nat)
            + placeholder_bytes(lens.skip(1)));
    } else {
        let front = lens.drop_last();
        lemma_placeholder_front(front);
        assert(front.skip(1) =~= lens.skip(1).drop_last());
        assert(front[0] == lens[0]);
        assert(lens.skip(1).last() == lens.last());
        assert(placeholder_bytes(lens) =~= seq![lens[0]] + zeros(lens[0] as nat)
            + placeholder_bytes(lens.skip(1)));
    }
}

/// The room left for binders reads as binders: one for each length, of that
/// many zero bytes.
pub proof fn lemma_placeholders_are_binders(lens: Seq<u8>)
    ensures
        items_error::<SliceU8>(placeholder_bytes(lens)) is None,
        items_of::<SliceU8>(placeholder_bytes(lens)) == placeholder_binders(lens),
    decreases lens.len(),
{
    let s = placeholder_bytes(lens);
    if lens.len() == 0 {
        assert(items_of::<SliceU8>(s) =~= placeholder_binders(lens));
    } else {
        lemma_placeholder_front(lens);
        let first = zeros(lens[0] as nat);
        let tail = placeholder_bytes(lens.skip(1));
        assert(s == seq![lens[0]] + first + tail);
        assert(s[0] == lens[0]);
        assert(s.subrange(1, 1 + lens[0]) =~= first);
        assert(s.skip(1 + lens[0]) =~= tail);
        lemma_placeholders_are_binders(lens.skip(1));
        assert(items_of::<SliceU8>(s) =~= seq![first] + placeholder_binders(lens.skip(1)));
        assert(seq![first] + placeholder_binders(lens.skip(1)) =~= placeholder_binders(lens));
    }
}

/// Parsing what was written for an offer of pre-shared keys gives the offer
/// back, whatever follows it: its identities, and for each a binder of zero
/// bytes.
pub proof fn lemma_parse_of_wire_psk_offer(
    identities: Seq<PskIdentity>,
    lens: Seq<u8>,
    rest: Seq<u8>,
)
    requires
        list_encodable(identities, 2),
        placeholder_bytes(lens).len() <= 0xffff,
        identities.len() == lens.len(),
    ensures
        spec_parse_psk_offer(
            wire_list(identities, 2) + wire_opaque_u16(placeholder_bytes(lens)) + rest,
        ) == Ok::<_, ParseError>(
            (
                (views(identities), placeholder_binders(lens)),
                wire_list(identities, 2).len() + 2 + placeholder_bytes(lens).len(),
            ),
        ),
{
    let ids = wire_list(identities, 2);
    let room = placeholder_bytes(lens);
    let tail = wire_opaque_u16(room) + rest;
    let s = ids + wire_opaque_u16(room) + rest;
    assert(s =~= ids + tail);
    lemma_parse_of_wire_list::<PskIdentity>(identities, 2, tail);
    assert(s.skip(ids.len() as int) =~= tail);
    lemma_u16_read_of_written(room.len() as u16, room + rest);
    assert(tail =~= u16_to_be(room.len() as u16) + (room + rest));
    assert(tail.subrange(2, 2 + room.len() as int) =~= room);
    lemma_placeholders_are_binders(lens);
    assert(views(identities).len() == identities.len());
}

/// An offer of pre-shared keys whose two lists both read, and hold different
/// numbers of items, is invalid data.
pub proof fn lemma_unequal_lists_are_invalid(s: Seq<u8>)
    requires
        spec_parse_list::<PskIdentity>(s, 2) is Ok,
        spec_parse_list::<SliceU8>(
            s.skip(spec_parse_list::<PskIdentity>(s, 2)->Ok_0.1 as int),
            2,
        ) is Ok,
        spec_parse_list::<PskIdentity>(s, 2)->Ok_0.0.len() != spec_parse_list::<SliceU8>(
            s.skip(spec_parse_list::<PskIdentity>(s, 2)->Ok_0.1 as int),
            2,
        )->Ok_0.0.len(),
    ensures
        spec_parse_psk_offer(s) == Err::<
            ((Seq<(Seq<u8>, u32)>, Seq<Seq<u8>>), nat),
            ParseError,
        >(ParseError::InvalidData),
{
}

} // verus!
