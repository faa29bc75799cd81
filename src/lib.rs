//! A zero-copy codec for STUN messages (RFC 5389, with the attributes of
//! RFC 5766 and RFC 5245 / 8445).
use vstd::prelude::*;

pub mod addr;
pub mod attr;
pub mod attrs;
pub mod wire;

use crate::attr::{AttrView, IntegrityView, StunAttr, StunAttrDecodeErr, StunAttrValue};
use crate::attrs::{
    StunAttrsIter,
    echoes, echoes_back, lemma_list_len_aligned, list_ctx, lemma_list_wire_len, lemma_parse_list, list_len, list_wire, parse_attrs,
    StunAttrs,
};
use crate::wire::{be16, be32, lemma_u16_round_trip, lemma_u32_round_trip, read_u16, read_u32, slice_as_array, u16_of, u32_of, write_bytes, write_u16};

verus! {

/// Why a message could not be decoded.
#[derive(Debug, Clone, Copy, PartialEq, Eq, Structural)]
pub enum StunDecodeErr {
    PacketTooSmall,
    TypeOutOfRange,
    UnalignedLength,
    BadMagic,
    AttrErr(StunAttrDecodeErr),
}

/// A message's class and its 12-bit method.
#[derive(Debug, Clone, Copy, PartialEq, Eq, Structural)]
pub enum StunTyp {
    Req(u16),
    Ind(u16),
    Res(u16),
    Error(u16),
}

/// The class bits of the 14-bit type field.
pub open spec fn class_bits(t: StunTyp) -> u16 {
    match t {
        StunTyp::Req(_) => 0x0000,
        StunTyp::Ind(_) => 0x0010,
        StunTyp::Res(_) => 0x0100,
        StunTyp::Error(_) => 0x0110,
    }
}

/// The method bits spread over the type field around the class bits.
pub open spec fn spread_method(m: u16) -> u16 {
    (m & 0x000F) | ((m & 0x0070) << 1u16) | ((m & 0x0F80) << 2u16)
}

/// The method gathered from the type field.
pub open spec fn gather_method(v: u16) -> u16 {
    (v & 0x000F) | ((v & 0x00E0) >> 1u16) | ((v & 0x3E00) >> 2u16)
}

/// What a 16-bit type field decodes to.
pub open spec fn typ_of(v: u16) -> Result<StunTyp, StunDecodeErr> {
    if v >= 0x4000 {
        Err(StunDecodeErr::TypeOutOfRange)
    } else {
        let m = gather_method(v);
        let c = v & 0x0110;
        if c == 0x0000 {
            Ok(StunTyp::Req(m))
        } else if c == 0x0010 {
            Ok(StunTyp::Ind(m))
        } else if c == 0x0100 {
            Ok(StunTyp::Res(m))
        } else {
            Ok(StunTyp::Error(m))
        }
    }
}

impl StunTyp {
    pub open spec fn spec_method(self) -> u16 {
        match self {
            StunTyp::Req(m) => m,
            StunTyp::Ind(m) => m,
            StunTyp::Res(m) => m,
            StunTyp::Error(m) => m,
        }
    }

    /// The 16-bit type field; method bits above the twelfth are dropped.
    pub open spec fn value(self) -> u16 {
        spread_method(self.spec_method()) | class_bits(self)
    }

    pub fn method(&self) -> (r: u16)
        ensures
            r == self.spec_method(),
    {
        match self {
            StunTyp::Req(m) => *m,
            StunTyp::Ind(m) => *m,
            StunTyp::Res(m) => *m,
            StunTyp::Error(m) => *m,
        }
    }

    /// Decodes the big-endian type field.
    pub fn try_from(value: [u8; 2]) -> (r: Result<StunTyp, StunDecodeErr>)
        ensures
            r == typ_of(crate::wire::u16_of(value[0], value[1])),
    {
        let value: u16 = ((value[0] as u16) << 8u16) | (value[1] as u16);
        if value >= 0x4000 {
            return Err(StunDecodeErr::TypeOutOfRange);
        }
        let method = (value & 0x000F) | ((value & 0x00E0) >> 1u16) | ((value & 0x3E00) >> 2u16);
        let c = value & 0x0110;
        if c == 0x0000 {
            Ok(StunTyp::Req(method))
        } else if c == 0x0010 {
            Ok(StunTyp::Ind(method))
        } else if c == 0x0100 {
            Ok(StunTyp::Res(method))
        } else {
            Ok(StunTyp::Error(method))
        }
    }

    /// The big-endian type field.
    pub fn to_bytes(&self) -> (r: [u8; 2])
        ensures
            r@ == crate::wire::be16(self.value()),
    {
        let (class, method): (u16, u16) = match self {
            StunTyp::Req(m) => (0x0000, *m),
            StunTyp::Ind(m) => (0x0010, *m),
            StunTyp::Res(m) => (0x0100, *m),
            StunTyp::Error(m) => (0x0110, *m),
        };
        let ret = (method & 0x000F) | ((method & 0x0070) << 1u16) | ((method & 0x0F80) << 2u16)
            | class;
        let r = [(ret >> 8u16) as u8, ret as u8];
        assert(r@ =~= crate::wire::be16(self.value()));
        r
    }
}

/// Packing a class and a method of twelve bits into the type field and
/// unpacking it gives back the same class and method.
pub proof fn lemma_typ_round_trip(t: StunTyp)
    requires
        t.spec_method() < 4096,
    ensures
        typ_of(t.value()) == Ok::<StunTyp, StunDecodeErr>(t),
{
    let m = t.spec_method();
    let c = class_bits(t);
    let v = t.value();
    assert(v < 0x4000 && gather_method(v) == m && (v & 0x0110) == c) by (bit_vector)
        requires
            m < 4096,
            c == 0 || c == 0x10 || c == 0x100 || c == 0x110,
            v == ((m & 0x000F) | ((m & 0x0070) << 1u16) | ((m & 0x0F80) << 2u16)) | c,
    ;
}

/// Every type field below 0x4000 is the packing of the class and method it
/// decodes to.
pub proof fn lemma_typ_bit_exact(v: u16)
    requires
        v < 0x4000,
    ensures
        typ_of(v) matches Ok(t) && t.value() == v && t.spec_method() < 4096,
{
    let m = gather_method(v);
    let c = v & 0x0110;
    assert(m < 4096 && (spread_method(m) | c) == v) by (bit_vector)
        requires
            v < 0x4000,
            m == (v & 0x000F) | ((v & 0x00E0) >> 1u16) | ((v & 0x3E00) >> 2u16),
            c == v & 0x0110,
    ;
    assert(c == 0 || c == 0x10 || c == 0x100 || c == 0x110) by (bit_vector)
        requires
            c == v & 0x0110,
    ;
}

/// The magic cookie at offset 4 of every message.
pub const MAGIC_COOKIE: u32 = 0x2112A442;

/// Why a message could not be encoded.
#[derive(Debug, Clone, Copy, PartialEq, Eq, Structural)]
pub enum StunEncodeErr {
    /// The attributes do not fit the 16-bit length field.
    TooLong,
    /// The output buffer is shorter than the message.
    BufferTooSmall,
}

/// What a message says: its type, its transaction id, its attributes.
pub struct StunView {
    pub typ: StunTyp,
    pub txid: Seq<u8>,
    pub attrs: Seq<AttrView>,
}

/// Prepends attributes to the result of a walk.
pub open spec fn prepend(done: Seq<AttrView>, r: Result<Seq<AttrView>, StunAttrDecodeErr>) -> Result<
    Seq<AttrView>,
    StunAttrDecodeErr,
> {
    match r {
        Ok(rest) => Ok(done + rest),
        Err(e) => Err(e),
    }
}

/// What decoding a buffer gives, gate by gate: size, type, alignment of the
/// length, declared length against the buffer, magic cookie, attributes.
/// Bytes after the declared length are ignored.
pub open spec fn decode_spec(b: Seq<u8>) -> Result<StunView, StunDecodeErr> {
    if b.len() < 20 {
        Err(StunDecodeErr::PacketTooSmall)
    } else {
        match typ_of(u16_of(b[0], b[1])) {
            Err(e) => Err(e),
            Ok(typ) => {
                let length = u16_of(b[2], b[3]);
                if length % 4 != 0 {
                    Err(StunDecodeErr::UnalignedLength)
                } else if 20 + length > b.len() {
                    Err(StunDecodeErr::PacketTooSmall)
                } else if u32_of(b.subrange(4, 8)) != MAGIC_COOKIE {
                    Err(StunDecodeErr::BadMagic)
                } else {
                    match parse_attrs(b.subrange(20, 20 + length), b.subrange(0, 20), 0) {
                        Err(e) => Err(StunDecodeErr::AttrErr(e)),
                        Ok(attrs) => Ok(StunView { typ, txid: b.subrange(8, 20), attrs }),
                    }
                }
            },
        }
    }
}

proof fn lemma_magic_bytes()
    ensures
        be32(MAGIC_COOKIE) == seq![0x21u8, 0x12u8, 0xA4u8, 0x42u8],
{
    let m = MAGIC_COOKIE;
    assert((m >> 24u32) as u8 == 0x21u8 && (m >> 16u32) as u8 == 0x12u8 && (m >> 8u32) as u8
        == 0xA4u8 && m as u8 == 0x42u8) by (bit_vector)
        requires
            m == 0x2112A442u32,
    ;
    assert(be32(MAGIC_COOKIE) =~= seq![0x21u8, 0x12u8, 0xA4u8, 0x42u8]);
}

/// A STUN message: a type, a transaction id, and attributes.
#[derive(Debug, Clone, Copy)]
pub struct Stun<'i> {
    pub typ: StunTyp,
    pub txid: &'i [u8; 12],
    pub attrs: StunAttrs<'i>,
}

impl<'i> Stun<'i> {
    pub open spec fn wf(&self) -> bool {
        self.attrs.wf()
    }

    /// The length of the encoded message.
    pub open spec fn spec_len(&self) -> nat {
        20 + self.attrs.spec_length()
    }

    /// The 20-byte header: type, attributes length, magic cookie, transaction id.
    pub open spec fn header(&self) -> Seq<u8> {
        be16(self.typ.value()) + be16(self.attrs.spec_length() as u16) + be32(MAGIC_COOKIE)
            + self.txid@
    }

    /// The encoded message.
    pub open spec fn wire(&self) -> Seq<u8> {
        self.header() + self.attrs.wire(self.header())
    }

    /// What the message says; attributes that fail to decode are left out.
    pub open spec fn view(&self) -> StunView {
        StunView {
            typ: self.typ,
            txid: self.txid@,
            attrs: match self.attrs.spec_attrs() {
                Ok(a) => a,
                Err(_) => seq![],
            },
        }
    }

    /// The length of the encoded message.
    pub fn len(&self) -> (r: usize)
        requires
            self.wf(),
        ensures
            r == self.spec_len(),
    {
        20 + self.attrs.length() as usize
    }

    /// A success response to this message, with the same method and
    /// transaction id.
    pub fn res(&self, attrs: &'i [StunAttr<'i>]) -> (r: Stun<'i>)
        ensures
            r.typ == StunTyp::Res(self.typ.spec_method()),
            r.txid == self.txid,
            r.attrs == StunAttrs::List(attrs),
    {
        Stun { typ: StunTyp::Res(self.typ.method()), txid: self.txid, attrs: StunAttrs::List(attrs) }
    }

    /// An error response to this message, with the same method and
    /// transaction id.
    pub fn err(&self, attrs: &'i [StunAttr<'i>]) -> (r: Stun<'i>)
        ensures
            r.typ == StunTyp::Error(self.typ.spec_method()),
            r.txid == self.txid,
            r.attrs == StunAttrs::List(attrs),
    {
        Stun { typ: StunTyp::Error(self.typ.method()), txid: self.txid, attrs: StunAttrs::List(attrs) }
    }

    /// Decodes a message, walking all of its attributes once so that any
    /// malformed one is reported here.
    pub fn decode(buff: &'i [u8]) -> (r: Result<Stun<'i>, StunDecodeErr>)
        ensures
            match r {
                Ok(m) => {
                    &&& decode_spec(buff@) == Ok::<StunView, StunDecodeErr>(m@)
                    &&& m.wf()
                    &&& m.attrs.spec_attrs() is Ok
                    &&& m.attrs matches StunAttrs::Parse { buff: region, header } && header@
                        == buff@.subrange(0, 20) && region@ == buff@.subrange(20, 20 + region@.len() as int)
                },
                Err(e) => decode_spec(buff@) == Err::<StunView, StunDecodeErr>(e),
            },
    {
        if buff.len() < 20 {
            return Err(StunDecodeErr::PacketTooSmall);
        }
        let typ = match StunTyp::try_from([buff[0], buff[1]]) {
            Ok(t) => t,
            Err(e) => return Err(e),
        };
        let length = read_u16(buff, 2);
        if length % 4 != 0 {
            return Err(StunDecodeErr::UnalignedLength);
        }
        if 20 + length as usize > buff.len() {
            return Err(StunDecodeErr::PacketTooSmall);
        }
        let magic = read_u32(&buff[4..8]);
        if magic != MAGIC_COOKIE {
            return Err(StunDecodeErr::BadMagic);
        }
        // Both slices have the array's length, so neither conversion fails.
        let txid = match slice_as_array::<12>(&buff[8..20]) {
            Some(t) => t,
            None => return Err(StunDecodeErr::PacketTooSmall),
        };
        let header = match slice_as_array::<20>(&buff[0..20]) {
            Some(h) => h,
            None => return Err(StunDecodeErr::PacketTooSmall),
        };
        let region = &buff[20..20 + length as usize];
        let attrs = StunAttrs::Parse { buff: region, header };
        let ghost outcome = match parse_attrs(region@, header@, 0) {
            Err(e) => Err(StunDecodeErr::AttrErr(e)),
            Ok(a) => Ok(StunView { typ, txid: txid@, attrs: a }),
        };
        assert(decode_spec(buff@) == outcome);
        let mut it = attrs.into_iter();
        let ghost done: Seq<AttrView> = seq![];
        loop
            invariant
                it.wf(),
                decode_spec(buff@) == outcome,
                outcome == match parse_attrs(region@, header@, 0) {
                    Err(e) => Err(StunDecodeErr::AttrErr(e)),
                    Ok(a) => Ok(StunView { typ, txid: txid@, attrs: a }),
                },
                header@ == buff@.subrange(0, 20),
                20 + region@.len() <= buff@.len(),
                region@ == buff@.subrange(20, 20 + region@.len() as int),
                region@.len() <= u16::MAX,
                it matches crate::attrs::StunAttrsIter::Parse { header: h, buff: b, length: c } && h
                    == header && b == region && parse_attrs(region@, header@, 0) == prepend(
                    done,
                    parse_attrs(region@, header@, c as nat),
                ),
            ensures
                parse_attrs(region@, header@, 0) == Ok::<Seq<AttrView>, StunAttrDecodeErr>(done),
            decreases
                match it {
                    crate::attrs::StunAttrsIter::Parse { length, .. } => region@.len() + 0x10000 - length,
                    _ => 0,
                },
        {
            match it.next() {
                None => {
                    proof {
                        let c = it->Parse_length as nat;
                        assert(c + 4 > region@.len());
                        assert(parse_attrs(region@, header@, c) == Ok::<Seq<AttrView>, StunAttrDecodeErr>(seq![]));
                        assert(done + seq![] =~= done);
                    }
                    break;
                },
                Some(Err(e)) => {
                    return Err(StunDecodeErr::AttrErr(e));
                },
                Some(Ok(a)) => {
                    proof {
                        assert(done + seq![a@] + parse_attrs(region@, header@, it->Parse_length as nat)->Ok_0
                            =~= done + (seq![a@] + parse_attrs(region@, header@, it->Parse_length as nat)->Ok_0));
                        done = done + seq![a@];
                    }
                },
            }
        }
        proof {
            assert(done + seq![] =~= done);
            assert(parse_attrs(region@, header@, 0) == Ok::<Seq<AttrView>, StunAttrDecodeErr>(done));
            assert(attrs.spec_attrs() == Ok::<Seq<AttrView>, StunAttrDecodeErr>(done));
        }
        let m = Stun { typ, txid, attrs };
        assert(m@ == StunView { typ, txid: txid@, attrs: done });
        Ok(m)
    }

    /// Encodes the message into the front of `buff`: the header, then each
    /// attribute coded after all the bytes before it.
    pub fn encode(&self, buff: &mut [u8]) -> (r: Result<(), StunEncodeErr>)
        ensures
            match r {
                Ok(()) => {
                    &&& self.wf()
                    &&& self.spec_len() <= old(buff)@.len()
                    &&& final(buff)@ == self.wire() + old(buff)@.subrange(
                        self.spec_len() as int,
                        old(buff)@.len() as int,
                    )
                },
                Err(e) => {
                    &&& e == StunEncodeErr::TooLong <==> !self.wf()
                    &&& e == StunEncodeErr::BufferTooSmall <==> (self.wf() && old(buff)@.len()
                        < self.spec_len())
                    &&& final(buff)@ == old(buff)@
                },
            },
    {
        let length = match self.attrs.checked_length() {
            Some(n) => n,
            None => return Err(StunEncodeErr::TooLong),
        };
        let total = 20 + length as usize;
        if buff.len() < total {
            return Err(StunEncodeErr::BufferTooSmall);
        }
        let (msg, _) = buff.split_at_mut(total);
        let (head, body) = msg.split_at_mut(20);
        let typ = self.typ.to_bytes();
        proof {
            lemma_magic_bytes();
        }
        head[0] = typ[0];
        head[1] = typ[1];
        write_u16(head, 2, length);
        head[4] = 0x21;
        head[5] = 0x12;
        head[6] = 0xA4;
        head[7] = 0x42;
        write_bytes(head, 8, self.txid.as_slice());
        assert(head@ =~= self.header());
        // `head` holds exactly 20 bytes, so the conversion does not fail.
        let header = match slice_as_array::<20>(&*head) {
            Some(h) => h,
            None => return Err(StunEncodeErr::BufferTooSmall),
        };
        self.attrs.encode(body, header);
        Ok(())
    }
}

/// Decoding an encoded message gives back its type, its transaction id and,
/// in order, what each attribute echoes: the attribute itself, or for a
/// MESSAGE-INTEGRITY key the MAC it produced where it stands.
pub proof fn lemma_decode_encode_echoes(m: Stun)
    requires
        m.wf(),
        m.typ.spec_method() < 4096,
        m.attrs matches StunAttrs::List(l) && forall|i: int|
            0 <= i < l@.len() ==> echoes_back(#[trigger] l@[i]),
    ensures
        decode_spec(m.wire()) == Ok::<StunView, StunDecodeErr>(
            StunView { typ: m.typ, txid: m.txid@, attrs: echoes(m.attrs->List_0@, m.header()) },
        ),
{
    let l = m.attrs->List_0@;
    let h = m.header();
    let w = m.wire();
    let len = list_len(l);
    lemma_list_wire_len(l, h);
    lemma_list_len_aligned(l);
    lemma_typ_round_trip(m.typ);
    lemma_u16_round_trip(m.typ.value());
    lemma_u16_round_trip(len as u16);
    lemma_magic_bytes();
    lemma_u32_round_trip(MAGIC_COOKIE);
    assert(w.subrange(4, 8) =~= be32(MAGIC_COOKIE));
    assert(w.subrange(0, 20) =~= h);
    assert(w.subrange(20, 20 + len as int) =~= list_wire(l, h));
    assert(w.subrange(8, 20) =~= m.txid@);
    lemma_parse_list(l, h);
}

/// Decoding an encoded message gives back its type, its transaction id and
/// the views of its attributes, in order. Left out are the attributes that
/// do not come back as themselves (see `StunAttr::round_trips`), such as a
/// MESSAGE-INTEGRITY key, which comes back as the MAC it produced.
pub proof fn lemma_decode_encode(m: Stun)
    requires
        m.wf(),
        m.typ.spec_method() < 4096,
        m.attrs matches StunAttrs::List(l) && forall|i: int|
            0 <= i < l@.len() ==> (#[trigger] l@[i]).round_trips(),
    ensures
        decode_spec(m.wire()) == Ok::<StunView, StunDecodeErr>(m@),
        m@.attrs == m.attrs->List_0@.map_values(|a: StunAttr| a@),
{
    let l = m.attrs->List_0@;
    assert forall|i: int| 0 <= i < l.len() implies echoes_back(#[trigger] l[i]) by {}
    lemma_decode_encode_echoes(m);
    assert(echoes(l, m.header()) =~= l.map_values(|a: StunAttr| a@));
}

/// A MESSAGE-INTEGRITY key in an encoded message comes back as the MAC of
/// everything before it under that key; a received value holding that MAC
/// in that context verifies against the key (`lemma_check_verifies`).
pub proof fn lemma_integrity_round_trip(m: Stun, k: int)
    requires
        m.wf(),
        m.typ.spec_method() < 4096,
        m.attrs matches StunAttrs::List(l) && forall|i: int|
            0 <= i < l@.len() ==> echoes_back(#[trigger] l@[i]),
        0 <= k < m.attrs->List_0@.len(),
        m.attrs->List_0@[k] is Integrity,
        m.attrs->List_0@[k]->Integrity_0 is Sign,
    ensures
        decode_spec(m.wire()) matches Ok(v) && v.attrs[k] == AttrView::Integrity(
            IntegrityView::Mac(
                m.attrs->List_0@[k]->Integrity_0.wire(list_ctx(m.attrs->List_0@, m.header(), k)),
            ),
        ),
{
    lemma_decode_encode_echoes(m);
}

/// Every input shorter than a header is too small.
pub proof fn lemma_short_input(b: Seq<u8>)
    requires
        b.len() < 20,
    ensures
        decode_spec(b) == Err::<StunView, StunDecodeErr>(StunDecodeErr::PacketTooSmall),
{
}

/// A message whose last listed attribute is FINGERPRINT decodes, and its
/// last attribute comes back as a verified FINGERPRINT.
pub proof fn lemma_fingerprint_verifies(m: Stun)
    requires
        m.wf(),
        m.typ.spec_method() < 4096,
        m.attrs matches StunAttrs::List(l) && forall|i: int|
            0 <= i < l@.len() ==> (#[trigger] l@[i]).round_trips(),
        m.attrs->List_0@.len() > 0,
        m.attrs->List_0@.last() is Fingerprint,
    ensures
        decode_spec(m.wire()) matches Ok(v) && v.attrs.last() == AttrView::Fingerprint,
{
    lemma_decode_encode(m);
}

/// A walk over the attributes of a message that honours their order: it
/// ends after FINGERPRINT, and after MESSAGE-INTEGRITY only a FINGERPRINT
/// is handed out. It also ends at an attribute that fails to decode.
pub struct StunIter<'i, 'a> {
    pub integrity: bool,
    pub fingerprint: bool,
    pub attrs: StunAttrsIter<'i, 'a>,
}

impl<'i> Stun<'i> {
    /// A walk over the attributes that a receiver should trust.
    pub fn into_iter<'a>(&'a self) -> (r: StunIter<'i, 'a>)
        requires
            self.wf(),
        ensures
            !r.integrity,
            !r.fingerprint,
            r.attrs.wf(),
            r.attrs == match self.attrs {
                StunAttrs::Parse { buff, header } => StunAttrsIter::Parse { header, buff, length: 0 },
                StunAttrs::List(l) => StunAttrsIter::List { list: l, index: 0 },
            },
    {
        let it = self.attrs.into_iter();
        StunIter { integrity: false, fingerprint: false, attrs: it }
    }
}

impl<'i, 'a> StunIter<'i, 'a> {
    /// The next trusted attribute.
    pub fn next(&mut self) -> (r: Option<StunAttr<'i>>)
        requires
            old(self).attrs.wf(),
        ensures
            final(self).attrs.wf(),
            final(self).attrs == old(self).attrs.spec_advance(),
            match old(self).attrs.spec_peek() {
                Some(Ok(v)) => {
                    if old(self).fingerprint || (old(self).integrity && !(v is Fingerprint)) {
                        r is None
                    } else {
                        &&& r matches Some(a) && a@ == v
                        &&& final(self).fingerprint == (v is Fingerprint)
                        &&& final(self).integrity == (old(self).integrity || v is Integrity)
                    }
                },
                _ => r is None,
            },
    {
        let attr = match self.attrs.next() {
            Some(Ok(a)) => a,
            _ => return None,
        };
        if self.fingerprint {
            return None;
        }
        match attr {
            StunAttr::Fingerprint => {
                self.fingerprint = true;
            },
            _ => {
                if self.integrity {
                    return None;
                }
                if let StunAttr::Integrity(_) = attr {
                    self.integrity = true;
                }
            },
        }
        Some(attr)
    }
}

} // verus!
