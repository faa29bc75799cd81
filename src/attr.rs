//! Attribute values, the context they are coded in, and the registry of
//! STUN attribute types.
use vstd::prelude::*;
use vstd::string::StringSliceAdditionalSpecFns;
use vstd::utf8::{decode_utf8, encode_utf8_decode_utf8, encode_utf8_valid_utf8, valid_utf8};

use crate::addr::{AddrView, TransportAddr};
use crate::wire::{
    be16, be32, be64, crc32, crc32_of, hmac_sha1, hmac_sha1_of, lemma_u16_round_trip,
    lemma_u32_round_trip, lemma_u64_round_trip, read_u16, read_u32, read_u64, slice_as_array,
    u16_of, u32_of, u64_of, utf8_str, write_bytes, write_u16,
};

verus! {

/// Why an attribute could not be decoded.
#[derive(Debug, Clone, Copy, PartialEq, Eq, Structural)]
pub enum StunAttrDecodeErr {
    /// The declared TLV length runs past the end of the attribute region.
    AttrLengthExceedsPacketLength,
    /// A value of fixed shape holds a wrong number of bytes.
    ValueUnexpectedLength,
    /// A text value is not UTF-8.
    BadUtf8,
    /// A fixed-width integer or byte array holds a wrong number of bytes.
    UnexpectedLength,
    /// The FINGERPRINT value does not match the bytes before it.
    BadFingerprint,
}

/// What an attribute's codec sees of the enclosing message.
pub struct CtxView {
    pub header: Seq<u8>,
    pub zero_xor_bytes: bool,
    pub attrs_prefix: Seq<u8>,
    pub attr_len: u16,
}

impl CtxView {
    pub open spec fn wf(self) -> bool {
        self.header.len() == 20
    }

    /// The key that XOR-mapped values are masked with.
    pub open spec fn xor_key(self) -> Seq<u8> {
        if self.zero_xor_bytes {
            Seq::new(16, |i: int| 0u8)
        } else {
            self.header.subrange(4, 20)
        }
    }

    /// The same context with the XOR key forced to zero.
    pub open spec fn zeroed(self) -> CtxView {
        CtxView {
            header: self.header,
            zero_xor_bytes: true,
            attrs_prefix: self.attrs_prefix,
            attr_len: self.attr_len,
        }
    }

    /// The length field of a message that ended right after this attribute.
    pub open spec fn simulated_len(self) -> u16 {
        ((self.attrs_prefix.len() + self.attr_len) % 0x10000) as u16
    }

    /// The bytes that MESSAGE-INTEGRITY and FINGERPRINT are computed over:
    /// the message as it would read if it ended right after this attribute,
    /// up to and excluding the attribute itself.
    pub open spec fn reduced(self) -> Seq<u8> {
        self.header.subrange(0, 2) + be16(self.simulated_len()) + self.header.subrange(4, 20)
            + self.attrs_prefix
    }
}

/// The view of the enclosing message that an attribute is coded in: the
/// 20-byte header, whether the XOR key is forced to zero, the attribute
/// bytes that come before this one, and this attribute's unpadded TLV length.
#[derive(Debug, Clone, Copy)]
pub struct AttrContext<'i> {
    pub header: &'i [u8; 20],
    pub zero_xor_bytes: bool,
    pub attrs_prefix: &'i [u8],
    pub attr_len: u16,
}

impl<'i> View for AttrContext<'i> {
    type V = CtxView;

    open spec fn view(&self) -> CtxView {
        CtxView {
            header: self.header@,
            zero_xor_bytes: self.zero_xor_bytes,
            attrs_prefix: self.attrs_prefix@,
            attr_len: self.attr_len,
        }
    }
}

impl<'i> AttrContext<'i> {
    /// The key of XOR-mapped addresses: the magic cookie and the transaction
    /// id, or sixteen zero bytes.
    pub fn xor_bytes(&self) -> (r: &'i [u8; 16])
        ensures
            r@ == self@.xor_key(),
    {
        if self.zero_xor_bytes {
            let r: &'i [u8; 16] = &[0u8, 0, 0, 0, 0, 0, 0, 0, 0, 0, 0, 0, 0, 0, 0, 0];
            assert(r@ =~= self@.xor_key());
            r
        } else {
            // Sixteen bytes always convert to a 16-byte array.
            let key = slice_as_array::<16>(&self.header[4..20]);
            match key {
                Some(k) => k,
                None => {
                    assert(false);
                    &[0u8; 16]
                },
            }
        }
    }

    /// The bytes that MESSAGE-INTEGRITY and FINGERPRINT are computed over.
    pub fn reduce_over_prefix(&self) -> (r: Vec<u8>)
        ensures
            r@ == self@.reduced(),
    {
        let mut out: Vec<u8> = Vec::new();
        out.push(self.header[0]);
        out.push(self.header[1]);
        let n = self.attrs_prefix.len();
        let total: u16 = (n % 0x10000) as u16;
        let sim: u16 = total.wrapping_add(self.attr_len);
        out.push((sim >> 8u16) as u8);
        out.push(sim as u8);
        crate::wire::append_bytes(&mut out, &self.header[4..20]);
        crate::wire::append_bytes(&mut out, self.attrs_prefix);
        assert(sim == self@.simulated_len());
        assert(out@ =~= self@.reduced());
        out
    }

    /// The same context with the XOR key forced to zero.
    pub fn zeroed(&self) -> (r: AttrContext<'i>)
        ensures
            r@ == self@.zeroed(),
    {
        AttrContext {
            header: self.header,
            zero_xor_bytes: true,
            attrs_prefix: self.attrs_prefix,
            attr_len: self.attr_len,
        }
    }
}

/// Each byte of `a` XORed with the byte of `k` at the same index.
pub open spec fn xor_seq(a: Seq<u8>, k: Seq<u8>) -> Seq<u8> {
    Seq::new(a.len(), |i: int| a[i] ^ k[i])
}

/// The codec of one shape of attribute value.
pub trait StunAttrValue<'i>: View + Sized {
    /// The number of value bytes, before padding.
    spec fn spec_length(&self) -> nat;

    /// The value bytes that `encode` writes in a context.
    spec fn wire(&self, ctx: CtxView) -> Seq<u8>;

    /// What `decode` makes of value bytes in a context.
    spec fn decode_spec(b: Seq<u8>, ctx: CtxView) -> Result<Self::V, StunAttrDecodeErr>;

    /// Values that decode back to themselves.
    spec fn round_trips(&self) -> bool;

    proof fn lemma_wire_len(&self, ctx: CtxView)
        ensures
            self.wire(ctx).len() == self.spec_length(),
    ;

    proof fn lemma_round_trip(&self, ctx: CtxView)
        requires
            ctx.wf(),
            self.round_trips(),
        ensures
            Self::decode_spec(self.wire(ctx), ctx) == Ok::<Self::V, StunAttrDecodeErr>(self@),
    ;

    fn length(&self) -> (r: u16)
        requires
            self.spec_length() <= u16::MAX,
        ensures
            r == self.spec_length(),
    ;

    fn encode(&self, buff: &mut [u8], ctx: AttrContext<'_>)
        requires
            ctx@.wf(),
            old(buff)@.len() == self.spec_length(),
        ensures
            final(buff)@ == self.wire(ctx@),
    ;

    fn decode(buff: &'i [u8], ctx: AttrContext<'i>) -> (r: Result<Self, StunAttrDecodeErr>)
        requires
            ctx@.wf(),
        ensures
            match r {
                Ok(v) => Self::decode_spec(buff@, ctx@) == Ok::<Self::V, StunAttrDecodeErr>(v@),
                Err(e) => Self::decode_spec(buff@, ctx@) == Err::<Self::V, StunAttrDecodeErr>(e),
            },
    ;
}


impl<'i> StunAttrValue<'i> for () {
    open spec fn spec_length(&self) -> nat {
        0
    }

    open spec fn wire(&self, ctx: CtxView) -> Seq<u8> {
        seq![]
    }

    open spec fn decode_spec(b: Seq<u8>, ctx: CtxView) -> Result<(), StunAttrDecodeErr> {
        if b.len() == 0 {
            Ok(())
        } else {
            Err(StunAttrDecodeErr::ValueUnexpectedLength)
        }
    }

    open spec fn round_trips(&self) -> bool {
        true
    }

    proof fn lemma_wire_len(&self, ctx: CtxView) {
    }

    proof fn lemma_round_trip(&self, ctx: CtxView) {
    }

    fn length(&self) -> (r: u16) {
        0
    }

    fn encode(&self, buff: &mut [u8], ctx: AttrContext<'_>) {
        assert(buff@ =~= seq![]);
    }

    fn decode(buff: &'i [u8], ctx: AttrContext<'i>) -> (r: Result<(), StunAttrDecodeErr>) {
        if buff.len() == 0 {
            Ok(())
        } else {
            Err(StunAttrDecodeErr::ValueUnexpectedLength)
        }
    }
}

impl<'i> StunAttrValue<'i> for &'i str {
    open spec fn spec_length(&self) -> nat {
        self.spec_bytes().len()
    }

    open spec fn wire(&self, ctx: CtxView) -> Seq<u8> {
        self.spec_bytes()
    }

    open spec fn decode_spec(b: Seq<u8>, ctx: CtxView) -> Result<Seq<char>, StunAttrDecodeErr> {
        if valid_utf8(b) {
            Ok(decode_utf8(b))
        } else {
            Err(StunAttrDecodeErr::BadUtf8)
        }
    }

    open spec fn round_trips(&self) -> bool {
        true
    }

    proof fn lemma_wire_len(&self, ctx: CtxView) {
    }

    proof fn lemma_round_trip(&self, ctx: CtxView) {
        encode_utf8_valid_utf8(self@);
        encode_utf8_decode_utf8(self@);
    }

    fn length(&self) -> (r: u16) {
        self.len() as u16
    }

    fn encode(&self, buff: &mut [u8], ctx: AttrContext<'_>) {
        write_bytes(buff, 0, self.as_bytes());
        assert(buff@ =~= self.spec_bytes());
    }

    fn decode(buff: &'i [u8], ctx: AttrContext<'i>) -> (r: Result<&'i str, StunAttrDecodeErr>) {
        match utf8_str(buff) {
            Some(s) => {
                proof {
                    encode_utf8_decode_utf8(s@);
                }
                Ok(s)
            },
            None => Err(StunAttrDecodeErr::BadUtf8),
        }
    }
}

impl<'i> StunAttrValue<'i> for &'i [u8] {
    open spec fn spec_length(&self) -> nat {
        self@.len()
    }

    open spec fn wire(&self, ctx: CtxView) -> Seq<u8> {
        self@
    }

    open spec fn decode_spec(b: Seq<u8>, ctx: CtxView) -> Result<Seq<u8>, StunAttrDecodeErr> {
        Ok(b)
    }

    open spec fn round_trips(&self) -> bool {
        true
    }

    proof fn lemma_wire_len(&self, ctx: CtxView) {
    }

    proof fn lemma_round_trip(&self, ctx: CtxView) {
    }

    fn length(&self) -> (r: u16) {
        self.len() as u16
    }

    fn encode(&self, buff: &mut [u8], ctx: AttrContext<'_>) {
        write_bytes(buff, 0, self);
        assert(buff@ =~= self@);
    }

    fn decode(buff: &'i [u8], ctx: AttrContext<'i>) -> (r: Result<&'i [u8], StunAttrDecodeErr>) {
        Ok(buff)
    }
}

impl<'i, const N: usize> StunAttrValue<'i> for &'i [u8; N] {
    open spec fn spec_length(&self) -> nat {
        N as nat
    }

    open spec fn wire(&self, ctx: CtxView) -> Seq<u8> {
        self@
    }

    open spec fn decode_spec(b: Seq<u8>, ctx: CtxView) -> Result<Seq<u8>, StunAttrDecodeErr> {
        if b.len() == N {
            Ok(b)
        } else {
            Err(StunAttrDecodeErr::UnexpectedLength)
        }
    }

    open spec fn round_trips(&self) -> bool {
        true
    }

    proof fn lemma_wire_len(&self, ctx: CtxView) {
    }

    proof fn lemma_round_trip(&self, ctx: CtxView) {
    }

    fn length(&self) -> (r: u16) {
        N as u16
    }

    fn encode(&self, buff: &mut [u8], ctx: AttrContext<'_>) {
        write_bytes(buff, 0, self.as_slice());
        assert(buff@ =~= self@);
    }

    fn decode(buff: &'i [u8], ctx: AttrContext<'i>) -> (r: Result<&'i [u8; N], StunAttrDecodeErr>) {
        match slice_as_array::<N>(buff) {
            Some(a) => Ok(a),
            None => Err(StunAttrDecodeErr::UnexpectedLength),
        }
    }
}

impl<'i> StunAttrValue<'i> for u32 {
    open spec fn spec_length(&self) -> nat {
        4
    }

    open spec fn wire(&self, ctx: CtxView) -> Seq<u8> {
        be32(*self)
    }

    open spec fn decode_spec(b: Seq<u8>, ctx: CtxView) -> Result<u32, StunAttrDecodeErr> {
        if b.len() == 4 {
            Ok(u32_of(b))
        } else {
            Err(StunAttrDecodeErr::UnexpectedLength)
        }
    }

    open spec fn round_trips(&self) -> bool {
        true
    }

    proof fn lemma_wire_len(&self, ctx: CtxView) {
    }

    proof fn lemma_round_trip(&self, ctx: CtxView) {
        lemma_u32_round_trip(*self);
    }

    fn length(&self) -> (r: u16) {
        4
    }

    fn encode(&self, buff: &mut [u8], ctx: AttrContext<'_>) {
        let x = *self;
        buff[0] = (x >> 24u32) as u8;
        buff[1] = (x >> 16u32) as u8;
        buff[2] = (x >> 8u32) as u8;
        buff[3] = x as u8;
        assert(buff@ =~= be32(x));
    }

    fn decode(buff: &'i [u8], ctx: AttrContext<'i>) -> (r: Result<u32, StunAttrDecodeErr>) {
        if buff.len() == 4 {
            Ok(read_u32(buff))
        } else {
            Err(StunAttrDecodeErr::UnexpectedLength)
        }
    }
}

impl<'i> StunAttrValue<'i> for u64 {
    open spec fn spec_length(&self) -> nat {
        8
    }

    open spec fn wire(&self, ctx: CtxView) -> Seq<u8> {
        be64(*self)
    }

    open spec fn decode_spec(b: Seq<u8>, ctx: CtxView) -> Result<u64, StunAttrDecodeErr> {
        if b.len() == 8 {
            Ok(u64_of(b))
        } else {
            Err(StunAttrDecodeErr::UnexpectedLength)
        }
    }

    open spec fn round_trips(&self) -> bool {
        true
    }

    proof fn lemma_wire_len(&self, ctx: CtxView) {
    }

    proof fn lemma_round_trip(&self, ctx: CtxView) {
        lemma_u64_round_trip(*self);
    }

    fn length(&self) -> (r: u16) {
        8
    }

    fn encode(&self, buff: &mut [u8], ctx: AttrContext<'_>) {
        let x = *self;
        buff[0] = (x >> 56u64) as u8;
        buff[1] = (x >> 48u64) as u8;
        buff[2] = (x >> 40u64) as u8;
        buff[3] = (x >> 32u64) as u8;
        buff[4] = (x >> 24u64) as u8;
        buff[5] = (x >> 16u64) as u8;
        buff[6] = (x >> 8u64) as u8;
        buff[7] = x as u8;
        assert(buff@ =~= be64(x));
    }

    fn decode(buff: &'i [u8], ctx: AttrContext<'i>) -> (r: Result<u64, StunAttrDecodeErr>) {
        if buff.len() == 8 {
            Ok(read_u64(buff))
        } else {
            Err(StunAttrDecodeErr::UnexpectedLength)
        }
    }
}


/// ERROR-CODE: a code (class times 100 plus number) and a reason phrase.
#[derive(Debug, Clone, Copy)]
pub struct Error<'i> {
    pub code: u16,
    pub message: &'i str,
}

impl<'i> View for Error<'i> {
    type V = (u16, Seq<char>);

    open spec fn view(&self) -> (u16, Seq<char>) {
        (self.code, self.message@)
    }
}

impl<'i> StunAttrValue<'i> for Error<'i> {
    open spec fn spec_length(&self) -> nat {
        4 + self.message.spec_bytes().len()
    }

    /// Two reserved bytes, the class, the number, then the reason phrase.
    open spec fn wire(&self, ctx: CtxView) -> Seq<u8> {
        seq![0u8, 0u8, (self.code / 100) as u8, (self.code % 100) as u8]
            + self.message.spec_bytes()
    }

    /// The class is the low nibble of the third byte.
    open spec fn decode_spec(b: Seq<u8>, ctx: CtxView) -> Result<(u16, Seq<char>), StunAttrDecodeErr> {
        if b.len() < 4 {
            Err(StunAttrDecodeErr::ValueUnexpectedLength)
        } else if !valid_utf8(b.subrange(4, b.len() as int)) {
            Err(StunAttrDecodeErr::BadUtf8)
        } else {
            Ok(
                (
                    ((b[2] % 16) as int * 100 + b[3] as int) as u16,
                    decode_utf8(b.subrange(4, b.len() as int)),
                ),
            )
        }
    }

    /// A class of more than four bits does not survive the trip.
    open spec fn round_trips(&self) -> bool {
        self.code < 1600
    }

    proof fn lemma_wire_len(&self, ctx: CtxView) {
    }

    proof fn lemma_round_trip(&self, ctx: CtxView) {
        let b = self.wire(ctx);
        assert(b.subrange(4, b.len() as int) =~= self.message.spec_bytes());
        encode_utf8_valid_utf8(self.message@);
        encode_utf8_decode_utf8(self.message@);
    }

    fn length(&self) -> (r: u16) {
        4 + self.message.len() as u16
    }

    fn encode(&self, buff: &mut [u8], ctx: AttrContext<'_>) {
        buff[0] = 0;
        buff[1] = 0;
        buff[2] = (self.code / 100) as u8;
        buff[3] = (self.code % 100) as u8;
        write_bytes(buff, 4, self.message.as_bytes());
        assert(buff@ =~= self.wire(ctx@));
    }

    fn decode(buff: &'i [u8], ctx: AttrContext<'i>) -> (r: Result<Error<'i>, StunAttrDecodeErr>) {
        if buff.len() < 4 {
            return Err(StunAttrDecodeErr::ValueUnexpectedLength);
        }
        let code = ((buff[2] % 16) as u16) * 100 + buff[3] as u16;
        let rest = &buff[4..buff.len()];
        match utf8_str(rest) {
            Some(message) => {
                proof {
                    encode_utf8_decode_utf8(message@);
                }
                Ok(Error { code, message })
            },
            None => Err(StunAttrDecodeErr::BadUtf8),
        }
    }
}

/// UNKNOWN-ATTRIBUTES: attribute types, either still on the wire or listed.
#[derive(Debug, Clone, Copy)]
pub enum UnknownAttributes<'i> {
    Parse(&'i [u8]),
    List(&'i [u16]),
}

/// The 16-bit codes that bytes hold, two bytes each.
pub open spec fn codes_of(s: Seq<u8>) -> Seq<u16> {
    Seq::new(s.len() / 2, |i: int| u16_of(s[2 * i], s[2 * i + 1]))
}

/// The bytes of 16-bit codes, two bytes each.
pub open spec fn codes_wire(l: Seq<u16>) -> Seq<u8> {
    Seq::new(2 * l.len(), |i: int| be16(l[i / 2])[i % 2])
}

impl<'i> View for UnknownAttributes<'i> {
    type V = Seq<u16>;

    open spec fn view(&self) -> Seq<u16> {
        match *self {
            UnknownAttributes::Parse(s) => codes_of(s@),
            UnknownAttributes::List(l) => l@,
        }
    }
}

impl<'i> StunAttrValue<'i> for UnknownAttributes<'i> {
    open spec fn spec_length(&self) -> nat {
        match *self {
            UnknownAttributes::Parse(s) => s@.len(),
            UnknownAttributes::List(l) => 2 * l@.len(),
        }
    }

    open spec fn wire(&self, ctx: CtxView) -> Seq<u8> {
        match *self {
            UnknownAttributes::Parse(s) => s@,
            UnknownAttributes::List(l) => codes_wire(l@),
        }
    }

    open spec fn decode_spec(b: Seq<u8>, ctx: CtxView) -> Result<Seq<u16>, StunAttrDecodeErr> {
        if b.len() % 2 != 0 {
            Err(StunAttrDecodeErr::ValueUnexpectedLength)
        } else {
            Ok(codes_of(b))
        }
    }

    /// Bytes of odd count are refused on the way back.
    open spec fn round_trips(&self) -> bool {
        match *self {
            UnknownAttributes::Parse(s) => s@.len() % 2 == 0,
            UnknownAttributes::List(_) => true,
        }
    }

    proof fn lemma_wire_len(&self, ctx: CtxView) {
    }

    proof fn lemma_round_trip(&self, ctx: CtxView) {
        if let UnknownAttributes::List(l) = *self {
            let w = codes_wire(l@);
            assert forall|i: int| 0 <= i < l@.len() implies #[trigger] codes_of(w)[i] == l@[i] by {
                assert(w[2 * i] == be16(l@[i])[0]);
                assert(w[2 * i + 1] == be16(l@[i])[1]);
                lemma_u16_round_trip(l@[i]);
            }
            assert(codes_of(w) =~= l@);
        }
    }

    fn length(&self) -> (r: u16) {
        match self {
            UnknownAttributes::Parse(s) => s.len() as u16,
            UnknownAttributes::List(l) => (l.len() * 2) as u16,
        }
    }

    fn encode(&self, buff: &mut [u8], ctx: AttrContext<'_>) {
        match self {
            UnknownAttributes::Parse(s) => {
                write_bytes(buff, 0, s);
                assert(buff@ =~= s@);
            },
            UnknownAttributes::List(l) => {
                let n = l.len();
                let mut i: usize = 0;
                while i < n
                    invariant
                        i <= n,
                        n == l@.len(),
                        buff@.len() == 2 * n,
                        buff@.len() == buff.len(),
                        forall|j: int| 0 <= j < 2 * i ==> buff@[j] == codes_wire(l@)[j],
                    decreases n - i,
                {
                    write_u16(buff, 2 * i, l[i]);
                    i += 1;
                }
                assert(buff@ =~= codes_wire(l@));
            },
        }
    }

    fn decode(buff: &'i [u8], ctx: AttrContext<'i>) -> (r: Result<UnknownAttributes<'i>, StunAttrDecodeErr>) {
        if buff.len() % 2 != 0 {
            Err(StunAttrDecodeErr::ValueUnexpectedLength)
        } else {
            Ok(UnknownAttributes::Parse(buff))
        }
    }
}

/// EVEN-PORT: whether the next-higher port should be reserved too.
#[derive(Debug, Clone, Copy)]
pub struct EvenPort(pub bool);

impl View for EvenPort {
    type V = bool;

    open spec fn view(&self) -> bool {
        self.0
    }
}

impl<'i> StunAttrValue<'i> for EvenPort {
    open spec fn spec_length(&self) -> nat {
        1
    }

    /// The flag is the top bit of the single byte.
    open spec fn wire(&self, ctx: CtxView) -> Seq<u8> {
        seq![if self.0 { 0x80u8 } else { 0u8 }]
    }

    open spec fn decode_spec(b: Seq<u8>, ctx: CtxView) -> Result<bool, StunAttrDecodeErr> {
        if b.len() != 1 {
            Err(StunAttrDecodeErr::ValueUnexpectedLength)
        } else {
            Ok(b[0] & 0x80 != 0)
        }
    }

    open spec fn round_trips(&self) -> bool {
        true
    }

    proof fn lemma_wire_len(&self, ctx: CtxView) {
    }

    proof fn lemma_round_trip(&self, ctx: CtxView) {
        assert(0x80u8 & 0x80 != 0 && 0u8 & 0x80 == 0) by (bit_vector);
    }

    fn length(&self) -> (r: u16) {
        1
    }

    fn encode(&self, buff: &mut [u8], ctx: AttrContext<'_>) {
        buff[0] = if self.0 { 0x80 } else { 0 };
        assert(buff@ =~= self.wire(ctx@));
    }

    fn decode(buff: &'i [u8], ctx: AttrContext<'i>) -> (r: Result<EvenPort, StunAttrDecodeErr>) {
        if buff.len() != 1 {
            return Err(StunAttrDecodeErr::ValueUnexpectedLength);
        }
        Ok(EvenPort(buff[0] & 0x80 != 0))
    }
}

/// REQUESTED-TRANSPORT: the IP protocol number of the relayed transport.
#[derive(Debug, Clone, Copy)]
pub struct RequestedTransport(pub u8);

impl View for RequestedTransport {
    type V = u8;

    open spec fn view(&self) -> u8 {
        self.0
    }
}

impl<'i> StunAttrValue<'i> for RequestedTransport {
    open spec fn spec_length(&self) -> nat {
        4
    }

    /// The protocol, then three reserved bytes.
    open spec fn wire(&self, ctx: CtxView) -> Seq<u8> {
        seq![self.0, 0u8, 0u8, 0u8]
    }

    open spec fn decode_spec(b: Seq<u8>, ctx: CtxView) -> Result<u8, StunAttrDecodeErr> {
        if b.len() != 4 {
            Err(StunAttrDecodeErr::ValueUnexpectedLength)
        } else {
            Ok(b[0])
        }
    }

    open spec fn round_trips(&self) -> bool {
        true
    }

    proof fn lemma_wire_len(&self, ctx: CtxView) {
    }

    proof fn lemma_round_trip(&self, ctx: CtxView) {
    }

    fn length(&self) -> (r: u16) {
        4
    }

    fn encode(&self, buff: &mut [u8], ctx: AttrContext<'_>) {
        buff[0] = self.0;
        buff[1] = 0;
        buff[2] = 0;
        buff[3] = 0;
        assert(buff@ =~= self.wire(ctx@));
    }

    fn decode(buff: &'i [u8], ctx: AttrContext<'i>) -> (r: Result<RequestedTransport, StunAttrDecodeErr>) {
        if buff.len() != 4 {
            return Err(StunAttrDecodeErr::ValueUnexpectedLength);
        }
        Ok(RequestedTransport(buff[0]))
    }
}

/// A value coded with the XOR key forced to zero, so that the address codec
/// also serves the attributes whose addresses are not masked.
#[derive(Debug, Clone, Copy)]
pub struct ZeroXor<V>(pub V);

impl<V: View> View for ZeroXor<V> {
    type V = V::V;

    open spec fn view(&self) -> V::V {
        self.0@
    }
}

impl<V> ZeroXor<V> {
    pub fn into(self) -> (r: V)
        ensures
            r == self.0,
    {
        self.0
    }

    pub fn from(value: V) -> (r: ZeroXor<V>)
        ensures
            r.0 == value,
    {
        ZeroXor(value)
    }
}

impl<'i, V: StunAttrValue<'i>> StunAttrValue<'i> for ZeroXor<V> {
    open spec fn spec_length(&self) -> nat {
        self.0.spec_length()
    }

    open spec fn wire(&self, ctx: CtxView) -> Seq<u8> {
        self.0.wire(ctx.zeroed())
    }

    open spec fn decode_spec(b: Seq<u8>, ctx: CtxView) -> Result<V::V, StunAttrDecodeErr> {
        V::decode_spec(b, ctx.zeroed())
    }

    open spec fn round_trips(&self) -> bool {
        self.0.round_trips()
    }

    proof fn lemma_wire_len(&self, ctx: CtxView) {
        self.0.lemma_wire_len(ctx.zeroed());
    }

    proof fn lemma_round_trip(&self, ctx: CtxView) {
        self.0.lemma_round_trip(ctx.zeroed());
    }

    fn length(&self) -> (r: u16) {
        self.0.length()
    }

    fn encode(&self, buff: &mut [u8], ctx: AttrContext<'_>) {
        let ctx = ctx.zeroed();
        self.0.encode(buff, ctx)
    }

    fn decode(buff: &'i [u8], ctx: AttrContext<'i>) -> (r: Result<ZeroXor<V>, StunAttrDecodeErr>) {
        let ctx = ctx.zeroed();
        match V::decode(buff, ctx) {
            Ok(v) => Ok(ZeroXor(v)),
            Err(e) => Err(e),
        }
    }
}

/// The constant that the FINGERPRINT checksum is XORed with.
pub const FINGERPRINT_XOR: u32 = 0x5354554e;

/// The FINGERPRINT value for a context: the CRC-32 of what precedes the
/// attribute, XORed with a constant.
pub open spec fn fingerprint_of(ctx: CtxView) -> u32 {
    crc32_of(ctx.reduced()) ^ FINGERPRINT_XOR
}

/// FINGERPRINT: a checksum of everything before it, recomputed on encode
/// and checked on decode.
#[derive(Debug, Clone, Copy)]
pub struct Fingerprint;

impl View for Fingerprint {
    type V = ();

    open spec fn view(&self) -> () {
        ()
    }
}

impl Fingerprint {
    /// The FINGERPRINT value for a context.
    pub fn expected(ctx: &AttrContext<'_>) -> (r: u32)
        ensures
            r == fingerprint_of(ctx@),
    {
        let data = ctx.reduce_over_prefix();
        crc32(data.as_slice()) ^ FINGERPRINT_XOR
    }
}

impl<'i> StunAttrValue<'i> for Fingerprint {
    open spec fn spec_length(&self) -> nat {
        4
    }

    open spec fn wire(&self, ctx: CtxView) -> Seq<u8> {
        be32(fingerprint_of(ctx))
    }

    open spec fn decode_spec(b: Seq<u8>, ctx: CtxView) -> Result<(), StunAttrDecodeErr> {
        if b.len() != 4 {
            Err(StunAttrDecodeErr::UnexpectedLength)
        } else if u32_of(b) == fingerprint_of(ctx) {
            Ok(())
        } else {
            Err(StunAttrDecodeErr::BadFingerprint)
        }
    }

    open spec fn round_trips(&self) -> bool {
        true
    }

    proof fn lemma_wire_len(&self, ctx: CtxView) {
    }

    proof fn lemma_round_trip(&self, ctx: CtxView) {
        lemma_u32_round_trip(fingerprint_of(ctx));
    }

    fn length(&self) -> (r: u16) {
        0u32.length()
    }

    fn encode(&self, buff: &mut [u8], ctx: AttrContext<'_>) {
        let actual = Fingerprint::expected(&ctx);
        actual.encode(buff, ctx)
    }

    fn decode(buff: &'i [u8], ctx: AttrContext<'i>) -> (r: Result<Fingerprint, StunAttrDecodeErr>) {
        let actual = match u32::decode(buff, ctx) {
            Ok(v) => v,
            Err(e) => return Err(e),
        };
        let expected = Fingerprint::expected(&ctx);
        if expected == actual {
            Ok(Fingerprint)
        } else {
            Err(StunAttrDecodeErr::BadFingerprint)
        }
    }
}

/// MESSAGE-INTEGRITY: an HMAC-SHA1 of everything before it. `Check` holds a
/// received value and the context to verify it in; `Sign` holds the key to
/// sign with when encoding.
#[derive(Debug, Clone, Copy)]
pub enum Integrity<'i> {
    Check { val: &'i [u8; 20], ctx: AttrContext<'i> },
    Sign { key_data: &'i [u8] },
}

/// What an Integrity value carries: a received MAC, or a signing key.
pub enum IntegrityView {
    Mac(Seq<u8>),
    Key(Seq<u8>),
}

impl<'i> View for Integrity<'i> {
    type V = IntegrityView;

    open spec fn view(&self) -> IntegrityView {
        match *self {
            Integrity::Check { val, .. } => IntegrityView::Mac(val@),
            Integrity::Sign { key_data } => IntegrityView::Key(key_data@),
        }
    }
}

/// The 20 bytes of the HMAC-SHA1 that signs a context under a key.
pub open spec fn mac_of(key: Seq<u8>, ctx: CtxView) -> Seq<u8> {
    Seq::new(20, |i: int| hmac_sha1_of(key, ctx.reduced())[i])
}

/// Whether two byte sequences are equal, compared byte by byte.
fn bytes_equal(a: &[u8], b: &[u8]) -> (r: bool)
    ensures
        r == (a@ == b@),
{
    if a.len() != b.len() {
        return false;
    }
    let n = a.len();
    let mut i: usize = 0;
    while i < n
        invariant
            i <= n,
            n == a@.len(),
            n == b@.len(),
            forall|j: int| 0 <= j < i ==> a@[j] == b@[j],
        decreases n - i,
    {
        if a[i] != b[i] {
            return false;
        }
        i += 1;
    }
    assert(a@ =~= b@);
    true
}

impl<'i> Integrity<'i> {
    /// Whether `key` is the key of this value: the one it was set with, or
    /// the one whose HMAC over the received context equals the received MAC.
    pub open spec fn verifies(&self, key: Seq<u8>) -> bool {
        match *self {
            Integrity::Sign { key_data } => key == key_data@,
            Integrity::Check { val, ctx } => mac_of(key, ctx@) == val@,
        }
    }

    pub fn verify(&self, key_data: &[u8]) -> (r: bool)
        ensures
            r == self.verifies(key_data@),
    {
        match self {
            Integrity::Sign { key_data: actual } => bytes_equal(key_data, actual),
            Integrity::Check { val, ctx } => {
                let data = ctx.reduce_over_prefix();
                let expected = hmac_sha1(key_data, data.as_slice());
                assert(expected@ =~= mac_of(key_data@, ctx@));
                bytes_equal(expected.as_slice(), val.as_slice())
            },
        }
    }

    /// Decodes a received value, keeping the context it must be verified in.
    pub fn decode_check(buff: &'i [u8], ctx: AttrContext<'i>) -> (r: Result<Integrity<'i>, StunAttrDecodeErr>)
        ensures
            buff@.len() == 20 <==> r is Ok,
            r matches Ok(v) ==> v == (Integrity::Check { val: v->Check_val, ctx }) && v->Check_val@ == buff@,
            r matches Err(e) ==> e == StunAttrDecodeErr::UnexpectedLength,
    {
        match <&[u8; 20]>::decode(buff, ctx) {
            Ok(val) => Ok(Integrity::Check { val, ctx }),
            Err(e) => Err(e),
        }
    }
}

/// A key verifies a signing value exactly when it is the key it was set
/// with.
pub proof fn lemma_sign_verifies(key_data: &[u8], key: Seq<u8>)
    ensures
        (Integrity::Sign { key_data }).verifies(key) <==> key == key_data@,
{
}

/// A received MAC that a signing key wrote in some context verifies, in
/// that context, against that key.
pub proof fn lemma_check_verifies(key_data: &[u8], val: &[u8; 20], ctx: AttrContext)
    requires
        val@ == (Integrity::Sign { key_data }).wire(ctx@),
    ensures
        (Integrity::Check { val, ctx }).verifies(key_data@),
{
}

impl<'i> StunAttrValue<'i> for Integrity<'i> {
    open spec fn spec_length(&self) -> nat {
        20
    }

    open spec fn wire(&self, ctx: CtxView) -> Seq<u8> {
        match *self {
            Integrity::Check { val, .. } => val@,
            Integrity::Sign { key_data } => mac_of(key_data@, ctx),
        }
    }

    open spec fn decode_spec(b: Seq<u8>, ctx: CtxView) -> Result<IntegrityView, StunAttrDecodeErr> {
        if b.len() != 20 {
            Err(StunAttrDecodeErr::UnexpectedLength)
        } else {
            Ok(IntegrityView::Mac(b))
        }
    }

    /// A key decodes as the MAC it produced, not as itself.
    open spec fn round_trips(&self) -> bool {
        self is Check
    }

    proof fn lemma_wire_len(&self, ctx: CtxView) {
    }

    proof fn lemma_round_trip(&self, ctx: CtxView) {
    }

    fn length(&self) -> (r: u16) {
        20
    }

    fn encode(&self, buff: &mut [u8], ctx: AttrContext<'_>) {
        match self {
            Integrity::Check { val, .. } => val.encode(buff, ctx),
            Integrity::Sign { key_data } => {
                let data = ctx.reduce_over_prefix();
                let actual = hmac_sha1(key_data, data.as_slice());
                assert(actual@ =~= mac_of(key_data@, ctx@));
                (&actual).encode(buff, ctx)
            },
        }
    }

    fn decode(buff: &'i [u8], ctx: AttrContext<'i>) -> (r: Result<Integrity<'i>, StunAttrDecodeErr>) {
        Integrity::decode_check(buff, ctx)
    }
}

/// The view of an attribute: its kind and the model of its value.
pub enum AttrView {
    Mapped(AddrView),
    Username(Seq<char>),
    Integrity(IntegrityView),
    Error((u16, Seq<char>)),
    UnknownAttributes(Seq<u16>),
    Realm(Seq<char>),
    Nonce(Seq<char>),
    XMapped(AddrView),
    Software(Seq<char>),
    AlternateServer(AddrView),
    Fingerprint,
    Channel(u32),
    Lifetime(u32),
    XPeer(AddrView),
    Data(Seq<u8>),
    XRelayed(AddrView),
    EvenPort(bool),
    RequestedTransport(u8),
    DontFragment,
    ReservationToken(u32),
    Priority(u32),
    UseCandidate,
    IceControlled(u64),
    IceControlling(u64),
    Other(u16, Seq<u8>),
}

/// An attribute: the variant is the IANA attribute type, `Other` keeps any
/// type that is not listed here.
#[derive(Debug, Clone, Copy)]
pub enum StunAttr<'i> {
    // RFC 5389:
    /// Attribute type 0x0001.
    Mapped(ZeroXor<TransportAddr>),
    /// Attribute type 0x0006.
    Username(&'i str),
    /// Attribute type 0x0008.
    Integrity(Integrity<'i>),
    /// Attribute type 0x0009.
    Error(Error<'i>),
    /// Attribute type 0x000A.
    UnknownAttributes(UnknownAttributes<'i>),
    /// Attribute type 0x0014.
    Realm(&'i str),
    /// Attribute type 0x0015.
    Nonce(&'i str),
    /// Attribute type 0x0020.
    XMapped(TransportAddr),
    /// Attribute type 0x8022.
    Software(&'i str),
    /// Attribute type 0x8023.
    AlternateServer(TransportAddr),
    /// Attribute type 0x8028.
    Fingerprint,
    // RFC 5766:
    /// Attribute type 0x000C.
    Channel(u32),
    /// Attribute type 0x000D.
    Lifetime(u32),
    /// Attribute type 0x0012.
    XPeer(TransportAddr),
    /// Attribute type 0x0013.
    Data(&'i [u8]),
    /// Attribute type 0x0016.
    XRelayed(TransportAddr),
    /// Attribute type 0x0018.
    EvenPort(EvenPort),
    /// Attribute type 0x0019.
    RequestedTransport(RequestedTransport),
    /// Attribute type 0x001A.
    DontFragment,
    /// Attribute type 0x0022.
    ReservationToken(u32),
    // RFC 5245 / 8445:
    /// Attribute type 0x0024.
    Priority(u32),
    /// Attribute type 0x0025.
    UseCandidate,
    /// Attribute type 0x8029.
    IceControlled(u64),
    /// Attribute type 0x802A.
    IceControlling(u64),
    /// Any other attribute type, with its raw value.
    Other(u16, &'i [u8]),
}

/// Whether an attribute type has a variant of its own.
pub open spec fn is_known_type(typ: u16) -> bool {
    typ == 0x0001
        || typ == 0x0006
        || typ == 0x0008
        || typ == 0x0009
        || typ == 0x000A
        || typ == 0x0014
        || typ == 0x0015
        || typ == 0x0020
        || typ == 0x8022
        || typ == 0x8023
        || typ == 0x8028
        || typ == 0x000C
        || typ == 0x000D
        || typ == 0x0012
        || typ == 0x0013
        || typ == 0x0016
        || typ == 0x0018
        || typ == 0x0019
        || typ == 0x001A
        || typ == 0x0022
        || typ == 0x0024
        || typ == 0x0025
        || typ == 0x8029
        || typ == 0x802A
}

pub open spec fn lift<T>(
    r: Result<T, StunAttrDecodeErr>,
    f: spec_fn(T) -> AttrView,
) -> Result<AttrView, StunAttrDecodeErr> {
    match r {
        Ok(v) => Ok(f(v)),
        Err(e) => Err(e),
    }
}

impl<'i> View for StunAttr<'i> {
    type V = AttrView;

    open spec fn view(&self) -> AttrView {
        match *self {
            StunAttr::Mapped(x) => AttrView::Mapped(x@),
            StunAttr::Username(x) => AttrView::Username(x@),
            StunAttr::Integrity(x) => AttrView::Integrity(x@),
            StunAttr::Error(x) => AttrView::Error(x@),
            StunAttr::UnknownAttributes(x) => AttrView::UnknownAttributes(x@),
            StunAttr::Realm(x) => AttrView::Realm(x@),
            StunAttr::Nonce(x) => AttrView::Nonce(x@),
            StunAttr::XMapped(x) => AttrView::XMapped(x@),
            StunAttr::Software(x) => AttrView::Software(x@),
            StunAttr::AlternateServer(x) => AttrView::AlternateServer(x@),
            StunAttr::Fingerprint => AttrView::Fingerprint,
            StunAttr::Channel(x) => AttrView::Channel(x@),
            StunAttr::Lifetime(x) => AttrView::Lifetime(x@),
            StunAttr::XPeer(x) => AttrView::XPeer(x@),
            StunAttr::Data(x) => AttrView::Data(x@),
            StunAttr::XRelayed(x) => AttrView::XRelayed(x@),
            StunAttr::EvenPort(x) => AttrView::EvenPort(x@),
            StunAttr::RequestedTransport(x) => AttrView::RequestedTransport(x@),
            StunAttr::DontFragment => AttrView::DontFragment,
            StunAttr::ReservationToken(x) => AttrView::ReservationToken(x@),
            StunAttr::Priority(x) => AttrView::Priority(x@),
            StunAttr::UseCandidate => AttrView::UseCandidate,
            StunAttr::IceControlled(x) => AttrView::IceControlled(x@),
            StunAttr::IceControlling(x) => AttrView::IceControlling(x@),
            StunAttr::Other(t, x) => AttrView::Other(t, x@),
        }
    }
}

impl<'i> StunAttr<'i> {
    pub open spec fn spec_typ(&self) -> u16 {
        match *self {
            StunAttr::Mapped(_) => 0x0001,
            StunAttr::Username(_) => 0x0006,
            StunAttr::Integrity(_) => 0x0008,
            StunAttr::Error(_) => 0x0009,
            StunAttr::UnknownAttributes(_) => 0x000A,
            StunAttr::Realm(_) => 0x0014,
            StunAttr::Nonce(_) => 0x0015,
            StunAttr::XMapped(_) => 0x0020,
            StunAttr::Software(_) => 0x8022,
            StunAttr::AlternateServer(_) => 0x8023,
            StunAttr::Fingerprint => 0x8028,
            StunAttr::Channel(_) => 0x000C,
            StunAttr::Lifetime(_) => 0x000D,
            StunAttr::XPeer(_) => 0x0012,
            StunAttr::Data(_) => 0x0013,
            StunAttr::XRelayed(_) => 0x0016,
            StunAttr::EvenPort(_) => 0x0018,
            StunAttr::RequestedTransport(_) => 0x0019,
            StunAttr::DontFragment => 0x001A,
            StunAttr::ReservationToken(_) => 0x0022,
            StunAttr::Priority(_) => 0x0024,
            StunAttr::UseCandidate => 0x0025,
            StunAttr::IceControlled(_) => 0x8029,
            StunAttr::IceControlling(_) => 0x802A,
            StunAttr::Other(t, _) => t,
        }
    }

    /// The number of value bytes, before padding.
    pub open spec fn spec_length(&self) -> nat {
        match *self {
            StunAttr::Mapped(x) => x.spec_length(),
            StunAttr::Username(x) => x.spec_length(),
            StunAttr::Integrity(x) => x.spec_length(),
            StunAttr::Error(x) => x.spec_length(),
            StunAttr::UnknownAttributes(x) => x.spec_length(),
            StunAttr::Realm(x) => x.spec_length(),
            StunAttr::Nonce(x) => x.spec_length(),
            StunAttr::XMapped(x) => x.spec_length(),
            StunAttr::Software(x) => x.spec_length(),
            StunAttr::AlternateServer(x) => x.spec_length(),
            StunAttr::Fingerprint => Fingerprint.spec_length(),
            StunAttr::Channel(x) => x.spec_length(),
            StunAttr::Lifetime(x) => x.spec_length(),
            StunAttr::XPeer(x) => x.spec_length(),
            StunAttr::Data(x) => x.spec_length(),
            StunAttr::XRelayed(x) => x.spec_length(),
            StunAttr::EvenPort(x) => x.spec_length(),
            StunAttr::RequestedTransport(x) => x.spec_length(),
            StunAttr::DontFragment => ().spec_length(),
            StunAttr::ReservationToken(x) => x.spec_length(),
            StunAttr::Priority(x) => x.spec_length(),
            StunAttr::UseCandidate => ().spec_length(),
            StunAttr::IceControlled(x) => x.spec_length(),
            StunAttr::IceControlling(x) => x.spec_length(),
            StunAttr::Other(_, x) => x@.len(),
        }
    }

    /// The value bytes that `encode` writes in a context.
    pub open spec fn value_wire(&self, ctx: CtxView) -> Seq<u8> {
        match *self {
            StunAttr::Mapped(x) => x.wire(ctx),
            StunAttr::Username(x) => x.wire(ctx),
            StunAttr::Integrity(x) => x.wire(ctx),
            StunAttr::Error(x) => x.wire(ctx),
            StunAttr::UnknownAttributes(x) => x.wire(ctx),
            StunAttr::Realm(x) => x.wire(ctx),
            StunAttr::Nonce(x) => x.wire(ctx),
            StunAttr::XMapped(x) => x.wire(ctx),
            StunAttr::Software(x) => x.wire(ctx),
            StunAttr::AlternateServer(x) => x.wire(ctx),
            StunAttr::Fingerprint => Fingerprint.wire(ctx),
            StunAttr::Channel(x) => x.wire(ctx),
            StunAttr::Lifetime(x) => x.wire(ctx),
            StunAttr::XPeer(x) => x.wire(ctx),
            StunAttr::Data(x) => x.wire(ctx),
            StunAttr::XRelayed(x) => x.wire(ctx),
            StunAttr::EvenPort(x) => x.wire(ctx),
            StunAttr::RequestedTransport(x) => x.wire(ctx),
            StunAttr::DontFragment => ().wire(ctx),
            StunAttr::ReservationToken(x) => x.wire(ctx),
            StunAttr::Priority(x) => x.wire(ctx),
            StunAttr::UseCandidate => ().wire(ctx),
            StunAttr::IceControlled(x) => x.wire(ctx),
            StunAttr::IceControlling(x) => x.wire(ctx),
            StunAttr::Other(_, x) => x@,
        }
    }

    /// Values that decode back to themselves: an `Other` of a listed type
    /// comes back as that type.
    pub open spec fn round_trips(&self) -> bool {
        match *self {
            StunAttr::Mapped(x) => x.round_trips(),
            StunAttr::Username(x) => x.round_trips(),
            StunAttr::Integrity(x) => x.round_trips(),
            StunAttr::Error(x) => x.round_trips(),
            StunAttr::UnknownAttributes(x) => x.round_trips(),
            StunAttr::Realm(x) => x.round_trips(),
            StunAttr::Nonce(x) => x.round_trips(),
            StunAttr::XMapped(x) => x.round_trips(),
            StunAttr::Software(x) => x.round_trips(),
            StunAttr::AlternateServer(x) => x.round_trips(),
            StunAttr::Channel(x) => x.round_trips(),
            StunAttr::Lifetime(x) => x.round_trips(),
            StunAttr::XPeer(x) => x.round_trips(),
            StunAttr::Data(x) => x.round_trips(),
            StunAttr::XRelayed(x) => x.round_trips(),
            StunAttr::EvenPort(x) => x.round_trips(),
            StunAttr::RequestedTransport(x) => x.round_trips(),
            StunAttr::ReservationToken(x) => x.round_trips(),
            StunAttr::Priority(x) => x.round_trips(),
            StunAttr::IceControlled(x) => x.round_trips(),
            StunAttr::IceControlling(x) => x.round_trips(),
            StunAttr::Other(t, _) => !is_known_type(t),
            _ => true,
        }
    }

    /// What `decode` makes of an attribute type and its value bytes.
    pub open spec fn decode_spec(typ: u16, b: Seq<u8>, ctx: CtxView) -> Result<AttrView, StunAttrDecodeErr> {
        if typ == 0x0001 {
            lift(<ZeroXor<TransportAddr> as StunAttrValue<'i>>::decode_spec(b, ctx), |x: AddrView| AttrView::Mapped(x))
        } else if typ == 0x0006 {
            lift(<&'i str as StunAttrValue<'i>>::decode_spec(b, ctx), |x: Seq<char>| AttrView::Username(x))
        } else if typ == 0x0008 {
            lift(<Integrity<'i> as StunAttrValue<'i>>::decode_spec(b, ctx), |x: IntegrityView| AttrView::Integrity(x))
        } else if typ == 0x0009 {
            lift(<Error<'i> as StunAttrValue<'i>>::decode_spec(b, ctx), |x: (u16, Seq<char>)| AttrView::Error(x))
        } else if typ == 0x000A {
            lift(<UnknownAttributes<'i> as StunAttrValue<'i>>::decode_spec(b, ctx), |x: Seq<u16>| AttrView::UnknownAttributes(x))
        } else if typ == 0x0014 {
            lift(<&'i str as StunAttrValue<'i>>::decode_spec(b, ctx), |x: Seq<char>| AttrView::Realm(x))
        } else if typ == 0x0015 {
            lift(<&'i str as StunAttrValue<'i>>::decode_spec(b, ctx), |x: Seq<char>| AttrView::Nonce(x))
        } else if typ == 0x0020 {
            lift(<TransportAddr as StunAttrValue<'i>>::decode_spec(b, ctx), |x: AddrView| AttrView::XMapped(x))
        } else if typ == 0x8022 {
            lift(<&'i str as StunAttrValue<'i>>::decode_spec(b, ctx), |x: Seq<char>| AttrView::Software(x))
        } else if typ == 0x8023 {
            lift(<TransportAddr as StunAttrValue<'i>>::decode_spec(b, ctx), |x: AddrView| AttrView::AlternateServer(x))
        } else if typ == 0x8028 {
            lift(<Fingerprint as StunAttrValue<'i>>::decode_spec(b, ctx), |x: ()| AttrView::Fingerprint)
        } else if typ == 0x000C {
            lift(<u32 as StunAttrValue<'i>>::decode_spec(b, ctx), |x: u32| AttrView::Channel(x))
        } else if typ == 0x000D {
            lift(<u32 as StunAttrValue<'i>>::decode_spec(b, ctx), |x: u32| AttrView::Lifetime(x))
        } else if typ == 0x0012 {
            lift(<TransportAddr as StunAttrValue<'i>>::decode_spec(b, ctx), |x: AddrView| AttrView::XPeer(x))
        } else if typ == 0x0013 {
            lift(<&'i [u8] as StunAttrValue<'i>>::decode_spec(b, ctx), |x: Seq<u8>| AttrView::Data(x))
        } else if typ == 0x0016 {
            lift(<TransportAddr as StunAttrValue<'i>>::decode_spec(b, ctx), |x: AddrView| AttrView::XRelayed(x))
        } else if typ == 0x0018 {
            lift(<EvenPort as StunAttrValue<'i>>::decode_spec(b, ctx), |x: bool| AttrView::EvenPort(x))
        } else if typ == 0x0019 {
            lift(<RequestedTransport as StunAttrValue<'i>>::decode_spec(b, ctx), |x: u8| AttrView::RequestedTransport(x))
        } else if typ == 0x001A {
            lift(<() as StunAttrValue<'i>>::decode_spec(b, ctx), |x: ()| AttrView::DontFragment)
        } else if typ == 0x0022 {
            lift(<u32 as StunAttrValue<'i>>::decode_spec(b, ctx), |x: u32| AttrView::ReservationToken(x))
        } else if typ == 0x0024 {
            lift(<u32 as StunAttrValue<'i>>::decode_spec(b, ctx), |x: u32| AttrView::Priority(x))
        } else if typ == 0x0025 {
            lift(<() as StunAttrValue<'i>>::decode_spec(b, ctx), |x: ()| AttrView::UseCandidate)
        } else if typ == 0x8029 {
            lift(<u64 as StunAttrValue<'i>>::decode_spec(b, ctx), |x: u64| AttrView::IceControlled(x))
        } else if typ == 0x802A {
            lift(<u64 as StunAttrValue<'i>>::decode_spec(b, ctx), |x: u64| AttrView::IceControlling(x))
        } else {
            Ok(AttrView::Other(typ, b))
        }
    }

    pub proof fn lemma_wire_len(&self, ctx: CtxView)
        ensures
            self.value_wire(ctx).len() == self.spec_length(),
    {
        match *self {
            StunAttr::Mapped(x) => x.lemma_wire_len(ctx),
            StunAttr::Username(x) => x.lemma_wire_len(ctx),
            StunAttr::Integrity(x) => x.lemma_wire_len(ctx),
            StunAttr::Error(x) => x.lemma_wire_len(ctx),
            StunAttr::UnknownAttributes(x) => x.lemma_wire_len(ctx),
            StunAttr::Realm(x) => x.lemma_wire_len(ctx),
            StunAttr::Nonce(x) => x.lemma_wire_len(ctx),
            StunAttr::XMapped(x) => x.lemma_wire_len(ctx),
            StunAttr::Software(x) => x.lemma_wire_len(ctx),
            StunAttr::AlternateServer(x) => x.lemma_wire_len(ctx),
            StunAttr::Fingerprint => Fingerprint.lemma_wire_len(ctx),
            StunAttr::Channel(x) => x.lemma_wire_len(ctx),
            StunAttr::Lifetime(x) => x.lemma_wire_len(ctx),
            StunAttr::XPeer(x) => x.lemma_wire_len(ctx),
            StunAttr::Data(x) => x.lemma_wire_len(ctx),
            StunAttr::XRelayed(x) => x.lemma_wire_len(ctx),
            StunAttr::EvenPort(x) => x.lemma_wire_len(ctx),
            StunAttr::RequestedTransport(x) => x.lemma_wire_len(ctx),
            StunAttr::DontFragment => ().lemma_wire_len(ctx),
            StunAttr::ReservationToken(x) => x.lemma_wire_len(ctx),
            StunAttr::Priority(x) => x.lemma_wire_len(ctx),
            StunAttr::UseCandidate => ().lemma_wire_len(ctx),
            StunAttr::IceControlled(x) => x.lemma_wire_len(ctx),
            StunAttr::IceControlling(x) => x.lemma_wire_len(ctx),
            StunAttr::Other(_, _) => {},
        }
    }

    pub proof fn lemma_round_trip(&self, ctx: CtxView)
        requires
            ctx.wf(),
            self.round_trips(),
        ensures
            Self::decode_spec(self.spec_typ(), self.value_wire(ctx), ctx) == Ok::<AttrView, StunAttrDecodeErr>(self@),
    {
        match *self {
            StunAttr::Mapped(x) => x.lemma_round_trip(ctx),
            StunAttr::Username(x) => x.lemma_round_trip(ctx),
            StunAttr::Integrity(x) => x.lemma_round_trip(ctx),
            StunAttr::Error(x) => x.lemma_round_trip(ctx),
            StunAttr::UnknownAttributes(x) => x.lemma_round_trip(ctx),
            StunAttr::Realm(x) => x.lemma_round_trip(ctx),
            StunAttr::Nonce(x) => x.lemma_round_trip(ctx),
            StunAttr::XMapped(x) => x.lemma_round_trip(ctx),
            StunAttr::Software(x) => x.lemma_round_trip(ctx),
            StunAttr::AlternateServer(x) => x.lemma_round_trip(ctx),
            StunAttr::Fingerprint => Fingerprint.lemma_round_trip(ctx),
            StunAttr::Channel(x) => x.lemma_round_trip(ctx),
            StunAttr::Lifetime(x) => x.lemma_round_trip(ctx),
            StunAttr::XPeer(x) => x.lemma_round_trip(ctx),
            StunAttr::Data(x) => x.lemma_round_trip(ctx),
            StunAttr::XRelayed(x) => x.lemma_round_trip(ctx),
            StunAttr::EvenPort(x) => x.lemma_round_trip(ctx),
            StunAttr::RequestedTransport(x) => x.lemma_round_trip(ctx),
            StunAttr::DontFragment => ().lemma_round_trip(ctx),
            StunAttr::ReservationToken(x) => x.lemma_round_trip(ctx),
            StunAttr::Priority(x) => x.lemma_round_trip(ctx),
            StunAttr::UseCandidate => ().lemma_round_trip(ctx),
            StunAttr::IceControlled(x) => x.lemma_round_trip(ctx),
            StunAttr::IceControlling(x) => x.lemma_round_trip(ctx),
            StunAttr::Other(_, _) => {},
        }
    }

    /// The attribute type.
    pub fn typ(&self) -> (r: u16)
        ensures
            r == self.spec_typ(),
    {
        match self {
            StunAttr::Mapped(_) => 0x0001,
            StunAttr::Username(_) => 0x0006,
            StunAttr::Integrity(_) => 0x0008,
            StunAttr::Error(_) => 0x0009,
            StunAttr::UnknownAttributes(_) => 0x000A,
            StunAttr::Realm(_) => 0x0014,
            StunAttr::Nonce(_) => 0x0015,
            StunAttr::XMapped(_) => 0x0020,
            StunAttr::Software(_) => 0x8022,
            StunAttr::AlternateServer(_) => 0x8023,
            StunAttr::Fingerprint => 0x8028,
            StunAttr::Channel(_) => 0x000C,
            StunAttr::Lifetime(_) => 0x000D,
            StunAttr::XPeer(_) => 0x0012,
            StunAttr::Data(_) => 0x0013,
            StunAttr::XRelayed(_) => 0x0016,
            StunAttr::EvenPort(_) => 0x0018,
            StunAttr::RequestedTransport(_) => 0x0019,
            StunAttr::DontFragment => 0x001A,
            StunAttr::ReservationToken(_) => 0x0022,
            StunAttr::Priority(_) => 0x0024,
            StunAttr::UseCandidate => 0x0025,
            StunAttr::IceControlled(_) => 0x8029,
            StunAttr::IceControlling(_) => 0x802A,
            StunAttr::Other(t, _) => *t,
        }
    }

    /// The number of value bytes, before padding.
    pub fn length(&self) -> (r: u16)
        requires
            self.spec_length() <= u16::MAX,
        ensures
            r == self.spec_length(),
    {
        match self {
            StunAttr::Mapped(x) => x.length(),
            StunAttr::Username(x) => x.length(),
            StunAttr::Integrity(x) => x.length(),
            StunAttr::Error(x) => x.length(),
            StunAttr::UnknownAttributes(x) => x.length(),
            StunAttr::Realm(x) => x.length(),
            StunAttr::Nonce(x) => x.length(),
            StunAttr::XMapped(x) => x.length(),
            StunAttr::Software(x) => x.length(),
            StunAttr::AlternateServer(x) => x.length(),
            StunAttr::Fingerprint => Fingerprint.length(),
            StunAttr::Channel(x) => x.length(),
            StunAttr::Lifetime(x) => x.length(),
            StunAttr::XPeer(x) => x.length(),
            StunAttr::Data(x) => x.length(),
            StunAttr::XRelayed(x) => x.length(),
            StunAttr::EvenPort(x) => x.length(),
            StunAttr::RequestedTransport(x) => x.length(),
            StunAttr::DontFragment => ().length(),
            StunAttr::ReservationToken(x) => x.length(),
            StunAttr::Priority(x) => x.length(),
            StunAttr::UseCandidate => ().length(),
            StunAttr::IceControlled(x) => x.length(),
            StunAttr::IceControlling(x) => x.length(),
            StunAttr::Other(_, x) => x.len() as u16,
        }
    }

    /// Writes the value bytes.
    fn encode_value(&self, buff: &mut [u8], ctx: AttrContext<'_>)
        requires
            ctx@.wf(),
            old(buff)@.len() == self.spec_length(),
        ensures
            final(buff)@ == self.value_wire(ctx@),
    {
        match self {
            StunAttr::Mapped(x) => x.encode(buff, ctx),
            StunAttr::Username(x) => x.encode(buff, ctx),
            StunAttr::Integrity(x) => x.encode(buff, ctx),
            StunAttr::Error(x) => x.encode(buff, ctx),
            StunAttr::UnknownAttributes(x) => x.encode(buff, ctx),
            StunAttr::Realm(x) => x.encode(buff, ctx),
            StunAttr::Nonce(x) => x.encode(buff, ctx),
            StunAttr::XMapped(x) => x.encode(buff, ctx),
            StunAttr::Software(x) => x.encode(buff, ctx),
            StunAttr::AlternateServer(x) => x.encode(buff, ctx),
            StunAttr::Fingerprint => Fingerprint.encode(buff, ctx),
            StunAttr::Channel(x) => x.encode(buff, ctx),
            StunAttr::Lifetime(x) => x.encode(buff, ctx),
            StunAttr::XPeer(x) => x.encode(buff, ctx),
            StunAttr::Data(x) => x.encode(buff, ctx),
            StunAttr::XRelayed(x) => x.encode(buff, ctx),
            StunAttr::EvenPort(x) => x.encode(buff, ctx),
            StunAttr::RequestedTransport(x) => x.encode(buff, ctx),
            StunAttr::DontFragment => ().encode(buff, ctx),
            StunAttr::ReservationToken(x) => x.encode(buff, ctx),
            StunAttr::Priority(x) => x.encode(buff, ctx),
            StunAttr::UseCandidate => ().encode(buff, ctx),
            StunAttr::IceControlled(x) => x.encode(buff, ctx),
            StunAttr::IceControlling(x) => x.encode(buff, ctx),
            StunAttr::Other(_, x) => {
                write_bytes(buff, 0, x);
                assert(buff@ =~= x@);
            },
        }
    }

    /// Decodes the value bytes of an attribute of type `typ`.
    #[verifier::rlimit(60)]
    pub fn decode(typ: u16, buff: &'i [u8], ctx: AttrContext<'i>) -> (r: Result<StunAttr<'i>, StunAttrDecodeErr>)
        requires
            ctx@.wf(),
        ensures
            match r {
                Ok(a) => Self::decode_spec(typ, buff@, ctx@) == Ok::<AttrView, StunAttrDecodeErr>(a@)
                    && a.spec_typ() == typ
                    && (a matches StunAttr::Integrity(Integrity::Check { ctx: c, .. }) ==> c == ctx),
                Err(e) => Self::decode_spec(typ, buff@, ctx@) == Err::<AttrView, StunAttrDecodeErr>(e),
            },
    {
        match typ {
            0x0001 => match <ZeroXor<TransportAddr> as StunAttrValue<'i>>::decode(buff, ctx) {
                Ok(x) => Ok(StunAttr::Mapped(x)),
                Err(e) => Err(e),
            },
            0x0006 => match <&'i str as StunAttrValue<'i>>::decode(buff, ctx) {
                Ok(x) => Ok(StunAttr::Username(x)),
                Err(e) => Err(e),
            },
            0x0008 => match Integrity::decode_check(buff, ctx) {
                Ok(x) => Ok(StunAttr::Integrity(x)),
                Err(e) => Err(e),
            },
            0x0009 => match <Error<'i> as StunAttrValue<'i>>::decode(buff, ctx) {
                Ok(x) => Ok(StunAttr::Error(x)),
                Err(e) => Err(e),
            },
            0x000A => match <UnknownAttributes<'i> as StunAttrValue<'i>>::decode(buff, ctx) {
                Ok(x) => Ok(StunAttr::UnknownAttributes(x)),
                Err(e) => Err(e),
            },
            0x0014 => match <&'i str as StunAttrValue<'i>>::decode(buff, ctx) {
                Ok(x) => Ok(StunAttr::Realm(x)),
                Err(e) => Err(e),
            },
            0x0015 => match <&'i str as StunAttrValue<'i>>::decode(buff, ctx) {
                Ok(x) => Ok(StunAttr::Nonce(x)),
                Err(e) => Err(e),
            },
            0x0020 => match <TransportAddr as StunAttrValue<'i>>::decode(buff, ctx) {
                Ok(x) => Ok(StunAttr::XMapped(x)),
                Err(e) => Err(e),
            },
            0x8022 => match <&'i str as StunAttrValue<'i>>::decode(buff, ctx) {
                Ok(x) => Ok(StunAttr::Software(x)),
                Err(e) => Err(e),
            },
            0x8023 => match <TransportAddr as StunAttrValue<'i>>::decode(buff, ctx) {
                Ok(x) => Ok(StunAttr::AlternateServer(x)),
                Err(e) => Err(e),
            },
            0x8028 => match <Fingerprint as StunAttrValue<'i>>::decode(buff, ctx) {
                Ok(_) => Ok(StunAttr::Fingerprint),
                Err(e) => Err(e),
            },
            0x000C => match <u32 as StunAttrValue<'i>>::decode(buff, ctx) {
                Ok(x) => Ok(StunAttr::Channel(x)),
                Err(e) => Err(e),
            },
            0x000D => match <u32 as StunAttrValue<'i>>::decode(buff, ctx) {
                Ok(x) => Ok(StunAttr::Lifetime(x)),
                Err(e) => Err(e),
            },
            0x0012 => match <TransportAddr as StunAttrValue<'i>>::decode(buff, ctx) {
                Ok(x) => Ok(StunAttr::XPeer(x)),
                Err(e) => Err(e),
            },
            0x0013 => match <&'i [u8] as StunAttrValue<'i>>::decode(buff, ctx) {
                Ok(x) => Ok(StunAttr::Data(x)),
                Err(e) => Err(e),
            },
            0x0016 => match <TransportAddr as StunAttrValue<'i>>::decode(buff, ctx) {
                Ok(x) => Ok(StunAttr::XRelayed(x)),
                Err(e) => Err(e),
            },
            0x0018 => match <EvenPort as StunAttrValue<'i>>::decode(buff, ctx) {
                Ok(x) => Ok(StunAttr::EvenPort(x)),
                Err(e) => Err(e),
            },
            0x0019 => match <RequestedTransport as StunAttrValue<'i>>::decode(buff, ctx) {
                Ok(x) => Ok(StunAttr::RequestedTransport(x)),
                Err(e) => Err(e),
            },
            0x001A => match <() as StunAttrValue<'i>>::decode(buff, ctx) {
                Ok(_) => Ok(StunAttr::DontFragment),
                Err(e) => Err(e),
            },
            0x0022 => match <u32 as StunAttrValue<'i>>::decode(buff, ctx) {
                Ok(x) => Ok(StunAttr::ReservationToken(x)),
                Err(e) => Err(e),
            },
            0x0024 => match <u32 as StunAttrValue<'i>>::decode(buff, ctx) {
                Ok(x) => Ok(StunAttr::Priority(x)),
                Err(e) => Err(e),
            },
            0x0025 => match <() as StunAttrValue<'i>>::decode(buff, ctx) {
                Ok(_) => Ok(StunAttr::UseCandidate),
                Err(e) => Err(e),
            },
            0x8029 => match <u64 as StunAttrValue<'i>>::decode(buff, ctx) {
                Ok(x) => Ok(StunAttr::IceControlled(x)),
                Err(e) => Err(e),
            },
            0x802A => match <u64 as StunAttrValue<'i>>::decode(buff, ctx) {
                Ok(x) => Ok(StunAttr::IceControlling(x)),
                Err(e) => Err(e),
            },
            _ => Ok(StunAttr::Other(typ, buff)),
        }
    }
}

impl<'i> StunAttr<'i> {
    /// The TLV bytes that `encode` writes in a context: type, unpadded
    /// length, value.
    pub open spec fn tlv(&self, ctx: CtxView) -> Seq<u8> {
        be16(self.spec_typ()) + be16(self.spec_length() as u16) + self.value_wire(ctx)
    }

    /// Whether the TLV length fits its 16-bit field.
    pub open spec fn wf(&self) -> bool {
        4 + self.spec_length() <= u16::MAX
    }

    /// Whether the TLV length fits its 16-bit field.
    pub fn fits(&self) -> (r: bool)
        ensures
            r == self.wf(),
    {
        match self {
            StunAttr::Username(s) => s.as_bytes().len() <= 65531,
            StunAttr::Realm(s) => s.as_bytes().len() <= 65531,
            StunAttr::Nonce(s) => s.as_bytes().len() <= 65531,
            StunAttr::Software(s) => s.as_bytes().len() <= 65531,
            StunAttr::Error(e) => e.message.as_bytes().len() <= 65527,
            StunAttr::UnknownAttributes(UnknownAttributes::Parse(s)) => s.len() <= 65531,
            StunAttr::UnknownAttributes(UnknownAttributes::List(l)) => l.len() <= 32765,
            StunAttr::Data(d) => d.len() <= 65531,
            StunAttr::Other(_, d) => d.len() <= 65531,
            _ => true,
        }
    }

    /// The TLV length: header and value, before padding.
    pub fn len(&self) -> (r: u16)
        requires
            self.wf(),
        ensures
            r == 4 + self.spec_length(),
    {
        4 + self.length()
    }

    /// Writes the TLV: type, unpadded length, then the value.
    pub fn encode(&self, buff: &mut [u8], ctx: AttrContext<'_>)
        requires
            self.wf(),
            ctx@.wf(),
            old(buff)@.len() == 4 + self.spec_length(),
        ensures
            final(buff)@ == self.tlv(ctx@),
    {
        let typ = self.typ();
        let length = self.length();
        let (head, value) = buff.split_at_mut(4);
        write_u16(head, 0, typ);
        write_u16(head, 2, length);
        self.encode_value(value, ctx);
        proof {
            assert(head@ =~= be16(typ) + be16(length));
        }
    }
}

} // verus!
