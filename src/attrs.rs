//! The attributes of a message: still on the wire, or listed for encoding.
use vstd::prelude::*;

pub mod flat;

use crate::attr::{
    mac_of, AttrContext, AttrView, CtxView, Integrity, IntegrityView, StunAttr, StunAttrDecodeErr,
};
use crate::wire::{be16, lemma_u16_round_trip, read_u16, u16_of, write_bytes};

verus! {

/// `n` rounded up to a multiple of four.
pub open spec fn pad4(n: nat) -> nat {
    (n + (4 - n % 4) % 4) as nat
}

/// The context an attribute is coded in: the header, the attribute bytes
/// before it, and its own unpadded TLV length.
pub open spec fn ctx_at(header: Seq<u8>, prefix: Seq<u8>, attr_len: nat) -> CtxView {
    CtxView { header, zero_xor_bytes: false, attrs_prefix: prefix, attr_len: attr_len as u16 }
}

/// An attribute on the wire after `prefix`: its TLV, then zero padding up
/// to a multiple of four.
pub open spec fn piece(a: StunAttr, header: Seq<u8>, prefix: Seq<u8>) -> Seq<u8> {
    let n = 4 + a.spec_length();
    a.tlv(ctx_at(header, prefix, n)) + Seq::new((pad4(n as nat) - n) as nat, |i: int| 0u8)
}

/// The bytes of listed attributes, each coded after those before it.
pub open spec fn list_wire(l: Seq<StunAttr>, header: Seq<u8>) -> Seq<u8>
    decreases l.len(),
{
    if l.len() == 0 {
        seq![]
    } else {
        let w = list_wire(l.drop_last(), header);
        w + piece(l.last(), header, w)
    }
}

/// The length of listed attributes, padding included.
pub open spec fn list_len(l: Seq<StunAttr>) -> nat
    decreases l.len(),
{
    if l.len() == 0 {
        0
    } else {
        list_len(l.drop_last()) + pad4(4 + l.last().spec_length())
    }
}

/// One step of the walk over attribute bytes from `cursor`: what the
/// attribute there decodes to, and where the next one starts.
pub open spec fn parse_step(buff: Seq<u8>, header: Seq<u8>, cursor: nat) -> (
    Result<AttrView, StunAttrDecodeErr>,
    nat,
) {
    let c = cursor as int;
    let typ = u16_of(buff[c], buff[c + 1]);
    let n: int = 4 + u16_of(buff[c + 2], buff[c + 3]);
    let next = cursor + pad4(n as nat);
    if buff.len() - c < n {
        (Err(StunAttrDecodeErr::AttrLengthExceedsPacketLength), next)
    } else {
        (
            StunAttr::decode_spec(
                typ,
                buff.subrange(c + 4, c + n),
                ctx_at(header, buff.subrange(0, c), n as nat),
            ),
            next,
        )
    }
}

/// The attributes that bytes hold from `cursor` on, or the first error.
/// Fewer than four bytes left end the walk.
pub open spec fn parse_attrs(buff: Seq<u8>, header: Seq<u8>, cursor: nat) -> Result<
    Seq<AttrView>,
    StunAttrDecodeErr,
>
    decreases buff.len() + 0x10000 - cursor,
{
    if cursor + 4 > buff.len() {
        Ok(seq![])
    } else {
        let (r, next) = parse_step(buff, header, cursor);
        match r {
            Err(e) => Err(e),
            Ok(a) => match parse_attrs(buff, header, next) {
                Ok(rest) => Ok(seq![a] + rest),
                Err(e) => Err(e),
            },
        }
    }
}

/// The attributes of a message: `Parse` refers to the bytes of a received
/// message and decodes them on demand; `List` holds attributes to encode.
#[derive(Debug, Clone, Copy)]
pub enum StunAttrs<'i> {
    Parse { buff: &'i [u8], header: &'i [u8; 20] },
    List(&'i [StunAttr<'i>]),
}

impl<'i> StunAttrs<'i> {
    /// Whether the attributes fit the 16-bit length field.
    pub open spec fn wf(&self) -> bool {
        match *self {
            StunAttrs::Parse { buff, .. } => buff@.len() <= u16::MAX,
            StunAttrs::List(l) => {
                &&& forall|i: int| 0 <= i < l@.len() ==> (#[trigger] l@[i]).wf()
                &&& list_len(l@) <= u16::MAX
            },
        }
    }

    /// The length of the attributes on the wire, padding included.
    pub open spec fn spec_length(&self) -> nat {
        match *self {
            StunAttrs::Parse { buff, .. } => buff@.len(),
            StunAttrs::List(l) => list_len(l@),
        }
    }

    /// The bytes of the attributes under a header.
    pub open spec fn wire(&self, header: Seq<u8>) -> Seq<u8> {
        match *self {
            StunAttrs::Parse { buff, .. } => buff@,
            StunAttrs::List(l) => list_wire(l@, header),
        }
    }

    /// The attributes, or the first error found in decoding them.
    pub open spec fn spec_attrs(&self) -> Result<Seq<AttrView>, StunAttrDecodeErr> {
        match *self {
            StunAttrs::Parse { buff, header } => parse_attrs(buff@, header@, 0),
            StunAttrs::List(l) => Ok(l@.map_values(|a: StunAttr| a@)),
        }
    }

    /// The length of the attributes on the wire, padding included.
    pub fn length(&self) -> (r: u16)
        requires
            self.wf(),
        ensures
            r == self.spec_length(),
    {
        match self {
            StunAttrs::Parse { buff, .. } => buff.len() as u16,
            StunAttrs::List(l) => {
                let n = l.len();
                let mut ret: u16 = 0;
                let mut i: usize = 0;
                while i < n
                    invariant
                        i <= n,
                        n == l@.len(),
                        forall|j: int| 0 <= j < l@.len() ==> (#[trigger] l@[j]).wf(),
                        list_len(l@) <= u16::MAX,
                        ret == list_len(l@.take(i as int)),
                    decreases n - i,
                {
                    proof {
                        assert(l@.take(i + 1).drop_last() =~= l@.take(i as int));
                        lemma_list_len_prefix(l@, i + 1);
                    }
                    let attr_len = l[i].len();
                    ret = ret + padded(attr_len);
                    i += 1;
                }
                assert(l@.take(n as int) =~= l@);
                ret
            },
        }
    }
}

impl<'i> StunAttrs<'i> {
    /// Writes the attributes, each coded in the context of the header and
    /// of the bytes written before it, and padded with zeros.
    pub fn encode(&self, buff: &mut [u8], header: &[u8; 20])
        requires
            self.wf(),
            old(buff)@.len() == self.spec_length(),
        ensures
            final(buff)@ == self.wire(header@),
    {
        match self {
            StunAttrs::Parse { buff: parse, .. } => {
                write_bytes(buff, 0, parse);
                assert(buff@ =~= parse@);
            },
            StunAttrs::List(l) => {
                let n = l.len();
                let mut length: usize = 0;
                let mut i: usize = 0;
                while i < n
                    invariant
                        i <= n,
                        n == l@.len(),
                        forall|j: int| 0 <= j < l@.len() ==> (#[trigger] l@[j]).wf(),
                        list_len(l@) <= u16::MAX,
                        buff@.len() == list_len(l@),
                        buff.len() == buff@.len(),
                        length == list_len(l@.take(i as int)),
                        buff@.subrange(0, length as int) == list_wire(l@.take(i as int), header@),
                    decreases n - i,
                {
                    proof {
                        assert(l@.take(i + 1).drop_last() =~= l@.take(i as int));
                        assert(l@.take(i + 1).last() == l@[i as int]);
                        lemma_list_len_prefix(l@, i + 1);
                    }
                    let attr = &l[i];
                    let attr_len = attr.len();
                    let total = padded(attr_len) as usize;
                    let (prefix, rest) = buff.split_at_mut(length);
                    let (slot, _) = rest.split_at_mut(total);
                    let (value, pad) = slot.split_at_mut(attr_len as usize);
                    let ctx = AttrContext {
                        header,
                        zero_xor_bytes: false,
                        attrs_prefix: &*prefix,
                        attr_len,
                    };
                    assert(ctx@ == ctx_at(header@, list_wire(l@.take(i as int), header@), attr_len as nat));
                    attr.encode(value, ctx);
                    zero_fill(pad);
                    proof {
                        assert(buff@.subrange(0, length + total) =~= list_wire(l@.take(i + 1), header@));
                    }
                    length = length + total;
                    i += 1;
                }
                assert(l@.take(n as int) =~= l@);
                assert(buff@ =~= buff@.subrange(0, length as int));
            },
        }
    }
}

/// A walk over attributes. On the wire it decodes one TLV per step and
/// hands each attribute the bytes before it as its context.
pub enum StunAttrsIter<'i, 'a> {
    Parse { header: &'i [u8; 20], buff: &'i [u8], length: usize },
    List { list: &'a [StunAttr<'i>], index: usize },
}

impl<'i, 'a> StunAttrsIter<'i, 'a> {
    /// What the next step yields, if anything.
    pub open spec fn spec_peek(&self) -> Option<Result<AttrView, StunAttrDecodeErr>> {
        match *self {
            StunAttrsIter::Parse { header, buff, length } => {
                if length + 4 > buff@.len() {
                    None
                } else {
                    Some(parse_step(buff@, header@, length as nat).0)
                }
            },
            StunAttrsIter::List { list, index } => {
                if index >= list@.len() {
                    None
                } else {
                    Some(Ok(list@[index as int]@))
                }
            },
        }
    }

    /// The walk after the next step.
    pub open spec fn spec_advance(&self) -> Self {
        match *self {
            StunAttrsIter::Parse { header, buff, length } => {
                if length + 4 > buff@.len() {
                    *self
                } else {
                    StunAttrsIter::Parse {
                        header,
                        buff,
                        length: parse_step(buff@, header@, length as nat).1 as usize,
                    }
                }
            },
            StunAttrsIter::List { list, index } => {
                if index >= list@.len() {
                    *self
                } else {
                    StunAttrsIter::List { list, index: (index + 1) as usize }
                }
            },
        }
    }

    pub open spec fn wf(&self) -> bool {
        match *self {
            StunAttrsIter::Parse { buff, length, .. } => buff@.len() <= u16::MAX && length
                <= buff@.len() + 0x10000,
            StunAttrsIter::List { .. } => true,
        }
    }

    /// The next attribute, or the error that stopped its decoding.
    pub fn next(&mut self) -> (r: Option<Result<StunAttr<'i>, StunAttrDecodeErr>>)
        requires
            old(self).wf(),
        ensures
            final(self).wf(),
            *final(self) == old(self).spec_advance(),
            r is None <==> old(self).spec_peek() is None,
            r matches Some(Ok(a)) ==> old(self).spec_peek() == Some(Ok::<AttrView, StunAttrDecodeErr>(a@)),
            r matches Some(Err(e)) ==> old(self).spec_peek() == Some(Err::<AttrView, StunAttrDecodeErr>(e)),
            match *old(self) {
                // A listed attribute is handed out as it is.
                StunAttrsIter::List { list, index } => index < list@.len() ==> r == Some(
                    Ok::<StunAttr, StunAttrDecodeErr>(list@[index as int]),
                ),
                // A received MESSAGE-INTEGRITY keeps the context it is to be verified in.
                StunAttrsIter::Parse { header, buff, length } => r matches Some(
                    Ok(StunAttr::Integrity(Integrity::Check { ctx: c, .. })),
                ) ==> c@ == ctx_at(
                    header@,
                    buff@.subrange(0, length as int),
                    (4 + u16_of(buff@[length + 2], buff@[length + 3])) as nat,
                ),
            },
    {
        match *self {
            StunAttrsIter::List { list, index } => {
                if index >= list.len() {
                    return None;
                }
                *self = StunAttrsIter::List { list, index: index + 1 };
                Some(Ok(list[index]))
            },
            StunAttrsIter::Parse { header, buff, length } => {
                if length > buff.len() || buff.len() - length < 4 {
                    return None;
                }
                let typ = read_u16(buff, length);
                let attr_length = read_u16(buff, length + 2);
                let attr_len: usize = 4 + attr_length as usize;
                let next = length + attr_len + (4 - attr_len % 4) % 4;
                let r = if buff.len() - length < attr_len {
                    Err(StunAttrDecodeErr::AttrLengthExceedsPacketLength)
                } else {
                    let (attrs_prefix, _) = buff.split_at(length);
                    let data = &buff[length + 4..length + attr_len];
                    let ctx = AttrContext {
                        header,
                        zero_xor_bytes: false,
                        attrs_prefix,
                        attr_len: attr_len as u16,
                    };
                    assert(ctx@ == ctx_at(header@, buff@.subrange(0, length as int), attr_len as nat));
                    StunAttr::decode(typ, data, ctx)
                };
                *self = StunAttrsIter::Parse { header, buff, length: next };
                Some(r)
            },
        }
    }
}

impl<'i> StunAttrs<'i> {
    /// Attributes listed for encoding.
    pub fn from(value: &'i [StunAttr<'i>]) -> (r: StunAttrs<'i>)
        ensures
            r == StunAttrs::List(value),
    {
        StunAttrs::List(value)
    }

    /// A walk over the attributes from the first.
    pub fn into_iter<'a>(&'a self) -> (r: StunAttrsIter<'i, 'a>)
        requires
            self.wf(),
        ensures
            r.wf(),
            match *self {
                StunAttrs::Parse { buff, header } => r == (StunAttrsIter::Parse {
                    header,
                    buff,
                    length: 0,
                }),
                StunAttrs::List(l) => r == (StunAttrsIter::List { list: l, index: 0 }),
            },
    {
        match self {
            StunAttrs::Parse { buff, header } => StunAttrsIter::Parse { header, buff, length: 0 },
            StunAttrs::List(l) => StunAttrsIter::List { list: l, index: 0 },
        }
    }
}

/// Sets every byte to zero.
pub fn zero_fill(buff: &mut [u8])
    ensures
        final(buff)@ == Seq::new(old(buff)@.len(), |i: int| 0u8),
{
    let n = buff.len();
    let mut i: usize = 0;
    while i < n
        invariant
            i <= n,
            buff@.len() == n,
            forall|j: int| 0 <= j < i ==> buff@[j] == 0u8,
        decreases n - i,
    {
        buff[i] = 0;
        i += 1;
    }
    assert(buff@ =~= Seq::new(n as nat, |i: int| 0u8));
}

/// The bytes of listed attributes are as long as their length.
pub proof fn lemma_list_wire_len(l: Seq<StunAttr>, header: Seq<u8>)
    ensures
        list_wire(l, header).len() == list_len(l),
    decreases l.len(),
{
    if l.len() > 0 {
        lemma_list_wire_len(l.drop_last(), header);
        let w = list_wire(l.drop_last(), header);
        let n = 4 + l.last().spec_length();
        l.last().lemma_wire_len(ctx_at(header, w, n));
    }
}

impl<'i> StunAttrs<'i> {
    /// The length of the attributes on the wire, if it fits the 16-bit
    /// length field.
    pub fn checked_length(&self) -> (r: Option<u16>)
        ensures
            r is Some <==> self.wf(),
            r matches Some(n) ==> n == self.spec_length(),
    {
        match self {
            StunAttrs::Parse { buff, .. } => {
                if buff.len() <= 65535 {
                    Some(buff.len() as u16)
                } else {
                    None
                }
            },
            StunAttrs::List(l) => {
                let n = l.len();
                let mut ret: u16 = 0;
                let mut i: usize = 0;
                while i < n
                    invariant
                        i <= n,
                        n == l@.len(),
                        forall|j: int| 0 <= j < i ==> (#[trigger] l@[j]).wf(),
                        ret == list_len(l@.take(i as int)),
                        self.wf() <==> (forall|j: int| 0 <= j < l@.len() ==> (#[trigger] l@[j]).wf())
                            && list_len(l@) <= u16::MAX,
                        self.spec_length() == list_len(l@),
                    decreases n - i,
                {
                    proof {
                        assert(l@.take(i + 1).drop_last() =~= l@.take(i as int));
                    }
                    proof {
                        assert(l@.take(i + 1).last() == l@[i as int]);
                    }
                    if !l[i].fits() {
                        assert(!l@[i as int].wf());
                        assert(!self.wf());
                        return None;
                    }
                    let attr_len = l[i].len();
                    if attr_len > 65532 {
                        proof {
                            lemma_list_len_prefix(l@, i + 1);
                            assert(list_len(l@.take(i + 1)) > 65535);
                        }
                        return None;
                    }
                    let p = padded(attr_len);
                    if ret > 65535 - p {
                        proof {
                            lemma_list_len_prefix(l@, i + 1);
                        }
                        return None;
                    }
                    ret = ret + p;
                    i += 1;
                }
                assert(l@.take(n as int) =~= l@);
                Some(ret)
            },
        }
    }
}

/// The bytes of a prefix of a list start the bytes of the list.
pub proof fn lemma_list_wire_prefix(l: Seq<StunAttr>, header: Seq<u8>, j: int)
    requires
        0 <= j <= l.len(),
    ensures
        list_len(l.take(j)) <= list_wire(l, header).len(),
        list_wire(l, header).subrange(0, list_len(l.take(j)) as int) == list_wire(l.take(j), header),
    decreases l.len(),
{
    lemma_list_wire_len(l, header);
    lemma_list_wire_len(l.take(j), header);
    if j == l.len() {
        assert(l.take(j) =~= l);
        assert(list_wire(l, header).subrange(0, list_wire(l, header).len() as int) =~= list_wire(l, header));
    } else {
        let l2 = l.drop_last();
        lemma_list_wire_prefix(l2, header, j);
        assert(l2.take(j) =~= l.take(j));
        lemma_list_wire_len(l2, header);
        let w = list_wire(l, header);
        let w2 = list_wire(l2, header);
        assert(w.subrange(0, list_len(l.take(j)) as int) =~= w2.subrange(0, list_len(l.take(j)) as int));
    }
}

/// Listed lengths are multiples of four.
pub proof fn lemma_list_len_aligned(l: Seq<StunAttr>)
    ensures
        list_len(l) % 4 == 0,
    decreases l.len(),
{
    if l.len() > 0 {
        lemma_list_len_aligned(l.drop_last());
    }
}

/// A declared attribute length that runs past the remaining bytes stops
/// the walk with `AttrLengthExceedsPacketLength`.
pub proof fn lemma_attr_overrun(buff: Seq<u8>, header: Seq<u8>, cursor: nat)
    requires
        cursor + 4 <= buff.len(),
        buff.len() - cursor < 4 + u16_of(buff[cursor as int + 2], buff[cursor as int + 3]),
    ensures
        parse_attrs(buff, header, cursor) == Err::<Seq<AttrView>, StunAttrDecodeErr>(
            StunAttrDecodeErr::AttrLengthExceedsPacketLength,
        ),
{
}

/// What an attribute comes back as once coded in a context: itself, except
/// that a MESSAGE-INTEGRITY key comes back as the MAC it produced there.
pub open spec fn echo(a: StunAttr, ctx: CtxView) -> AttrView {
    match a {
        StunAttr::Integrity(Integrity::Sign { key_data }) => AttrView::Integrity(
            IntegrityView::Mac(mac_of(key_data@, ctx)),
        ),
        _ => a@,
    }
}

/// Attributes that come back as their echo.
pub open spec fn echoes_back(a: StunAttr) -> bool {
    a.round_trips() || a matches StunAttr::Integrity(Integrity::Sign { .. })
}

/// The context the `i`-th listed attribute is coded in.
pub open spec fn list_ctx(l: Seq<StunAttr>, header: Seq<u8>, i: int) -> CtxView {
    ctx_at(header, list_wire(l.take(i), header), 4 + l[i].spec_length())
}

/// What listed attributes come back as, each in its own context.
pub open spec fn echoes(l: Seq<StunAttr>, header: Seq<u8>) -> Seq<AttrView> {
    Seq::new(l.len(), |i: int| echo(l[i], list_ctx(l, header, i)))
}

/// An attribute coded after `prefix` is read back from where it stands.
proof fn lemma_parse_piece(w: Seq<u8>, header: Seq<u8>, c: int, a: StunAttr, prefix: Seq<u8>)
    requires
        header.len() == 20,
        a.wf(),
        echoes_back(a),
        0 <= c,
        c + pad4((4 + a.spec_length()) as nat) <= w.len(),
        w.subrange(0, c) == prefix,
        w.subrange(c, c + pad4((4 + a.spec_length()) as nat)) == piece(a, header, prefix),
    ensures
        parse_step(w, header, c as nat) == (
            Ok::<AttrView, StunAttrDecodeErr>(
                echo(a, ctx_at(header, prefix, (4 + a.spec_length()) as nat)),
            ),
            (c + pad4((4 + a.spec_length()) as nat)) as nat,
        ),
{
    let n: int = 4 + a.spec_length() as int;
    let ctx = ctx_at(header, prefix, n as nat);
    a.lemma_wire_len(ctx);
    if a.round_trips() {
        a.lemma_round_trip(ctx);
    }
    let p = piece(a, header, prefix);
    let t = a.tlv(ctx);
    assert(p == t + Seq::new((pad4(n as nat) - n) as nat, |i: int| 0u8));
    assert forall|i: int| 0 <= i < n implies w[c + i] == #[trigger] t[i] by {
        assert(w.subrange(c, c + pad4(n as nat))[i] == p[i]);
    }
    lemma_u16_round_trip(a.spec_typ());
    lemma_u16_round_trip(a.spec_length() as u16);
    assert(w[c + 0] == t[0]);
    assert(w[c + 1] == t[1]);
    assert(w[c + 2] == t[2]);
    assert(w[c + 3] == t[3]);
    let v = a.value_wire(ctx);
    assert forall|i: int| 0 <= i < n - 4 implies #[trigger] w.subrange(c + 4, c + n)[i] == v[i] by {
        assert(w[c + (4 + i)] == t[4 + i]);
        assert(t[4 + i] == v[i]);
    }
    assert(w.subrange(c + 4, c + n) =~= v);
}

/// Walking the bytes of listed attributes from the `k`-th one on gives back
/// the views of those attributes.
proof fn lemma_parse_list_from(l: Seq<StunAttr>, header: Seq<u8>, k: int)
    requires
        header.len() == 20,
        0 <= k <= l.len(),
        list_len(l) <= u16::MAX,
        forall|i: int| 0 <= i < l.len() ==> (#[trigger] l[i]).wf() && echoes_back(l[i]),
    ensures
        parse_attrs(list_wire(l, header), header, list_len(l.take(k))) == Ok::<
            Seq<AttrView>,
            StunAttrDecodeErr,
        >(echoes(l, header).skip(k)),
    decreases l.len() - k,
{
    let w = list_wire(l, header);
    lemma_list_wire_len(l, header);
    let c: int = list_len(l.take(k)) as int;
    if k == l.len() {
        assert(l.take(k) =~= l);
        assert(echoes(l, header).skip(k) =~= seq![]);
    } else {
        lemma_parse_list_from(l, header, k + 1);
        lemma_list_wire_prefix(l, header, k + 1);
        lemma_list_wire_prefix(l, header, k);
        lemma_list_len_prefix(l, k + 1);
        let a = l[k];
        assert(l.take(k + 1).drop_last() =~= l.take(k));
        assert(l.take(k + 1).last() == a);
        let prefix = list_wire(l.take(k), header);
        lemma_list_wire_len(l.take(k), header);
        let n: int = 4 + a.spec_length() as int;
        let ctx = ctx_at(header, prefix, n as nat);
        a.lemma_wire_len(ctx);
        let p = piece(a, header, prefix);
        assert(list_wire(l.take(k + 1), header) == prefix + p);
        assert(w.subrange(c, c + pad4(n as nat)) =~= p) by {
            assert(w.subrange(0, c + pad4(n as nat)) == prefix + p);
            assert(w.subrange(c, c + pad4(n as nat)) =~= (prefix + p).subrange(c, c + pad4(n as nat)));
        }
        assert(w.subrange(0, c) == prefix);
        lemma_parse_piece(w, header, c, a, prefix);
        assert(echoes(l, header)[k] == echo(a, ctx));
        assert(echoes(l, header).skip(k) =~= seq![echoes(l, header)[k]] + echoes(l, header).skip(k + 1));
    }
}

/// Walking the bytes of listed attributes gives back what each one echoes.
pub proof fn lemma_parse_list(l: Seq<StunAttr>, header: Seq<u8>)
    requires
        header.len() == 20,
        list_len(l) <= u16::MAX,
        forall|i: int| 0 <= i < l.len() ==> (#[trigger] l[i]).wf() && echoes_back(l[i]),
    ensures
        parse_attrs(list_wire(l, header), header, 0) == Ok::<Seq<AttrView>, StunAttrDecodeErr>(
            echoes(l, header),
        ),
{
    lemma_parse_list_from(l, header, 0);
    assert(l.take(0) =~= seq![]);
    assert(echoes(l, header).skip(0) =~= echoes(l, header));
}

/// `n` rounded up to a multiple of four.
pub fn padded(n: u16) -> (r: u16)
    requires
        n <= u16::MAX - 3,
    ensures
        r == pad4(n as nat),
{
    n + (4 - n % 4) % 4
}

/// A prefix of a list is no longer than the list.
pub proof fn lemma_list_len_prefix(l: Seq<StunAttr>, k: int)
    requires
        0 <= k <= l.len(),
    ensures
        list_len(l.take(k)) <= list_len(l),
    decreases l.len() - k,
{
    if k < l.len() {
        lemma_list_len_prefix(l, k + 1);
        assert(l.take(k + 1).drop_last() =~= l.take(k));
    } else {
        assert(l.take(k) =~= l);
    }
}

} // verus!
