//! Transport addresses and their (optionally XOR-masked) wire form.
use vstd::prelude::*;

use crate::attr::{xor_seq, AttrContext, CtxView, StunAttrDecodeErr, StunAttrValue};
use crate::wire::{be16, lemma_u16_round_trip, u16_of};

verus! {

/// An IP address and a port.
#[derive(Debug, Clone, Copy, PartialEq, Eq)]
#[allow(inconsistent_fields)]
pub enum TransportAddr {
    V4 { ip: [u8; 4], port: u16 },
    V6 { ip: [u8; 16], port: u16 },
}

/// A transport address as the wire sees it: IPv4 or IPv6 octets and a port.
pub enum AddrView {
    V4 { ip: Seq<u8>, port: u16 },
    V6 { ip: Seq<u8>, port: u16 },
}

/// Whether sixteen octets are an IPv4-mapped IPv6 address (`::ffff:a.b.c.d`).
pub open spec fn is_ipv4_mapped(ip: Seq<u8>) -> bool {
    &&& ip.len() == 16
    &&& forall|i: int| 0 <= i < 10 ==> ip[i] == 0
    &&& ip[10] == 0xff
    &&& ip[11] == 0xff
}

/// The address in its canonical form: an IPv4-mapped IPv6 address becomes
/// the IPv4 address it maps.
pub open spec fn canonical_view(family_v6: bool, ip: Seq<u8>, port: u16) -> AddrView {
    if family_v6 {
        if is_ipv4_mapped(ip) {
            AddrView::V4 { ip: ip.subrange(12, 16), port }
        } else {
            AddrView::V6 { ip, port }
        }
    } else {
        AddrView::V4 { ip, port }
    }
}

impl View for TransportAddr {
    type V = AddrView;

    /// Canonical: an IPv4-mapped IPv6 address is seen as IPv4.
    open spec fn view(&self) -> AddrView {
        match *self {
            TransportAddr::V4 { ip, port } => canonical_view(false, ip@, port),
            TransportAddr::V6 { ip, port } => canonical_view(true, ip@, port),
        }
    }
}

impl AddrView {
    pub open spec fn port(self) -> u16 {
        match self {
            AddrView::V4 { port, .. } => port,
            AddrView::V6 { port, .. } => port,
        }
    }

    pub open spec fn ip(self) -> Seq<u8> {
        match self {
            AddrView::V4 { ip, .. } => ip,
            AddrView::V6 { ip, .. } => ip,
        }
    }

    pub open spec fn family(self) -> u8 {
        match self {
            AddrView::V4 { .. } => 1,
            AddrView::V6 { .. } => 2,
        }
    }

    /// Reserved byte, family, masked port, masked address.
    pub open spec fn wire(self, key: Seq<u8>) -> Seq<u8> {
        seq![0u8, self.family()] + xor_seq(be16(self.port()), key) + xor_seq(self.ip(), key)
    }
}

/// What the address codec makes of value bytes under a key.
pub open spec fn decode_addr(b: Seq<u8>, key: Seq<u8>) -> Result<AddrView, StunAttrDecodeErr> {
    if b.len() < 8 {
        Err(StunAttrDecodeErr::ValueUnexpectedLength)
    } else {
        let port = u16_of(b[2] ^ key[0], b[3] ^ key[1]);
        let ip = xor_seq(b.subrange(4, b.len() as int), key);
        if b[1] == 1 && b.len() == 8 {
            Ok(canonical_view(false, ip, port))
        } else if b[1] == 2 && b.len() == 20 {
            Ok(canonical_view(true, ip, port))
        } else {
            Err(StunAttrDecodeErr::ValueUnexpectedLength)
        }
    }
}

impl TransportAddr {
    pub open spec fn spec_port(&self) -> u16 {
        match *self {
            TransportAddr::V4 { port, .. } => port,
            TransportAddr::V6 { port, .. } => port,
        }
    }

    pub fn port(&self) -> (r: u16)
        ensures
            r == self.spec_port(),
    {
        match self {
            TransportAddr::V4 { port, .. } => *port,
            TransportAddr::V6 { port, .. } => *port,
        }
    }

    /// The same address with an IPv4-mapped IPv6 address turned into IPv4.
    pub fn to_canonical(&self) -> (r: TransportAddr)
        ensures
            r@ == self@,
            r is V6 ==> !is_ipv4_mapped(r->V6_ip@),
    {
        match self {
            TransportAddr::V4 { ip, port } => TransportAddr::V4 { ip: *ip, port: *port },
            TransportAddr::V6 { ip, port } => {
                let mut mapped = ip[10] == 0xff && ip[11] == 0xff;
                let mut i: usize = 0;
                while i < 10
                    invariant
                        i <= 10,
                        mapped <==> (ip[10] == 0xff && ip[11] == 0xff && forall|j: int|
                            0 <= j < i ==> ip@[j] == 0),
                    decreases 10 - i,
                {
                    if ip[i] != 0 {
                        mapped = false;
                    }
                    i += 1;
                }
                if mapped {
                    let v4 = [ip[12], ip[13], ip[14], ip[15]];
                    assert(v4@ =~= ip@.subrange(12, 16));
                    TransportAddr::V4 { ip: v4, port: *port }
                } else {
                    TransportAddr::V6 { ip: *ip, port: *port }
                }
            },
        }
    }
}

/// XORs `src` with the leading bytes of `key` into `buff` from `at` on.
fn write_masked(buff: &mut [u8], at: usize, src: &[u8], key: &[u8; 16])
    requires
        src@.len() <= 16,
        at + src@.len() <= old(buff)@.len(),
    ensures
        final(buff)@ == old(buff)@.subrange(0, at as int) + xor_seq(src@, key@) + old(
            buff,
        )@.subrange(at + src@.len(), old(buff)@.len() as int),
{
    let n = src.len();
    let mut i: usize = 0;
    while i < n
        invariant
            i <= n,
            n == src@.len(),
            n <= 16,
            at + n <= buff@.len(),
            buff@.len() == old(buff)@.len(),
            buff@.len() == buff.len(),
            forall|j: int| 0 <= j < at ==> buff@[j] == old(buff)@[j],
            forall|j: int| 0 <= j < i ==> buff@[at + j] == src@[j] ^ key@[j],
            forall|j: int| at + n <= j < buff@.len() ==> buff@[j] == old(buff)@[j],
        decreases n - i,
    {
        buff[at + i] = src[i] ^ key[i];
        i += 1;
    }
    assert(buff@ =~= old(buff)@.subrange(0, at as int) + xor_seq(src@, key@) + old(
        buff,
    )@.subrange(at + n, old(buff)@.len() as int));
}

/// The first `N` bytes of `src` XORed with the leading bytes of `key`.
fn unmask<const N: usize>(src: &[u8], key: &[u8; 16]) -> (r: [u8; N])
    requires
        N <= 16,
        src@.len() == N,
    ensures
        r@ == xor_seq(src@, key@),
{
    let mut out = [0u8; N];
    let mut i: usize = 0;
    while i < N
        invariant
            i <= N,
            N <= 16,
            src@.len() == N,
            out@.len() == N,
            forall|j: int| 0 <= j < i ==> out@[j] == src@[j] ^ key@[j],
        decreases N - i,
    {
        out[i] = src[i] ^ key[i];
        i += 1;
    }
    assert(out@ =~= xor_seq(src@, key@));
    out
}

proof fn lemma_xor_twice(a: Seq<u8>, k: Seq<u8>)
    requires
        a.len() <= k.len(),
    ensures
        xor_seq(xor_seq(a, k), k) == a,
{
    assert forall|i: int| 0 <= i < a.len() implies #[trigger] xor_seq(xor_seq(a, k), k)[i]
        == a[i] by {
        let (x, y) = (a[i], k[i]);
        assert((x ^ y) ^ y == x) by (bit_vector);
    }
    assert(xor_seq(xor_seq(a, k), k) =~= a);
}

proof fn lemma_canonical_stable(family_v6: bool, ip: Seq<u8>, port: u16)
    requires
        ip.len() == if family_v6 { 16int } else { 4 },
    ensures
        ({
            let c = canonical_view(family_v6, ip, port);
            canonical_view(c is V6, c.ip(), c.port()) == c
        }),
{
}

/// Masking an address with a 16-byte key and reading it back with the same
/// key gives the address in canonical form, for IPv4, IPv6 and
/// IPv4-mapped IPv6 alike.
pub proof fn lemma_addr_round_trip(a: TransportAddr, key: Seq<u8>)
    requires
        key.len() == 16,
    ensures
        decode_addr(a@.wire(key), key) == Ok::<AddrView, StunAttrDecodeErr>(a@),
{
    let v = a@;
    let b = v.wire(key);
    lemma_xor_twice(be16(v.port()), key);
    lemma_xor_twice(v.ip(), key);
    assert(b.subrange(4, b.len() as int) =~= xor_seq(v.ip(), key));
    let p = xor_seq(be16(v.port()), key);
    assert(b[2] == p[0] && b[3] == p[1]);
    lemma_u16_round_trip(v.port());
    assert(xor_seq(p, key)[0] == be16(v.port())[0]);
    assert(xor_seq(p, key)[1] == be16(v.port())[1]);
    match a {
        TransportAddr::V4 { ip, port } => lemma_canonical_stable(false, ip@, port),
        TransportAddr::V6 { ip, port } => lemma_canonical_stable(true, ip@, port),
    }
}

impl<'i> StunAttrValue<'i> for TransportAddr {
    open spec fn spec_length(&self) -> nat {
        match self@ {
            AddrView::V4 { .. } => 8,
            AddrView::V6 { .. } => 20,
        }
    }

    open spec fn wire(&self, ctx: CtxView) -> Seq<u8> {
        self@.wire(ctx.xor_key())
    }

    open spec fn decode_spec(b: Seq<u8>, ctx: CtxView) -> Result<AddrView, StunAttrDecodeErr> {
        decode_addr(b, ctx.xor_key())
    }

    open spec fn round_trips(&self) -> bool {
        true
    }

    proof fn lemma_wire_len(&self, ctx: CtxView) {
    }

    proof fn lemma_round_trip(&self, ctx: CtxView) {
        lemma_addr_round_trip(*self, ctx.xor_key());
    }

    fn length(&self) -> (r: u16) {
        match self.to_canonical() {
            TransportAddr::V4 { .. } => 8,
            TransportAddr::V6 { .. } => 20,
        }
    }

    fn encode(&self, buff: &mut [u8], ctx: AttrContext<'_>) {
        let key = ctx.xor_bytes();
        let ip = self.to_canonical();
        let family: u8 = match ip {
            TransportAddr::V4 { .. } => 0x01,
            TransportAddr::V6 { .. } => 0x02,
        };
        buff[0] = 0;
        buff[1] = family;
        let port = self.port();
        let port_bytes = [(port >> 8u16) as u8, port as u8];
        assert(port_bytes@ =~= be16(port));
        write_masked(buff, 2, port_bytes.as_slice(), key);
        match ip {
            TransportAddr::V4 { ip, .. } => write_masked(buff, 4, ip.as_slice(), key),
            TransportAddr::V6 { ip, .. } => write_masked(buff, 4, ip.as_slice(), key),
        }
        assert(buff@ =~= self.wire(ctx@));
    }

    fn decode(buff: &'i [u8], ctx: AttrContext<'i>) -> (r: Result<Self, StunAttrDecodeErr>) {
        let key = ctx.xor_bytes();
        if buff.len() < 8 {
            return Err(StunAttrDecodeErr::ValueUnexpectedLength);
        }
        let family = buff[1];
        let port = (((buff[2] ^ key[0]) as u16) << 8u16) | ((buff[3] ^ key[1]) as u16);
        let rest = &buff[4..buff.len()];
        if family == 0x01 && buff.len() == 8 {
            let ip = unmask::<4>(rest, key);
            Ok(TransportAddr::V4 { ip, port })
        } else if family == 0x02 && buff.len() == 20 {
            let ip = unmask::<16>(rest, key);
            Ok(TransportAddr::V6 { ip, port })
        } else {
            Err(StunAttrDecodeErr::ValueUnexpectedLength)
        }
    }
}

} // verus!
