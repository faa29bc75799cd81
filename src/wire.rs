//! Byte-level primitives: big-endian integers, and the few calls into std
//! and outside crates that the codecs rely on.
use vstd::prelude::*;
use vstd::string::StringSliceAdditionalSpecFns;
use vstd::utf8::valid_utf8;

verus! {

/// The two bytes of `x`, most significant first.
pub open spec fn be16(x: u16) -> Seq<u8> {
    seq![(x >> 8u16) as u8, x as u8]
}

/// The four bytes of `x`, most significant first.
pub open spec fn be32(x: u32) -> Seq<u8> {
    seq![(x >> 24u32) as u8, (x >> 16u32) as u8, (x >> 8u32) as u8, x as u8]
}

/// The eight bytes of `x`, most significant first.
pub open spec fn be64(x: u64) -> Seq<u8> {
    seq![
        (x >> 56u64) as u8, (x >> 48u64) as u8, (x >> 40u64) as u8, (x >> 32u64) as u8,
        (x >> 24u64) as u8, (x >> 16u64) as u8, (x >> 8u64) as u8, x as u8,
    ]
}

/// The big-endian integer held by two bytes.
pub open spec fn u16_of(a: u8, b: u8) -> u16 {
    ((a as u16) << 8u16) | (b as u16)
}

/// The big-endian integer held by the first four bytes of `s`.
pub open spec fn u32_of(s: Seq<u8>) -> u32 {
    ((s[0] as u32) << 24u32) | ((s[1] as u32) << 16u32) | ((s[2] as u32) << 8u32) | (s[3] as u32)
}

/// The big-endian integer held by the first eight bytes of `s`.
pub open spec fn u64_of(s: Seq<u8>) -> u64 {
    ((s[0] as u64) << 56u64) | ((s[1] as u64) << 48u64) | ((s[2] as u64) << 40u64)
        | ((s[3] as u64) << 32u64) | ((s[4] as u64) << 24u64) | ((s[5] as u64) << 16u64)
        | ((s[6] as u64) << 8u64) | (s[7] as u64)
}

pub proof fn lemma_u16_round_trip(x: u16)
    ensures
        u16_of(be16(x)[0], be16(x)[1]) == x,
{
    let a = (x >> 8u16) as u8;
    let b = x as u8;
    assert((((a as u16) << 8u16) | (b as u16)) == x) by (bit_vector)
        requires
            a == (x >> 8u16) as u8,
            b == x as u8,
    ;
}

pub proof fn lemma_u32_round_trip(x: u32)
    ensures
        u32_of(be32(x)) == x,
{
    let s = be32(x);
    let (a, b, c, d) = (s[0], s[1], s[2], s[3]);
    assert((((a as u32) << 24u32) | ((b as u32) << 16u32) | ((c as u32) << 8u32) | (d as u32))
        == x) by (bit_vector)
        requires
            a == (x >> 24u32) as u8,
            b == (x >> 16u32) as u8,
            c == (x >> 8u32) as u8,
            d == x as u8,
    ;
}

pub proof fn lemma_u64_round_trip(x: u64)
    ensures
        u64_of(be64(x)) == x,
{
    let s = be64(x);
    let (a, b, c, d, e, f, g, h) = (s[0], s[1], s[2], s[3], s[4], s[5], s[6], s[7]);
    assert((((a as u64) << 56u64) | ((b as u64) << 48u64) | ((c as u64) << 40u64) | ((d as u64)
        << 32u64) | ((e as u64) << 24u64) | ((f as u64) << 16u64) | ((g as u64) << 8u64) | (h
        as u64)) == x) by (bit_vector)
        requires
            a == (x >> 56u64) as u8,
            b == (x >> 48u64) as u8,
            c == (x >> 40u64) as u8,
            d == (x >> 32u64) as u8,
            e == (x >> 24u64) as u8,
            f == (x >> 16u64) as u8,
            g == (x >> 8u64) as u8,
            h == x as u8,
    ;
}

/// Reads a big-endian `u16` at `at`.
pub fn read_u16(b: &[u8], at: usize) -> (r: u16)
    requires
        at + 2 <= b@.len(),
    ensures
        r == u16_of(b@[at as int], b@[at + 1]),
{
    ((b[at] as u16) << 8u16) | (b[at + 1] as u16)
}

/// Reads the big-endian `u32` that `b` holds.
pub fn read_u32(b: &[u8]) -> (r: u32)
    requires
        b@.len() == 4,
    ensures
        r == u32_of(b@),
{
    ((b[0] as u32) << 24u32) | ((b[1] as u32) << 16u32) | ((b[2] as u32) << 8u32) | (b[3] as u32)
}

/// Reads the big-endian `u64` that `b` holds.
pub fn read_u64(b: &[u8]) -> (r: u64)
    requires
        b@.len() == 8,
    ensures
        r == u64_of(b@),
{
    ((b[0] as u64) << 56u64) | ((b[1] as u64) << 48u64) | ((b[2] as u64) << 40u64) | ((b[3] as u64)
        << 32u64) | ((b[4] as u64) << 24u64) | ((b[5] as u64) << 16u64) | ((b[6] as u64) << 8u64)
        | (b[7] as u64)
}

/// Writes `x` big-endian at `at`, leaving every other byte as it was.
pub fn write_u16(buff: &mut [u8], at: usize, x: u16)
    requires
        at + 2 <= old(buff)@.len(),
    ensures
        final(buff)@ == old(buff)@.update(at as int, be16(x)[0]).update(at + 1, be16(x)[1]),
{
    buff[at] = (x >> 8u16) as u8;
    buff[at + 1] = x as u8;
}

/// Copies `src` into `buff` from `at` on, leaving every other byte as it was.
pub fn write_bytes(buff: &mut [u8], at: usize, src: &[u8])
    requires
        at + src@.len() <= old(buff)@.len(),
    ensures
        final(buff)@ == old(buff)@.subrange(0, at as int) + src@ + old(buff)@.subrange(
            at + src@.len(),
            old(buff)@.len() as int,
        ),
{
    let n = src.len();
    let mut i: usize = 0;
    while i < n
        invariant
            i <= n,
            n == src@.len(),
            at + n <= buff@.len(),
            buff@.len() == old(buff)@.len(),
            buff@.len() == buff.len(),
            forall|j: int| 0 <= j < at ==> buff@[j] == old(buff)@[j],
            forall|j: int| 0 <= j < i ==> buff@[at + j] == src@[j],
            forall|j: int| at + n <= j < buff@.len() ==> buff@[j] == old(buff)@[j],
        decreases n - i,
    {
        buff[at + i] = src[i];
        i += 1;
    }
    assert(buff@ =~= old(buff)@.subrange(0, at as int) + src@ + old(buff)@.subrange(
        at + n,
        old(buff)@.len() as int,
    ));
}

/// Appends the bytes of `src` to `out`.
pub fn append_bytes(out: &mut Vec<u8>, src: &[u8])
    ensures
        final(out)@ == old(out)@ + src@,
{
    let n = src.len();
    let mut i: usize = 0;
    while i < n
        invariant
            i <= n,
            n == src@.len(),
            out@ == old(out)@ + src@.subrange(0, i as int),
        decreases n - i,
    {
        out.push(src[i]);
        i += 1;
        assert(src@.subrange(0, i as int) =~= src@.subrange(0, i - 1) + seq![src@[i - 1]]);
    }
    assert(src@.subrange(0, n as int) =~= src@);
}

/// Relies on `std::str::from_utf8`: it accepts exactly the valid UTF-8
/// sequences, and the string it returns is made of those very bytes.
#[verifier::external_body]
pub(crate) fn utf8_str(b: &[u8]) -> (r: Option<&str>)
    ensures
        r is Some <==> valid_utf8(b@),
        r matches Some(s) ==> s.spec_bytes() == b@,
{
    std::str::from_utf8(b).ok()
}

/// Relies on std's `TryFrom<&[T]> for &[T; N]`: it succeeds exactly when
/// the slice holds `N` items, and then refers to those items.
#[verifier::external_body]
pub(crate) fn slice_as_array<const N: usize>(b: &[u8]) -> (r: Option<&[u8; N]>)
    ensures
        r is Some <==> b@.len() == N,
        r matches Some(a) ==> a@ == b@,
{
    <&[u8; N]>::try_from(b).ok()
}

/// The CRC-32 (IEEE) checksum of `data`.
pub uninterp spec fn crc32_of(data: Seq<u8>) -> u32;

/// Relies on `crc32fast::hash`: the CRC-32 of the bytes, a function of them alone.
#[verifier::external_body]
pub(crate) fn crc32(data: &[u8]) -> (r: u32)
    ensures
        r == crc32_of(data@),
{
    crc32fast::hash(data)
}

/// The HMAC-SHA1 of `data` under `key`.
pub uninterp spec fn hmac_sha1_of(key: Seq<u8>, data: Seq<u8>) -> Seq<u8>;

/// Relies on `hmac::Hmac<sha1::Sha1>`: `new_from_slice` takes a key of any
/// length, and `finalize` gives the 20-byte HMAC-SHA1 of what was fed in,
/// a function of the key and the bytes alone.
#[verifier::external_body]
pub(crate) fn hmac_sha1(key: &[u8], data: &[u8]) -> (r: [u8; 20])
    ensures
        r@ == hmac_sha1_of(key@, data@),
{
    let mut mac = <hmac::Hmac<sha1::Sha1> as hmac::Mac>::new_from_slice(key).expect(
        "HMAC accepts keys of any length",
    );
    hmac::Mac::update(&mut mac, data);
    hmac::Mac::finalize(mac).into_bytes().into()
}

} // verus!
