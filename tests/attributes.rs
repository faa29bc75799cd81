use stun_zc::addr::TransportAddr;
use stun_zc::attr::{
    AttrContext, Error, EvenPort, Integrity, RequestedTransport, StunAttr, StunAttrDecodeErr,
    StunAttrValue, UnknownAttributes, ZeroXor,
};
use stun_zc::attrs::flat::Flat;
use stun_zc::attrs::{StunAttrs, StunAttrsIter};
use stun_zc::{Stun, StunDecodeErr, StunEncodeErr, StunTyp};

const TXID: [u8; 12] = [0xb7, 0xe7, 0xa7, 0x01, 0xbc, 0x34, 0xd6, 0x86, 0xfa, 0x87, 0xdf, 0xae];

fn header() -> [u8; 20] {
    let mut h = [0u8; 20];
    h[0] = 0x01;
    h[1] = 0x01;
    h[4..8].copy_from_slice(&[0x21, 0x12, 0xa4, 0x42]);
    h[8..].copy_from_slice(&TXID);
    h
}

fn ctx<'i>(header: &'i [u8; 20], prefix: &'i [u8], attr_len: u16) -> AttrContext<'i> {
    AttrContext { header, zero_xor_bytes: false, attrs_prefix: prefix, attr_len }
}

fn encode_attrs(attrs: &[StunAttr]) -> Vec<u8> {
    let m = Stun { typ: StunTyp::Res(0x001), txid: &TXID, attrs: StunAttrs::List(attrs) };
    let mut out = vec![0u8; m.len()];
    m.encode(&mut out).unwrap();
    out
}

fn decode_all<'i>(m: &Stun<'i>) -> Vec<StunAttr<'i>> {
    let mut it = m.attrs.into_iter();
    let mut out = Vec::new();
    while let Some(a) = it.next() {
        out.push(a.unwrap());
    }
    out
}

#[test]
fn type_packing_is_bit_exact() {
    for m in 0..4096u16 {
        for t in [StunTyp::Req(m), StunTyp::Ind(m), StunTyp::Res(m), StunTyp::Error(m)] {
            assert_eq!(StunTyp::try_from(t.to_bytes()), Ok(t));
        }
    }
    assert_eq!(StunTyp::Req(0x001).to_bytes(), [0x00, 0x01]);
    assert_eq!(StunTyp::Ind(0x001).to_bytes(), [0x00, 0x11]);
    assert_eq!(StunTyp::Res(0x001).to_bytes(), [0x01, 0x01]);
    assert_eq!(StunTyp::Error(0x001).to_bytes(), [0x01, 0x11]);
    assert_eq!(StunTyp::Req(0xFFF).to_bytes(), [0x3E, 0xEF]);
    assert_eq!(StunTyp::try_from([0x40, 0x00]), Err(StunDecodeErr::TypeOutOfRange));
    assert_eq!(StunTyp::Error(0x123).method(), 0x123);
}

#[test]
fn xor_mapped_address_matches_rfc5769() {
    let h = header();
    let a = TransportAddr::V4 { ip: [192, 0, 2, 1], port: 32853 };
    let mut buff = [0u8; 8];
    a.encode(&mut buff, ctx(&h, &[], 12));
    assert_eq!(buff, [0x00, 0x01, 0xa1, 0x47, 0xe1, 0x12, 0xa6, 0x43]);
    assert_eq!(TransportAddr::decode(&buff, ctx(&h, &[], 12)), Ok(a));
}

#[test]
fn xor_address_symmetry() {
    let h = header();
    let v6 = TransportAddr::V6 {
        ip: [0x20, 0x01, 0x0d, 0xb8, 0x12, 0x34, 0x56, 0x78, 0, 0x11, 0x22, 0x33, 0x44, 0x55, 0x66, 0x77],
        port: 32853,
    };
    let mut buff = [0u8; 20];
    assert_eq!(v6.length(), 20);
    v6.encode(&mut buff, ctx(&h, &[], 24));
    assert_eq!(buff[1], 0x02);
    assert_eq!(TransportAddr::decode(&buff, ctx(&h, &[], 24)), Ok(v6));

    let mapped = TransportAddr::V6 {
        ip: [0, 0, 0, 0, 0, 0, 0, 0, 0, 0, 0xff, 0xff, 10, 0, 0, 1],
        port: 5000,
    };
    assert_eq!(mapped.length(), 8);
    let mut buff = [0u8; 8];
    mapped.encode(&mut buff, ctx(&h, &[], 12));
    assert_eq!(buff[1], 0x01);
    assert_eq!(
        TransportAddr::decode(&buff, ctx(&h, &[], 12)),
        Ok(TransportAddr::V4 { ip: [10, 0, 0, 1], port: 5000 })
    );
    assert_eq!(mapped.to_canonical(), TransportAddr::V4 { ip: [10, 0, 0, 1], port: 5000 });
}

#[test]
fn mapped_address_is_not_masked() {
    let h = header();
    let a = ZeroXor::from(TransportAddr::V4 { ip: [192, 0, 2, 1], port: 32853 });
    let mut buff = [0u8; 8];
    a.encode(&mut buff, ctx(&h, &[], 12));
    assert_eq!(buff, [0x00, 0x01, 0x80, 0x55, 192, 0, 2, 1]);
    let back = ZeroXor::<TransportAddr>::decode(&buff, ctx(&h, &[], 12)).unwrap();
    assert_eq!(back.into(), TransportAddr::V4 { ip: [192, 0, 2, 1], port: 32853 });
}

#[test]
fn address_of_wrong_length_is_refused() {
    let h = header();
    let r = TransportAddr::decode(&[0, 1, 0, 0, 0], ctx(&h, &[], 9));
    assert_eq!(r, Err(StunAttrDecodeErr::ValueUnexpectedLength));
    let r = TransportAddr::decode(&[0, 2, 0, 0, 1, 2, 3, 4], ctx(&h, &[], 12));
    assert_eq!(r, Err(StunAttrDecodeErr::ValueUnexpectedLength));
}

#[test]
fn xor_key_and_reduction() {
    let h = header();
    let c = ctx(&h, &[9, 9, 9, 9], 8);
    assert_eq!(&c.xor_bytes()[..], &h[4..20]);
    assert_eq!(c.zeroed().xor_bytes(), &[0u8; 16]);
    let r = c.reduce_over_prefix();
    assert_eq!(r.len(), 24);
    assert_eq!(&r[0..2], &[0x01, 0x01]);
    assert_eq!(&r[2..4], &[0x00, 12]);
    assert_eq!(&r[4..20], &h[4..20]);
    assert_eq!(&r[20..], &[9, 9, 9, 9]);
}

#[test]
fn integrity_sign_verifies_only_its_key() {
    let i = Integrity::Sign { key_data: b"secret" };
    assert!(i.verify(b"secret"));
    assert!(!i.verify(b"secreT"));
    assert!(!i.verify(b""));
}

#[test]
fn decoded_integrity_verifies_against_encoding_key() {
    let attrs = [
        StunAttr::Username("alice"),
        StunAttr::Integrity(Integrity::Sign { key_data: b"secret" }),
        StunAttr::Fingerprint,
    ];
    let out = encode_attrs(&attrs);
    let m = Stun::decode(&out).unwrap();
    let got = decode_all(&m);
    let flat = Flat::from_iter(&got);
    let i = flat.integrity.unwrap();
    assert!(matches!(i, Integrity::Check { .. }));
    assert!(i.verify(b"secret"));
    assert!(!i.verify(b"other"));
    assert_eq!(flat.auth_with(Some(b"secret".to_vec())), Some(("alice", b"secret".to_vec())));
    assert_eq!(flat.auth_with(Some(b"other".to_vec())), None);
    assert_eq!(flat.auth_with(None), None);
}

#[test]
fn unknown_attribute_type_round_trips() {
    let attrs = [StunAttr::Other(0xFFFF, &[1, 2, 3])];
    let out = encode_attrs(&attrs);
    assert_eq!(out.len(), 20 + 8);
    assert_eq!(&out[20..], &[0xFF, 0xFF, 0x00, 0x03, 1, 2, 3, 0]);
    let m = Stun::decode(&out).unwrap();
    let got = decode_all(&m);
    assert!(matches!(got[..], [StunAttr::Other(0xFFFF, &[1, 2, 3])]));
}

#[test]
fn every_value_round_trips() {
    let codes = [0x0001u16, 0x8028];
    let attrs = [
        StunAttr::Mapped(ZeroXor(TransportAddr::V4 { ip: [1, 2, 3, 4], port: 5 })),
        StunAttr::Error(Error { code: 420, message: "Unknown Attribute" }),
        StunAttr::UnknownAttributes(UnknownAttributes::List(&codes)),
        StunAttr::Realm("example.org"),
        StunAttr::Nonce("f//499k954d6OL34oL9FSTvy64sA"),
        StunAttr::AlternateServer(TransportAddr::V4 { ip: [5, 6, 7, 8], port: 9 }),
        StunAttr::Channel(0x40000000),
        StunAttr::Lifetime(600),
        StunAttr::XPeer(TransportAddr::V4 { ip: [10, 0, 0, 1], port: 4000 }),
        StunAttr::Data(&[0xde, 0xad, 0xbe, 0xef, 0x01]),
        StunAttr::XRelayed(TransportAddr::V4 { ip: [10, 0, 0, 2], port: 4001 }),
        StunAttr::EvenPort(EvenPort(true)),
        StunAttr::RequestedTransport(RequestedTransport(17)),
        StunAttr::DontFragment,
        StunAttr::ReservationToken(7),
        StunAttr::Priority(0x6e0001ff),
        StunAttr::UseCandidate,
        StunAttr::IceControlled(u64::MAX),
        StunAttr::IceControlling(1),
    ];
    let out = encode_attrs(&attrs);
    let m = Stun::decode(&out).unwrap();
    let got = decode_all(&m);
    assert_eq!(got.len(), attrs.len());
    for (a, b) in attrs.iter().zip(got.iter()) {
        assert_eq!(a.typ(), b.typ());
        assert_eq!(a.length(), b.length());
    }
    match &got[1] {
        StunAttr::Error(e) => {
            assert_eq!(e.code, 420);
            assert_eq!(e.message, "Unknown Attribute");
        },
        other => panic!("unexpected {:?}", other),
    }
    match &got[2] {
        StunAttr::UnknownAttributes(UnknownAttributes::Parse(b)) => {
            assert_eq!(*b, &[0x00, 0x01, 0x80, 0x28][..]);
        },
        other => panic!("unexpected {:?}", other),
    }
    assert!(matches!(got[0], StunAttr::Mapped(ZeroXor(TransportAddr::V4 { ip: [1, 2, 3, 4], port: 5 }))));
    assert!(matches!(got[9], StunAttr::Data(&[0xde, 0xad, 0xbe, 0xef, 0x01])));
    assert!(matches!(got[11], StunAttr::EvenPort(EvenPort(true))));
    assert!(matches!(got[12], StunAttr::RequestedTransport(RequestedTransport(17))));
    assert!(matches!(got[17], StunAttr::IceControlled(u64::MAX)));
}

#[test]
fn error_code_wire_form() {
    let h = header();
    let e = Error { code: 401, message: "Unauthorized" };
    let mut buff = vec![0u8; e.length() as usize];
    e.encode(&mut buff, ctx(&h, &[], 4 + e.length()));
    assert_eq!(&buff[..4], &[0, 0, 4, 1]);
    assert_eq!(&buff[4..], b"Unauthorized");
    let r = Error::decode(&[0, 0, 4], ctx(&h, &[], 7));
    assert!(matches!(r, Err(StunAttrDecodeErr::ValueUnexpectedLength)));
    let r = Error::decode(&[0, 0, 4, 1, 0xff], ctx(&h, &[], 9));
    assert!(matches!(r, Err(StunAttrDecodeErr::BadUtf8)));
}

#[test]
fn fixed_shapes_refuse_other_lengths() {
    let h = header();
    let c = ctx(&h, &[], 4);
    assert_eq!(u32::decode(&[1, 2, 3], c), Err(StunAttrDecodeErr::UnexpectedLength));
    assert_eq!(u32::decode(&[1, 2, 3, 4], c), Ok(0x01020304));
    assert_eq!(u64::decode(&[1, 2, 3, 4], c), Err(StunAttrDecodeErr::UnexpectedLength));
    assert_eq!(<()>::decode(&[1], c), Err(StunAttrDecodeErr::ValueUnexpectedLength));
    assert!(matches!(EvenPort::decode(&[0x80, 0], c), Err(StunAttrDecodeErr::ValueUnexpectedLength)));
    assert!(matches!(EvenPort::decode(&[0x7f], c), Ok(EvenPort(false))));
    assert!(matches!(RequestedTransport::decode(&[17], c), Err(StunAttrDecodeErr::ValueUnexpectedLength)));
    assert!(matches!(UnknownAttributes::decode(&[1, 2, 3], c), Err(StunAttrDecodeErr::ValueUnexpectedLength)));
    assert!(matches!(Integrity::decode(&[0u8; 19], c), Err(StunAttrDecodeErr::UnexpectedLength)));
    assert!(matches!(<&str>::decode(&[0xc3], c), Err(StunAttrDecodeErr::BadUtf8)));
    assert!(matches!(<&[u8; 3]>::decode(&[1, 2], c), Err(StunAttrDecodeErr::UnexpectedLength)));
    assert!(matches!(StunAttr::decode(0x001A, &[1], c), Err(StunAttrDecodeErr::ValueUnexpectedLength)));
}

#[test]
fn framing_errors() {
    let good = encode_attrs(&[StunAttr::Software("x")]);
    let mut b = good.clone();
    b[3] = 0x09;
    assert_eq!(Stun::decode(&b).err(), Some(StunDecodeErr::UnalignedLength));
    let mut b = good.clone();
    b[3] = 0x0C;
    assert_eq!(Stun::decode(&b).err(), Some(StunDecodeErr::PacketTooSmall));
    let mut b = good.clone();
    b[4] = 0x22;
    assert_eq!(Stun::decode(&b).err(), Some(StunDecodeErr::BadMagic));
    let mut b = good.clone();
    b[0] = 0x40;
    assert_eq!(Stun::decode(&b).err(), Some(StunDecodeErr::TypeOutOfRange));
    let mut b = good.clone();
    b[23] = 0x05;
    assert_eq!(
        Stun::decode(&b).err(),
        Some(StunDecodeErr::AttrErr(StunAttrDecodeErr::AttrLengthExceedsPacketLength))
    );
    let mut b = good.clone();
    b.extend_from_slice(&[0xAA; 7]);
    assert!(Stun::decode(&b).is_ok());
}

#[test]
fn padding_is_zero_and_counted() {
    let out = encode_attrs(&[StunAttr::Software("x"), StunAttr::Lifetime(1)]);
    assert_eq!(out.len(), 20 + 8 + 8);
    assert_eq!(&out[2..4], &[0x00, 16]);
    assert_eq!(&out[20..28], &[0x80, 0x22, 0x00, 0x01, b'x', 0, 0, 0]);
    assert_eq!(&out[28..36], &[0x00, 0x0D, 0x00, 0x04, 0, 0, 0, 1]);
}

#[test]
fn encode_reports_small_buffer_and_oversize() {
    let attrs = [StunAttr::Software("x")];
    let m = Stun { typ: StunTyp::Req(1), txid: &TXID, attrs: StunAttrs::List(&attrs) };
    let mut small = [7u8; 27];
    assert_eq!(m.encode(&mut small), Err(StunEncodeErr::BufferTooSmall));
    assert_eq!(small, [7u8; 27]);
    let big = "a".repeat(70000);
    let attrs = [StunAttr::Software(&big)];
    let m = Stun { typ: StunTyp::Req(1), txid: &TXID, attrs: StunAttrs::List(&attrs) };
    let mut out = vec![0u8; 80000];
    assert_eq!(m.encode(&mut out), Err(StunEncodeErr::TooLong));
    assert!(m.attrs.checked_length().is_none());
}

#[test]
fn message_walk_stops_after_fingerprint_and_integrity() {
    let attrs = [
        StunAttr::Username("u"),
        StunAttr::Integrity(Integrity::Sign { key_data: b"k" }),
        StunAttr::Software("after integrity"),
        StunAttr::Fingerprint,
        StunAttr::Lifetime(1),
    ];
    let out = encode_attrs(&attrs);
    let m = Stun::decode(&out).unwrap();
    let mut it = m.into_iter();
    assert!(matches!(it.next(), Some(StunAttr::Username("u"))));
    assert!(matches!(it.next(), Some(StunAttr::Integrity(_))));
    assert!(it.next().is_none());
    assert!(matches!(it.next(), Some(StunAttr::Fingerprint)));
    assert!(it.next().is_none());
    assert!(it.next().is_none());
    assert_eq!(decode_all(&m).len(), 5);
}

#[test]
fn flat_keeps_first_occurrence() {
    let attrs = [
        StunAttr::Realm("first"),
        StunAttr::Lifetime(1),
        StunAttr::Realm("second"),
        StunAttr::Lifetime(2),
        StunAttr::Other(0x0014, b"raw"),
        StunAttr::EvenPort(EvenPort(true)),
    ];
    let flat = Flat::from_iter(&attrs);
    assert_eq!(flat.realm, Some("first"));
    assert_eq!(flat.lifetime, Some(1));
    assert_eq!(flat.even_port, Some(true));
    assert_eq!(flat.username, None);
    assert!(flat.check_auth(|_, _| Some(b"x".to_vec())).is_none());
}

#[test]
fn list_iteration_hands_out_listed_attributes() {
    let attrs = [StunAttr::Lifetime(3), StunAttr::DontFragment];
    let list = StunAttrs::from(&attrs);
    assert_eq!(list.length(), 12);
    let mut it = list.into_iter();
    assert!(matches!(it, StunAttrsIter::List { index: 0, .. }));
    assert!(matches!(it.next(), Some(Ok(StunAttr::Lifetime(3)))));
    assert!(matches!(it.next(), Some(Ok(StunAttr::DontFragment))));
    assert!(it.next().is_none());
}

#[test]
fn error_response_keeps_transaction() {
    let req = encode_attrs(&[]);
    let m = Stun::decode(&req).unwrap();
    let attrs = [StunAttr::Error(Error { code: 400, message: "Bad Request" })];
    let e = m.err(&attrs);
    assert_eq!(e.typ, StunTyp::Error(0x001));
    assert_eq!(e.txid, &TXID);
    let mut out = vec![0u8; e.len()];
    e.encode(&mut out).unwrap();
    assert_eq!(&out[0..2], &[0x01, 0x11]);
    assert_eq!(&out[8..20], &TXID);
}
