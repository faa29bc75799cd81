use stun_zc::attr::{Integrity, StunAttr};
use stun_zc::attrs::flat::Flat;
use stun_zc::{Stun, StunDecodeErr, StunTyp};
use stun_zc::attr::StunAttrDecodeErr;

// The sample request of RFC 5769, section 2.1.
fn sample_request() -> Vec<u8> {
    vec![
        0x00, 0x01, 0x00, 0x58, 0x21, 0x12, 0xa4, 0x42, 0xb7, 0xe7, 0xa7, 0x01, 0xbc, 0x34, 0xd6,
        0x86, 0xfa, 0x87, 0xdf, 0xae, 0x80, 0x22, 0x00, 0x10, 0x53, 0x54, 0x55, 0x4e, 0x20, 0x74,
        0x65, 0x73, 0x74, 0x20, 0x63, 0x6c, 0x69, 0x65, 0x6e, 0x74, 0x00, 0x24, 0x00, 0x04, 0x6e,
        0x00, 0x01, 0xff, 0x80, 0x29, 0x00, 0x08, 0x93, 0x2f, 0xf9, 0xb1, 0x51, 0x26, 0x3b, 0x36,
        0x00, 0x06, 0x00, 0x09, 0x65, 0x76, 0x74, 0x6a, 0x3a, 0x68, 0x36, 0x76, 0x59, 0x20, 0x20,
        0x20, 0x00, 0x08, 0x00, 0x14, 0x9a, 0xea, 0xa7, 0x0c, 0xbf, 0xd8, 0xcb, 0x56, 0x78, 0x1e,
        0xf2, 0xb5, 0xb2, 0xd3, 0xf2, 0x49, 0xc1, 0xb5, 0x71, 0xa2, 0x80, 0x28, 0x00, 0x04, 0xe5,
        0x7a, 0x3b, 0xcf,
    ]
}

const PASSWORD: &[u8] = b"VOkJxbRl1RmTxUk/WvJxBt";

fn collect<'i>(m: &Stun<'i>) -> Vec<StunAttr<'i>> {
    let mut out = Vec::new();
    let mut it = m.into_iter();
    while let Some(a) = it.next() {
        out.push(a);
    }
    out
}

#[test]
fn rfc5769_request_decodes_with_fingerprint() {
    let b = sample_request();
    let m = Stun::decode(&b).unwrap();
    assert_eq!(m.typ, StunTyp::Req(0x001));
    let attrs = collect(&m);
    assert_eq!(attrs.len(), 6);
    assert!(matches!(attrs[0], StunAttr::Software("STUN test client")));
    assert!(matches!(attrs[1], StunAttr::Priority(0x6e0001ff)));
    assert!(matches!(attrs[2], StunAttr::IceControlled(0x932ff9b151263b36)));
    assert!(matches!(attrs[3], StunAttr::Username("evtj:h6vY")));
    assert!(matches!(attrs[4], StunAttr::Integrity(Integrity::Check { .. })));
    assert!(matches!(attrs[5], StunAttr::Fingerprint));
}

#[test]
fn rfc5769_request_integrity_verifies() {
    let b = sample_request();
    let m = Stun::decode(&b).unwrap();
    let attrs = collect(&m);
    match &attrs[4] {
        StunAttr::Integrity(i) => {
            assert!(i.verify(PASSWORD));
            assert!(!i.verify(b"VOkJxbRl1RmTxUk/WvJxBT"));
            assert!(!i.verify(b""));
        },
        other => panic!("unexpected {:?}", other),
    }
}

#[test]
fn rfc5769_request_check_auth() {
    let b = sample_request();
    let m = Stun::decode(&b).unwrap();
    let attrs = collect(&m);
    let flat = Flat::from_iter(&attrs);
    assert_eq!(flat.username, Some("evtj:h6vY"));
    let r = flat.check_auth(|u, realm| {
        assert_eq!(u, "evtj:h6vY");
        assert!(realm.is_none());
        Some(PASSWORD.to_vec())
    });
    assert_eq!(r, Some(("evtj:h6vY", PASSWORD.to_vec())));
    let wrong = flat.check_auth(|_, _| Some(b"nope".to_vec()));
    assert!(wrong.is_none());
    let unknown = flat.check_auth(|_, _| None);
    assert!(unknown.is_none());
}

#[test]
fn flipped_byte_breaks_fingerprint() {
    let b = sample_request();
    for i in 0..(b.len() - 8) {
        if i == 2 || i == 3 {
            continue;
        }
        let mut c = b.clone();
        c[i] ^= 0x01;
        let r = Stun::decode(&c);
        assert!(r.is_err(), "byte {} flipped still decodes", i);
    }
    // A flipped byte inside an attribute value leaves the framing intact, so
    // only the checksum can catch it.
    let mut c = b.clone();
    c[30] ^= 0x01;
    assert!(matches!(
        Stun::decode(&c),
        Err(StunDecodeErr::AttrErr(StunAttrDecodeErr::BadFingerprint))
    ));
}
