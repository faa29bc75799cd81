use stun_zc::addr::TransportAddr;
use stun_zc::attr::StunAttr;
use stun_zc::attrs::StunAttrs;
use stun_zc::{Stun, StunDecodeErr, StunTyp};

fn binding_request() -> Vec<u8> {
    let mut b = vec![0x00, 0x01, 0x00, 0x00, 0x21, 0x12, 0xA4, 0x42];
    b.extend_from_slice(&[1, 2, 3, 4, 5, 6, 7, 8, 9, 10, 11, 12]);
    b
}

#[test]
fn binding_request_round_trip() {
    let req = binding_request();
    let m = Stun::decode(&req).unwrap();
    assert_eq!(m.typ, StunTyp::Req(0x001));
    let mut it = m.into_iter();
    assert!(it.next().is_none());

    let addr = TransportAddr::V4 { ip: [192, 0, 2, 1], port: 3478 };
    let attrs = [StunAttr::XMapped(addr), StunAttr::Software("x"), StunAttr::Fingerprint];
    let r = m.res(&attrs);
    assert_eq!(r.len(), 20 + (4 + 8) + (4 + 4) + (4 + 4));
    let mut out = [0u8; 64];
    r.encode(&mut out).unwrap();
    let n = r.len();
    let d = Stun::decode(&out[..n]).unwrap();
    assert_eq!(d.typ, StunTyp::Res(0x001));
    assert_eq!(d.txid, m.txid);
    let mut it = d.into_iter();
    match it.next() {
        Some(StunAttr::XMapped(a)) => assert_eq!(a, addr),
        other => panic!("unexpected {:?}", other),
    }
    match it.next() {
        Some(StunAttr::Software(s)) => assert_eq!(s, "x"),
        other => panic!("unexpected {:?}", other),
    }
    assert!(matches!(it.next(), Some(StunAttr::Fingerprint)));
    assert!(it.next().is_none());
    assert!(matches!(d.attrs, StunAttrs::Parse { .. }));
}

#[test]
fn short_input_is_too_small() {
    for n in 0..20 {
        let b = vec![0u8; n];
        assert!(matches!(Stun::decode(&b), Err(StunDecodeErr::PacketTooSmall)));
    }
}
