//! A message's attributes folded into one slot per kind.
use vstd::prelude::*;

use crate::addr::TransportAddr;
use crate::attr::{Error, Integrity, StunAttr, UnknownAttributes};

verus! {

/// The first attribute of each kind, `None` where the kind does not occur.
/// Later duplicates and unknown attribute types are ignored.
#[derive(Debug, Clone, Copy)]
pub struct Flat<'i> {
    pub mapped: Option<TransportAddr>,
    pub username: Option<&'i str>,
    pub integrity: Option<Integrity<'i>>,
    pub error: Option<Error<'i>>,
    pub unknown_attributes: Option<UnknownAttributes<'i>>,
    pub realm: Option<&'i str>,
    pub nonce: Option<&'i str>,
    pub xmapped: Option<TransportAddr>,
    pub software: Option<&'i str>,
    pub alternate_server: Option<TransportAddr>,
    pub fingerprint: Option<()>,
    pub channel: Option<u32>,
    pub lifetime: Option<u32>,
    pub xpeer: Option<TransportAddr>,
    pub data: Option<&'i [u8]>,
    pub xrelayed: Option<TransportAddr>,
    pub even_port: Option<bool>,
    pub requested_transport: Option<u8>,
    pub dont_fragment: Option<()>,
    pub reservation_token: Option<u32>,
    pub priority: Option<u32>,
    pub use_candidate: Option<()>,
    pub ice_controlled: Option<u64>,
    pub ice_controlling: Option<u64>,
}

impl<'i> Flat<'i> {
    /// No attribute seen yet.
    pub open spec fn spec_empty() -> Flat<'i> {
        Flat {
            mapped: None,
            username: None,
            integrity: None,
            error: None,
            unknown_attributes: None,
            realm: None,
            nonce: None,
            xmapped: None,
            software: None,
            alternate_server: None,
            fingerprint: None,
            channel: None,
            lifetime: None,
            xpeer: None,
            data: None,
            xrelayed: None,
            even_port: None,
            requested_transport: None,
            dont_fragment: None,
            reservation_token: None,
            priority: None,
            use_candidate: None,
            ice_controlled: None,
            ice_controlling: None,
        }
    }

    /// The fold after one more attribute: its slot is filled unless an
    /// earlier attribute of its kind filled it.
    pub open spec fn absorb(self, a: StunAttr<'i>) -> Flat<'i> {
        match a {
            StunAttr::Mapped(v) => if self.mapped is None { Flat { mapped: Some(v.0), ..self } } else { self },
            StunAttr::Username(v) => if self.username is None { Flat { username: Some(v), ..self } } else { self },
            StunAttr::Integrity(v) => if self.integrity is None { Flat { integrity: Some(v), ..self } } else { self },
            StunAttr::Error(v) => if self.error is None { Flat { error: Some(v), ..self } } else { self },
            StunAttr::UnknownAttributes(v) => if self.unknown_attributes is None { Flat { unknown_attributes: Some(v), ..self } } else { self },
            StunAttr::Realm(v) => if self.realm is None { Flat { realm: Some(v), ..self } } else { self },
            StunAttr::Nonce(v) => if self.nonce is None { Flat { nonce: Some(v), ..self } } else { self },
            StunAttr::XMapped(v) => if self.xmapped is None { Flat { xmapped: Some(v), ..self } } else { self },
            StunAttr::Software(v) => if self.software is None { Flat { software: Some(v), ..self } } else { self },
            StunAttr::AlternateServer(v) => if self.alternate_server is None { Flat { alternate_server: Some(v), ..self } } else { self },
            StunAttr::Fingerprint => if self.fingerprint is None { Flat { fingerprint: Some(()), ..self } } else { self },
            StunAttr::Channel(v) => if self.channel is None { Flat { channel: Some(v), ..self } } else { self },
            StunAttr::Lifetime(v) => if self.lifetime is None { Flat { lifetime: Some(v), ..self } } else { self },
            StunAttr::XPeer(v) => if self.xpeer is None { Flat { xpeer: Some(v), ..self } } else { self },
            StunAttr::Data(v) => if self.data is None { Flat { data: Some(v), ..self } } else { self },
            StunAttr::XRelayed(v) => if self.xrelayed is None { Flat { xrelayed: Some(v), ..self } } else { self },
            StunAttr::EvenPort(v) => if self.even_port is None { Flat { even_port: Some(v.0), ..self } } else { self },
            StunAttr::RequestedTransport(v) => if self.requested_transport is None { Flat { requested_transport: Some(v.0), ..self } } else { self },
            StunAttr::DontFragment => if self.dont_fragment is None { Flat { dont_fragment: Some(()), ..self } } else { self },
            StunAttr::ReservationToken(v) => if self.reservation_token is None { Flat { reservation_token: Some(v), ..self } } else { self },
            StunAttr::Priority(v) => if self.priority is None { Flat { priority: Some(v), ..self } } else { self },
            StunAttr::UseCandidate => if self.use_candidate is None { Flat { use_candidate: Some(()), ..self } } else { self },
            StunAttr::IceControlled(v) => if self.ice_controlled is None { Flat { ice_controlled: Some(v), ..self } } else { self },
            StunAttr::IceControlling(v) => if self.ice_controlling is None { Flat { ice_controlling: Some(v), ..self } } else { self },
            StunAttr::Other(..) => self,
        }
    }

    /// The fold of attributes, left to right.
    pub open spec fn fold(l: Seq<StunAttr<'i>>) -> Flat<'i>
        decreases l.len(),
    {
        if l.len() == 0 {
            Self::spec_empty()
        } else {
            Self::fold(l.drop_last()).absorb(l.last())
        }
    }

    pub fn empty() -> (r: Flat<'i>)
        ensures
            r == Self::spec_empty(),
    {
        Flat {
            mapped: None,
            username: None,
            integrity: None,
            error: None,
            unknown_attributes: None,
            realm: None,
            nonce: None,
            xmapped: None,
            software: None,
            alternate_server: None,
            fingerprint: None,
            channel: None,
            lifetime: None,
            xpeer: None,
            data: None,
            xrelayed: None,
            even_port: None,
            requested_transport: None,
            dont_fragment: None,
            reservation_token: None,
            priority: None,
            use_candidate: None,
            ice_controlled: None,
            ice_controlling: None,
        }
    }

    /// Takes one more attribute into the fold.
    pub fn push(&mut self, a: StunAttr<'i>)
        ensures
            *final(self) == old(self).absorb(a),
    {
        match a {
            StunAttr::Mapped(v) => {
                if self.mapped.is_none() {
                    self.mapped = Some(v.0);
                }
            },
            StunAttr::Username(v) => {
                if self.username.is_none() {
                    self.username = Some(v);
                }
            },
            StunAttr::Integrity(v) => {
                if self.integrity.is_none() {
                    self.integrity = Some(v);
                }
            },
            StunAttr::Error(v) => {
                if self.error.is_none() {
                    self.error = Some(v);
                }
            },
            StunAttr::UnknownAttributes(v) => {
                if self.unknown_attributes.is_none() {
                    self.unknown_attributes = Some(v);
                }
            },
            StunAttr::Realm(v) => {
                if self.realm.is_none() {
                    self.realm = Some(v);
                }
            },
            StunAttr::Nonce(v) => {
                if self.nonce.is_none() {
                    self.nonce = Some(v);
                }
            },
            StunAttr::XMapped(v) => {
                if self.xmapped.is_none() {
                    self.xmapped = Some(v);
                }
            },
            StunAttr::Software(v) => {
                if self.software.is_none() {
                    self.software = Some(v);
                }
            },
            StunAttr::AlternateServer(v) => {
                if self.alternate_server.is_none() {
                    self.alternate_server = Some(v);
                }
            },
            StunAttr::Fingerprint => {
                if self.fingerprint.is_none() {
                    self.fingerprint = Some(());
                }
            },
            StunAttr::Channel(v) => {
                if self.channel.is_none() {
                    self.channel = Some(v);
                }
            },
            StunAttr::Lifetime(v) => {
                if self.lifetime.is_none() {
                    self.lifetime = Some(v);
                }
            },
            StunAttr::XPeer(v) => {
                if self.xpeer.is_none() {
                    self.xpeer = Some(v);
                }
            },
            StunAttr::Data(v) => {
                if self.data.is_none() {
                    self.data = Some(v);
                }
            },
            StunAttr::XRelayed(v) => {
                if self.xrelayed.is_none() {
                    self.xrelayed = Some(v);
                }
            },
            StunAttr::EvenPort(v) => {
                if self.even_port.is_none() {
                    self.even_port = Some(v.0);
                }
            },
            StunAttr::RequestedTransport(v) => {
                if self.requested_transport.is_none() {
                    self.requested_transport = Some(v.0);
                }
            },
            StunAttr::DontFragment => {
                if self.dont_fragment.is_none() {
                    self.dont_fragment = Some(());
                }
            },
            StunAttr::ReservationToken(v) => {
                if self.reservation_token.is_none() {
                    self.reservation_token = Some(v);
                }
            },
            StunAttr::Priority(v) => {
                if self.priority.is_none() {
                    self.priority = Some(v);
                }
            },
            StunAttr::UseCandidate => {
                if self.use_candidate.is_none() {
                    self.use_candidate = Some(());
                }
            },
            StunAttr::IceControlled(v) => {
                if self.ice_controlled.is_none() {
                    self.ice_controlled = Some(v);
                }
            },
            StunAttr::IceControlling(v) => {
                if self.ice_controlling.is_none() {
                    self.ice_controlling = Some(v);
                }
            },
            StunAttr::Other(..) => {},
        }
    }

    /// The credential check once the password is known: it passes when the
    /// message has a USERNAME and a MESSAGE-INTEGRITY that the password
    /// verifies, and then gives the username and the password.
    pub fn auth_with(&self, password: Option<Vec<u8>>) -> (r: Option<(&'i str, Vec<u8>)>)
        ensures
            r is Some <==> {
                &&& self.username is Some
                &&& self.integrity is Some
                &&& password is Some
                &&& self.integrity->0.verifies(password->0@)
            },
            r matches Some((u, p)) ==> self.username == Some(u) && password == Some(p),
    {
        let username = match self.username {
            Some(u) => u,
            None => return None,
        };
        let integrity = match self.integrity {
            Some(i) => i,
            None => return None,
        };
        let password = match password {
            Some(p) => p,
            None => return None,
        };
        if integrity.verify(password.as_slice()) {
            Some((username, password))
        } else {
            None
        }
    }

    /// Looks the password up by username and realm, then checks the
    /// message's MESSAGE-INTEGRITY with it.
    pub fn check_auth<F: FnOnce(&'i str, Option<&'i str>) -> Option<Vec<u8>>>(&self, f: F) -> (r:
        Option<(&'i str, Vec<u8>)>)
        requires
            self.username matches Some(u) ==> f.requires((u, self.realm)),
        ensures
            (self.username is None || self.integrity is None) ==> r is None,
            r matches Some((u, p)) ==> {
                &&& self.username == Some(u)
                &&& f.ensures((u, self.realm), Some(p))
                &&& self.integrity matches Some(i) && i.verifies(p@)
            },
    {
        let username = match self.username {
            Some(u) => u,
            None => return None,
        };
        let realm = self.realm;
        if self.integrity.is_none() {
            return None;
        }
        let password = f(username, realm);
        self.auth_with(password)
    }

    /// Folds attributes left to right, keeping the first of each kind.
    pub fn from_iter(attrs: &[StunAttr<'i>]) -> (r: Flat<'i>)
        ensures
            r == Self::fold(attrs@),
    {
        let mut flat = Flat::empty();
        let n = attrs.len();
        let mut i: usize = 0;
        while i < n
            invariant
                i <= n,
                n == attrs@.len(),
                flat == Self::fold(attrs@.take(i as int)),
            decreases n - i,
        {
            proof {
                assert(attrs@.take(i + 1).drop_last() =~= attrs@.take(i as int));
            }
            flat.push(attrs[i]);
            i += 1;
        }
        assert(attrs@.take(n as int) =~= attrs@);
        flat
    }
}

} // verus!
