//! Dialling a host directly.

use crate::crypto::{SecretKey, hex_encode, hex_text, sha256};
use crate::identity::Identity;
use crate::text::{key_outcome, opt_text};
use vstd::prelude::*;
use vstd::string::*;
use vstd::utf8::*;

verus! {

/// A way to a host: an address, or a relay that knows it.
#[derive(Debug, Clone, PartialEq, Eq)]
pub enum TransportAddr {
    Ip(String),
    Relay(String),
}

/// A way to a host, as mathematics.
pub enum AddrView {
    Ip(Seq<char>),
    Relay(Seq<char>),
}

impl View for TransportAddr {
    type V = AddrView;

    open spec fn view(&self) -> AddrView {
        match *self {
            TransportAddr::Ip(t) => AddrView::Ip(t@),
            TransportAddr::Relay(t) => AddrView::Relay(t@),
        }
    }
}

/// Who introduces us to a host.
#[derive(Debug, Clone, PartialEq, Eq)]
pub enum Coordination {
    Nobody,
    Relay(String),
}

/// The key that a host's name stands for, or the complaint.
pub uninterp spec fn endpoint_reading(raw: Seq<char>) -> Result<Seq<u8>, Seq<char>>;

/// `iroh_base::EndpointId::from_str`, the error as text. The key is what
/// `EndpointId::as_bytes` gives.
#[verifier::external_body]
fn read_endpoint(raw: &str) -> (r: Result<[u8; 32], String>)
    ensures
        key_outcome(r) == endpoint_reading(raw@),
{
    match raw.parse::<iroh_base::EndpointId>() {
        Ok(id) => Ok(*id.as_bytes()),
        Err(e) => Err(e.to_string()),
    }
}

/// The URL of a relay as it is written in full, where a text is one.
pub uninterp spec fn relay_reading(raw: Seq<char>) -> Option<Seq<char>>;

/// `iroh_base::RelayUrl::from_str`, written out again.
#[verifier::external_body]
fn read_relay(raw: &str) -> (r: Option<String>)
    ensures
        opt_text(r) == relay_reading(raw@),
{
    match raw.parse::<iroh_base::RelayUrl>() {
        Ok(url) => Some(url.to_string()),
        Err(_) => None,
    }
}

/// The public key of a secret for direct connections.
pub uninterp spec fn endpoint_public(seed: Seq<u8>) -> Seq<u8>;

/// `iroh_base::SecretKey::from_bytes` and `SecretKey::public`, whose
/// `PublicKey::as_bytes` are thirty-two bytes.
#[verifier::external_body]
fn public_of_seed(seed: &[u8; 32]) -> (r: [u8; 32])
    ensures
        r@ == endpoint_public(seed@),
{
    *iroh_base::SecretKey::from_bytes(seed).public().as_bytes()
}

/// The name of a key, as a host is found by it, or why it is none.
pub open spec fn endpoint_of(raw: Seq<char>) -> Result<Seq<u8>, Seq<char>> {
    match endpoint_reading(raw) {
        Ok(key) => Ok(key),
        Err(e) => Err("bad endpoint key: "@ + e),
    }
}

/// Reads the name of a host's key.
pub fn parse_endpoint_id(raw: &str) -> (r: Result<[u8; 32], String>)
    ensures
        key_outcome(r) == endpoint_of(raw@),
{
    match read_endpoint(raw) {
        Ok(key) => Ok(key),
        Err(e) => Err("bad endpoint key: ".to_owned().concat(e.as_str())),
    }
}

/// A way to a host: an address where the text is one, else a relay.
pub open spec fn address_of(raw: Seq<char>, socket: Option<Seq<char>>) -> Option<AddrView> {
    match socket {
        Some(s) => Some(AddrView::Ip(s)),
        None => match relay_reading(raw) {
            Some(url) => Some(AddrView::Relay(url)),
            None => None,
        },
    }
}

/// What an optional way to a host is, as mathematics.
pub open spec fn opt_address(a: Option<TransportAddr>) -> Option<AddrView> {
    match a {
        Some(a) => Some(a@),
        None => None,
    }
}

/// Reads a way to a host. Where the text is the address of a socket, that address
/// comes with it.
pub fn parse_transport_addr(raw: &str, socket: Option<String>) -> (r: Option<TransportAddr>)
    ensures
        opt_address(r) == address_of(raw@, opt_text(socket)),
{
    match socket {
        Some(s) => Some(TransportAddr::Ip(s)),
        None => match read_relay(raw) {
            Some(url) => Some(TransportAddr::Relay(url)),
            None => None,
        },
    }
}

/// The first relay among the ways to a host.
pub open spec fn first_relay(addrs: Seq<AddrView>) -> Option<Seq<char>>
    decreases addrs.len(),
{
    if addrs.len() == 0 {
        None
    } else {
        match addrs[0] {
            AddrView::Relay(url) => Some(url),
            AddrView::Ip(_) => first_relay(addrs.drop_first()),
        }
    }
}

/// Ways to a host, as mathematics.
pub open spec fn address_views(addrs: Seq<TransportAddr>) -> Seq<AddrView> {
    addrs.map_values(|a: TransportAddr| a@)
}

/// Whether somebody introduces us as the first relay, and nobody where there is none.
pub open spec fn introduces(c: Coordination, relay: Option<Seq<char>>) -> bool {
    match relay {
        Some(url) => c matches Coordination::Relay(u) && u@ == url,
        None => c is Nobody,
    }
}

/// The relay that is named is the one a host is connected to, so it is the one that
/// can introduce us.
pub fn coordination_from(addrs: &Vec<TransportAddr>) -> (r: Coordination)
    ensures
        introduces(r, first_relay(address_views(addrs@))),
{
    let ghost all = address_views(addrs@);
    let mut i: usize = 0;
    assert(all.skip(0) =~= all);
    while i < addrs.len()
        invariant
            i <= addrs@.len(),
            all == address_views(addrs@),
            first_relay(all) == first_relay(all.skip(i as int)),
        decreases addrs@.len() - i,
    {
        assert(all.skip(i as int).drop_first() =~= all.skip(i + 1));
        assert(all.skip(i as int)[0] == addrs@[i as int]@);
        if let TransportAddr::Relay(url) = &addrs[i] {
            return Coordination::Relay(url.clone());
        }
        i = i + 1;
    }
    Coordination::Nobody
}

/// A way to a host as it was given: its text, and the address of a socket where it
/// is one.
#[derive(Debug, Clone, PartialEq, Eq)]
pub struct GivenAddr {
    pub raw: String,
    pub socket: Option<String>,
}

/// The ways among those given that can be read.
pub open spec fn read_addresses(given: Seq<GivenAddr>) -> Seq<AddrView>
    decreases given.len(),
{
    if given.len() == 0 {
        Seq::empty()
    } else {
        let before = read_addresses(given.drop_last());
        match address_of(given.last().raw@, opt_text(given.last().socket)) {
            Some(a) => before.push(a),
            None => before,
        }
    }
}

/// What is dialled.
#[derive(Debug)]
pub struct DialPlan {
    pub endpoint: [u8; 32],
    pub addrs: Vec<TransportAddr>,
    pub coordination: Coordination,
}

/// Plans how a host is dialled: its key must be one, and what cannot be read among
/// the ways to it is passed over; some way there must be.
pub fn dial_plan(key: &str, given: &Vec<GivenAddr>) -> (r: Result<DialPlan, String>)
    ensures
        ({
            let ways = read_addresses(given@);
            match endpoint_of(key@) {
                Err(e) => r is Err && r->Err_0@ == e,
                Ok(id) => if ways.len() == 0 {
                    r is Err && r->Err_0@
                        == "the host published a key but no address to reach it at"@
                } else {
                    r is Ok && r->Ok_0.endpoint@ == id && address_views(r->Ok_0.addrs@) == ways
                        && introduces(r->Ok_0.coordination, first_relay(ways))
                },
            }
        }),
{
    let endpoint: [u8; 32] = match parse_endpoint_id(key) {
        Ok(endpoint) => endpoint,
        Err(e) => {
            return Err(e);
        },
    };
    let mut addrs: Vec<TransportAddr> = Vec::new();
    let mut i: usize = 0;
    assert(given@.take(0) =~= Seq::empty());
    assert(address_views(addrs@) =~= Seq::empty());
    while i < given.len()
        invariant
            i <= given@.len(),
            address_views(addrs@) == read_addresses(given@.take(i as int)),
        decreases given@.len() - i,
    {
        let ghost was = addrs@;
        assert(given@.take(i + 1).drop_last() =~= given@.take(i as int));
        let socket: Option<String> = match &given[i].socket {
            Some(s) => Some(s.clone()),
            None => None,
        };
        if let Some(a) = parse_transport_addr(given[i].raw.as_str(), socket) {
            let ghost view = a@;
            addrs.push(a);
            assert(address_views(addrs@) =~= address_views(was).push(view));
        }
        i = i + 1;
    }
    assert(given@.take(i as int) =~= given@);
    let coordination: Coordination = coordination_from(&addrs);
    if addrs.len() == 0 {
        return Err("the host published a key but no address to reach it at".to_owned());
    }
    Ok(DialPlan { endpoint, addrs, coordination })
}

/// The secret of an identity for direct connections.
pub fn secret_for(identity: &Identity) -> (r: [u8; 32])
    ensures
        r@ == sha256(encode_utf8("dioxusfun/quic-transport/v1"@) + identity.key()),
{
    identity.transport_seed()
}

/// The name under which an identity is dialled.
pub fn endpoint_for(identity: &Identity) -> (r: String)
    ensures
        r@ == hex_text(
            endpoint_public(sha256(encode_utf8("dioxusfun/quic-transport/v1"@) + identity.key())),
        ),
{
    let seed: [u8; 32] = secret_for(identity);
    let key: [u8; 32] = public_of_seed(&seed);
    hex_encode(key.as_slice())
}

} // verus!
