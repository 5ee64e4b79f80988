//! Hosting from this machine: who can reach it, and what is said of that.

use crate::crypto::{hex_text, sha256};
use crate::identity::Identity;
use crate::portmap::{Ip, Mapped, dotted, dotted_text, octet0, socket, socket_text};
use crate::quic::{endpoint_for, endpoint_public};
use crate::text::{decimal, decimal_text, texts};
use vstd::prelude::*;
use vstd::string::*;
use vstd::utf8::*;

verus! {

/// Who can reach a host.
#[derive(Debug, Clone, PartialEq, Eq)]
pub enum Reachability {
    LoopbackOnly,
    LanOnly { reason: String },
    Direct { endpoint: String, method: &'static str, media: bool },
}

/// What is known of a host that runs here.
#[derive(Debug, Clone, PartialEq, Eq)]
pub struct HostInfo {
    pub gateway_addr: String,
    pub livekit_url: String,
    pub lan_url: String,
    pub local_url: String,
    pub voice_bundled: bool,
    pub shortcode: Option<String>,
    pub publish_error: Option<String>,
    pub listed_public: bool,
    pub reachability: Reachability,
}

/// The address to listen on.
pub fn bind_ip(allow_lan: bool) -> (r: &'static str)
    ensures
        r@ == if allow_lan {
            "0.0.0.0"@
        } else {
            "127.0.0.1"@
        },
{
    if allow_lan {
        "0.0.0.0"
    } else {
        "127.0.0.1"
    }
}

/// An address of this machine, and as it is written.
#[derive(Debug, Clone, PartialEq, Eq)]
pub struct LocalIp {
    pub ip: Ip,
    pub text: String,
}

/// Whether an address of four bytes is this machine's own or none at all.
pub open spec fn is_nowhere(n: u32) -> bool {
    octet0(n) == 127 || n == 0
}

fn nowhere(n: u32) -> (r: bool)
    ensures
        r == is_nowhere(n),
{
    n / 0x100_0000 == 127 || n == 0
}

/// The address of four bytes at which others on the network reach this machine.
pub fn local_ipv4(ip: Option<Ip>) -> (r: Option<u32>)
    ensures
        r == match ip {
            Some(Ip::V4(n)) => if is_nowhere(n) {
                None
            } else {
                Some(n)
            },
            _ => None,
        },
{
    match ip {
        Some(Ip::V4(n)) => if nowhere(n) {
            None
        } else {
            Some(n)
        },
        _ => None,
    }
}

/// Which doors a host opens besides the one on this machine: that of direct
/// connections, and one in the router.
pub open spec fn open_doors(allow_lan: bool, has_local_v4: bool) -> (bool, bool) {
    (allow_lan, allow_lan && has_local_v4)
}

/// Decides which doors a host opens: whether to listen for direct connections, and
/// whether to ask the router for ports.
pub fn doors(allow_lan: bool, has_local_v4: bool) -> (r: (bool, bool))
    ensures
        r == open_doors(allow_lan, has_local_v4),
        r.0 == allow_lan,
        r.1 == (allow_lan && has_local_v4),
{
    (allow_lan, allow_lan && has_local_v4)
}

/// What came of asking the router for ports.
pub enum MappingOutcome {
    /// There is no address on a local network to map to.
    NoAddress,
    Refused(String),
    Granted(Mapped),
}

/// Whether a host is reached like this.
pub open spec fn reached(
    allow_lan: bool,
    outcome: MappingOutcome,
    gateway_port: u16,
    r: Reachability,
) -> bool {
    if !allow_lan {
        r is LoopbackOnly
    } else {
        match outcome {
            MappingOutcome::NoAddress => r matches Reachability::LanOnly { reason } && reason@
                == "this machine has no IPv4 address on a local network"@,
            MappingOutcome::Refused(why) => r == (Reachability::LanOnly { reason: why }),
            MappingOutcome::Granted(m) => r matches Reachability::Direct {
                endpoint,
                method,
                media,
            } && endpoint@ == socket_text(m.public_ip@, m.public_v6, gateway_port) && method
                == m.method && media == (m.media && m.hairpin),
        }
    }
}

/// Finds out who can reach a host. Its media is reached directly only when the
/// router also sends its own address back inside.
pub fn reachability(allow_lan: bool, outcome: MappingOutcome, gateway_port: u16) -> (r: Reachability)
    ensures
        reached(allow_lan, outcome, gateway_port, r),
{
    if !allow_lan {
        return Reachability::LoopbackOnly;
    }
    match outcome {
        MappingOutcome::NoAddress => Reachability::LanOnly {
            reason: "this machine has no IPv4 address on a local network".to_owned(),
        },
        MappingOutcome::Refused(reason) => Reachability::LanOnly { reason },
        MappingOutcome::Granted(m) => Reachability::Direct {
            endpoint: socket(m.public_ip.as_str(), m.public_v6, gateway_port),
            method: m.method,
            media: m.media && m.hairpin,
        },
    }
}

/// The address that the media server names as its own, where it can.
pub fn advertised_ip(mapped: &Option<Mapped>) -> (r: Option<&str>)
    ensures
        match *mapped {
            Some(m) => if m.media && m.hairpin {
                r is Some && r->Some_0@ == m.public_ip@
            } else {
                r is None
            },
            None => r is None,
        },
{
    match mapped {
        Some(m) => if m.media && m.hairpin {
            Some(m.public_ip.as_str())
        } else {
            None
        },
        None => None,
    }
}

/// The addresses at which a host can be dialled: the router's, this network's and
/// the relays'.
pub open spec fn dial_addresses(
    mapped: Option<Mapped>,
    local: Option<u32>,
    port: u16,
    relays: Seq<Seq<char>>,
) -> Seq<Seq<char>> {
    (match mapped {
        Some(m) => if m.quic {
            seq![socket_text(m.public_ip@, m.public_v6, port)]
        } else {
            Seq::empty()
        },
        None => Seq::empty(),
    }) + (match local {
        Some(ip) => seq![socket_text(dotted(ip), false, port)],
        None => Seq::empty(),
    }) + relays
}

/// Whether there is anything to tell a directory of dialling a host: a port to dial,
/// and somewhere to dial it.
pub open spec fn can_be_told(
    mapped: Option<Mapped>,
    local: Option<u32>,
    port: Option<u16>,
    relays: Seq<Seq<char>>,
) -> bool {
    port is Some && dial_addresses(mapped, local, port->Some_0, relays).len() > 0
}

/// What a directory is told of dialling a host: its key, and where it is.
#[derive(Debug, Clone, PartialEq, Eq)]
pub struct TransportAdvert {
    pub key: String,
    pub addrs: Vec<String>,
}

/// What a directory is told of dialling a host. Without a port, or without any
/// address, there is nothing to tell.
pub fn transport_advert(
    identity: &Identity,
    mapped: &Option<Mapped>,
    local: Option<u32>,
    port: Option<u16>,
    relays: &Vec<String>,
) -> (r: Option<TransportAdvert>)
    ensures
        r is Some <==> can_be_told(*mapped, local, port, texts(relays@)),
        r is Some ==> texts(r->Some_0.addrs@) == dial_addresses(
            *mapped,
            local,
            port->Some_0,
            texts(relays@),
        ) && r->Some_0.key@ == hex_text(
            endpoint_public(sha256(encode_utf8("dioxusfun/quic-transport/v1"@) + identity.key())),
        ),
{
    let port: u16 = match port {
        Some(port) => port,
        None => {
            return None;
        },
    };
    let addrs: Vec<String> = transport_addrs(mapped, local, port, relays);
    if addrs.len() > 0 {
        Some(TransportAdvert { key: endpoint_for(identity), addrs })
    } else {
        None
    }
}

fn transport_addrs(
    mapped: &Option<Mapped>,
    local: Option<u32>,
    port: u16,
    relays: &Vec<String>,
) -> (r: Vec<String>)
    ensures
        texts(r@) == dial_addresses(*mapped, local, port, texts(relays@)),
{
    let mut out: Vec<String> = Vec::new();
    if let Some(m) = mapped {
        if m.quic {
            out.push(socket(m.public_ip.as_str(), m.public_v6, port));
        }
    }
    if let Some(ip) = local {
        out.push(socket(dotted_text(ip).as_str(), false, port));
    }
    let ghost before = texts(out@);
    let mut i: usize = 0;
    assert(texts(relays@).take(0) =~= Seq::empty());
    while i < relays.len()
        invariant
            i <= relays@.len(),
            texts(out@) =~= before + texts(relays@).take(i as int),
        decreases relays@.len() - i,
    {
        let ghost was = out@;
        out.push(relays[i].clone());
        assert(texts(out@) =~= texts(was).push(relays@[i as int]@));
        i = i + 1;
    }
    assert(texts(relays@).take(i as int) =~= texts(relays@));
    assert(texts(out@) =~= dial_addresses(*mapped, local, port, texts(relays@)));
    out
}

/// The URL of the gateway on this machine.
pub open spec fn local_url_text(port: u16) -> Seq<char> {
    "ws://127.0.0.1:"@ + decimal(port as nat)
}

/// The URL of the gateway on this machine.
pub fn local_url(port: u16) -> (r: String)
    ensures
        r@ == local_url_text(port),
{
    "ws://127.0.0.1:".to_owned().concat(decimal_text(port as u64).as_str())
}

/// The URL of the gateway on the network, and on this machine where the network
/// gives no address.
pub open spec fn lan_url_text(ip: Option<LocalIp>, port: u16) -> Seq<char> {
    match ip {
        Some(l) => match l.ip {
            Ip::V4(n) => if is_nowhere(n) {
                local_url_text(port)
            } else {
                "ws://"@ + l.text@ + ":"@ + decimal(port as nat)
            },
            Ip::V6(_) => "ws://"@ + l.text@ + ":"@ + decimal(port as nat),
        },
        None => local_url_text(port),
    }
}

/// The URL of the gateway on the network.
pub fn lan_url_for(ip: &Option<LocalIp>, port: u16) -> (r: String)
    ensures
        r@ == lan_url_text(*ip, port),
{
    match ip {
        Some(l) => {
            let usable: bool = match l.ip {
                Ip::V4(n) => !nowhere(n),
                Ip::V6(_) => true,
            };
            if usable {
                "ws://".to_owned().concat(l.text.as_str()).concat(":").concat(
                    decimal_text(port as u64).as_str(),
                )
            } else {
                local_url(port)
            }
        },
        None => local_url(port),
    }
}

/// Whether the media server in the bundle is started: only where a directory has
/// not named another.
pub fn starts_bundled(shared_sfu: Option<&str>) -> (r: bool)
    ensures
        r == (shared_sfu is None),
{
    shared_sfu.is_none()
}

/// Whether tokens are minted by the directory: it names a media server and has
/// given a grant for it.
pub fn minted_elsewhere(livekit_url: Option<&str>, grant: Option<&str>) -> (r: bool)
    ensures
        r == (livekit_url is Some && grant is Some),
{
    livekit_url.is_some() && grant.is_some()
}

/// What is shown as the media server.
pub fn livekit_display(shared_sfu: Option<&str>, bundled: bool, port: u16) -> (r: String)
    ensures
        r@ == match shared_sfu {
            Some(url) => url@,
            None => if bundled {
                local_url_text(port)
            } else {
                Seq::<char>::empty()
            },
        },
{
    match shared_sfu {
        Some(url) => url.to_owned(),
        None => if bundled {
            local_url(port)
        } else {
            String::new()
        },
    }
}

/// What came of registering with a directory.
pub enum Registration {
    /// No directory was asked.
    NotAsked,
    Failed(String),
    Done { shortcode: String, livekit_url: Option<String> },
}

/// Puts together what is known of a host once it runs.
pub fn host_info(
    gateway_addr: String,
    gateway_port: u16,
    lan_ip: &Option<LocalIp>,
    registration: Registration,
    bundled_running: bool,
    sfu_port: u16,
    listed_public: bool,
    reachability: Reachability,
) -> (r: HostInfo)
    ensures
        r.gateway_addr == gateway_addr,
        r.local_url@ == local_url_text(gateway_port),
        r.lan_url@ == lan_url_text(*lan_ip, gateway_port),
        r.listed_public == listed_public,
        r.reachability == reachability,
        match registration {
            Registration::Done { shortcode, livekit_url } => r.shortcode == Some(shortcode)
                && r.publish_error is None && match livekit_url {
                Some(url) => !r.voice_bundled && r.livekit_url@ == url@,
                None => r.voice_bundled == bundled_running && r.livekit_url@
                    == if bundled_running {
                    local_url_text(sfu_port)
                } else {
                    Seq::<char>::empty()
                },
            },
            Registration::Failed(e) => r.shortcode is None && r.publish_error == Some(e)
                && r.voice_bundled == bundled_running && r.livekit_url@ == if bundled_running {
                local_url_text(sfu_port)
            } else {
                Seq::<char>::empty()
            },
            Registration::NotAsked => r.shortcode is None && r.publish_error is None
                && r.voice_bundled == bundled_running && r.livekit_url@ == if bundled_running {
                local_url_text(sfu_port)
            } else {
                Seq::<char>::empty()
            },
        },
{
    let (shortcode, publish_error, shared): (
        Option<String>,
        Option<String>,
        Option<String>,
    ) = match registration {
        Registration::NotAsked => (None, None, None),
        Registration::Failed(e) => (None, Some(e), None),
        Registration::Done { shortcode, livekit_url } => (Some(shortcode), None, livekit_url),
    };
    let url: Option<&str> = match &shared {
        Some(url) => Some(url.as_str()),
        None => None,
    };
    let voice_bundled: bool = starts_bundled(url) && bundled_running;
    HostInfo {
        gateway_addr,
        livekit_url: livekit_display(url, voice_bundled, sfu_port),
        lan_url: lan_url_for(lan_ip, gateway_port),
        local_url: local_url(gateway_port),
        voice_bundled,
        shortcode,
        publish_error,
        listed_public,
        reachability,
    }
}

/// A host that does not allow the network opens nothing but itself: no door for direct
/// connections and none in the router, so that it is reached from this machine alone
/// and no directory is told how to dial it. A port is known only of a door that was
/// opened, and the router has granted something only where it was asked.
pub proof fn closed_doors_stay_closed(
    has_local_v4: bool,
    outcome: MappingOutcome,
    gateway_port: u16,
    r: Reachability,
    mapped: Option<Mapped>,
    local: Option<u32>,
    port: Option<u16>,
    relays: Seq<Seq<char>>,
)
    requires
        reached(false, outcome, gateway_port, r),
        port is Some ==> open_doors(false, has_local_v4).0,
        mapped is Some ==> open_doors(false, has_local_v4).1,
    ensures
        open_doors(false, has_local_v4) == (false, false),
        r is LoopbackOnly,
        mapped is None,
        !can_be_told(mapped, local, port, relays),
{
}

} // verus!
