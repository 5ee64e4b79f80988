//! Ports on the router: what is asked for, and what the answers come to.

use crate::text::{decimal, decimal_text};
use vstd::prelude::*;
use vstd::string::*;

verus! {

/// How long a mapping is asked for, in seconds.
pub const LEASE: u64 = 3600;

/// The ports to open. The gateway has none: off this machine it is reached over
/// the port of direct connections.
#[derive(Debug, Clone, Copy, PartialEq, Eq, Structural)]
pub struct Ports {
    pub media_tcp: u16,
    pub media_tcp_ice: u16,
    pub media_udp: u16,
    pub quic_udp: u16,
}

/// What the router granted.
#[derive(Debug, Clone, PartialEq, Eq)]
pub struct Mapped {
    pub method: &'static str,
    pub public_ip: String,
    pub public_v6: bool,
    pub media: bool,
    pub quic: bool,
    pub hairpin: bool,
}

/// An address.
#[derive(Debug, Clone, Copy, PartialEq, Eq, Structural)]
pub enum Ip {
    V4(u32),
    V6(u128),
}

/// The first byte of an address.
pub open spec fn octet0(n: u32) -> int {
    n as int / 0x100_0000
}

/// The second byte of an address.
pub open spec fn octet1(n: u32) -> int {
    n as int / 0x1_0000 % 0x100
}

/// Whether an address is not one of the public network: private, this machine's
/// own, link-local, or shared behind a provider.
pub open spec fn is_private_ip(ip: Ip) -> bool {
    match ip {
        Ip::V4(n) => {
            ||| octet0(n) == 10
            ||| octet0(n) == 172 && 16 <= octet1(n) < 32
            ||| octet0(n) == 192 && octet1(n) == 168
            ||| octet0(n) == 127
            ||| octet0(n) == 169 && octet1(n) == 254
            ||| octet0(n) == 100 && 64 <= octet1(n) < 128
        },
        Ip::V6(n) => n == 1 || n / 0x200_0000_0000_0000_0000_0000_0000_0000 == 0x7e,
    }
}

/// Whether an address is not one of the public network.
pub fn is_private(ip: Ip) -> (r: bool)
    ensures
        r == is_private_ip(ip),
{
    match ip {
        Ip::V4(n) => {
            let a: u32 = n / 0x100_0000;
            let b: u32 = n / 0x1_0000 % 0x100;
            a == 10 || (a == 172 && 16 <= b && b < 32) || (a == 192 && b == 168) || a == 127 || (a
                == 169 && b == 254) || (a == 100 && 64 <= b && b < 128)
        },
        Ip::V6(n) => n == 1 || n / 0x200_0000_0000_0000_0000_0000_0000_0000 == 0x7e,
    }
}

/// An address of four bytes in its usual form.
pub open spec fn dotted(n: u32) -> Seq<char> {
    decimal((n / 0x100_0000) as nat) + "."@ + decimal((n / 0x1_0000 % 0x100) as nat) + "."@
        + decimal((n / 0x100 % 0x100) as nat) + "."@ + decimal((n % 0x100) as nat)
}

/// Writes an address of four bytes in its usual form.
pub fn dotted_text(n: u32) -> (r: String)
    ensures
        r@ == dotted(n),
{
    decimal_text((n / 0x100_0000) as u64).concat(".").concat(
        decimal_text((n / 0x1_0000 % 0x100) as u64).as_str(),
    ).concat(".").concat(decimal_text((n / 0x100 % 0x100) as u64).as_str()).concat(".").concat(
        decimal_text((n % 0x100) as u64).as_str(),
    )
}

/// An address with a port, the longer kind in brackets.
pub open spec fn socket_text(ip: Seq<char>, v6: bool, port: u16) -> Seq<char> {
    if v6 {
        "["@ + ip + "]:"@ + decimal(port as nat)
    } else {
        ip + ":"@ + decimal(port as nat)
    }
}

/// Writes an address with a port.
pub fn socket(ip: &str, v6: bool, port: u16) -> (r: String)
    ensures
        r@ == socket_text(ip@, v6, port),
{
    if v6 {
        "[".to_owned().concat(ip).concat("]:").concat(decimal_text(port as u64).as_str())
    } else {
        ip.to_owned().concat(":").concat(decimal_text(port as u64).as_str())
    }
}

/// What is said when the router's own address is not public.
pub open spec fn private_refusal(public_ip: Seq<char>) -> Seq<char> {
    "your router's own address ("@ + public_ip
        + ") is private, so it is behind another NAT — usually carrier-grade NAT at your ISP. Nothing this machine can do opens a path in; you need the relay, or a provider that gives you a public address."@
}

/// Checks that the router's own address, with its text, is public.
pub fn check_public(ip: Ip, text: &str) -> (r: Result<(), String>)
    ensures
        r is Err <==> is_private_ip(ip),
        r is Err ==> r->Err_0@ == private_refusal(text@),
{
    if is_private(ip) {
        Err(
            "your router's own address (".to_owned().concat(text).concat(
                ") is private, so it is behind another NAT — usually carrier-grade NAT at your ISP. Nothing this machine can do opens a path in; you need the relay, or a provider that gives you a public address.",
            ),
        )
    } else {
        Ok(())
    }
}

/// What a port carries.
#[derive(Debug, Clone, Copy, PartialEq, Eq, Structural)]
pub enum Protocol {
    Tcp,
    Udp,
}

/// The mappings to ask for and to renew: that of direct connections first, then
/// those of media.
pub fn mappings(ports: Ports) -> (r: [(Protocol, u16); 4])
    ensures
        r@ == seq![
            (Protocol::Udp, ports.quic_udp),
            (Protocol::Tcp, ports.media_tcp),
            (Protocol::Tcp, ports.media_tcp_ice),
            (Protocol::Udp, ports.media_udp),
        ],
{
    let r: [(Protocol, u16); 4] = [
        (Protocol::Udp, ports.quic_udp),
        (Protocol::Tcp, ports.media_tcp),
        (Protocol::Tcp, ports.media_tcp_ice),
        (Protocol::Udp, ports.media_udp),
    ];
    assert(r@ =~= seq![
        (Protocol::Udp, ports.quic_udp),
        (Protocol::Tcp, ports.media_tcp),
        (Protocol::Tcp, ports.media_tcp_ice),
        (Protocol::Udp, ports.media_udp),
    ]);
    r
}

/// What is said when no router accepts a mapping.
pub fn no_router(igd_err: &str, natpmp_err: &str) -> (r: String)
    ensures
        r@ == "no router accepted a port mapping — UPnP-IGD: "@ + igd_err@ + "; NAT-PMP: "@
            + natpmp_err@
            + ". Either both are disabled on your router, or your ISP puts you behind carrier-grade NAT, where no public address exists to map."@,
{
    "no router accepted a port mapping — UPnP-IGD: ".to_owned().concat(igd_err).concat(
        "; NAT-PMP: ",
    ).concat(natpmp_err).concat(
        ". Either both are disabled on your router, or your ISP puts you behind carrier-grade NAT, where no public address exists to map.",
    )
}

/// Whether a router granted a port under its own number. Another number is of no
/// use: friends cannot be told a port that is not held.
pub open spec fn granted(answer: Result<u16, String>, port: u16) -> bool {
    answer == Ok::<u16, String>(port)
}

/// What is mapped once the port of direct connections was asked for, or why nothing
/// is: a refusal there ends it, another number does not.
pub fn judge_quic(answer: &Result<u16, String>, port: u16) -> (r: Result<bool, String>)
    ensures
        match *answer {
            Ok(_) => r == Ok::<bool, String>(granted(*answer, port)),
            Err(e) => r is Err && r->Err_0@ == "the router refused to forward the QUIC port: "@
                + e@,
        },
{
    match answer {
        Ok(external) => Ok(*external == port),
        Err(e) => Err(
            "the router refused to forward the QUIC port: ".to_owned().concat(e.as_str()),
        ),
    }
}

/// Whether the media can use the router: every one of its ports was granted.
pub fn judge_media(
    media_tcp: &Result<u16, String>,
    media_tcp_ice: &Result<u16, String>,
    media_udp: &Result<u16, String>,
    ports: Ports,
) -> (r: bool)
    ensures
        r == (granted(*media_tcp, ports.media_tcp) && granted(*media_tcp_ice, ports.media_tcp_ice)
            && granted(*media_udp, ports.media_udp)),
{
    is_granted(media_tcp, ports.media_tcp) && is_granted(media_tcp_ice, ports.media_tcp_ice)
        && is_granted(media_udp, ports.media_udp)
}

fn is_granted(answer: &Result<u16, String>, port: u16) -> (r: bool)
    ensures
        r == granted(*answer, port),
{
    match answer {
        Ok(external) => *external == port,
        Err(_) => false,
    }
}

/// What was mapped. Whether the router sends its own address back inside matters
/// only to media.
pub fn mapped(
    method: &'static str,
    public_ip: String,
    public_v6: bool,
    quic: bool,
    media: bool,
    probe: bool,
) -> (r: Mapped)
    ensures
        r == (Mapped { method, public_ip, public_v6, media, quic, hairpin: media && probe }),
{
    Mapped { method, public_ip, public_v6, media, quic, hairpin: media && probe }
}

} // verus!
