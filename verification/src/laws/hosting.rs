//! What holds of hosting from this machine, and of dialling a host.

use crate::host::{
    LocalIp, MappingOutcome, Reachability, dial_addresses, is_nowhere, lan_url_text, reached,
};
use crate::portmap::{Ip, Mapped, dotted, granted, is_private_ip, socket_text};
use crate::quic::{
    AddrView, Coordination, GivenAddr, first_relay, introduces, read_addresses, relay_reading,
};
use crate::text::{decimal, opt_text};
use vstd::prelude::*;
use vstd::string::*;

verus! {

/// Which addresses are no public ones: the three private blocks, this machine's, the
/// link-local block and the one that providers share; of the longer kind this machine's
/// own and the unique local ones. Every other is public.
pub proof fn private_blocks(n: u32, m: u128)
    ensures
        is_private_ip(Ip::V4(n)) <==> {
            ||| 0x0a00_0000 <= n <= 0x0aff_ffff
            ||| 0xac10_0000 <= n <= 0xac1f_ffff
            ||| 0xc0a8_0000 <= n <= 0xc0a8_ffff
            ||| 0x7f00_0000 <= n <= 0x7fff_ffff
            ||| 0xa9fe_0000 <= n <= 0xa9fe_ffff
            ||| 0x6440_0000 <= n <= 0x647f_ffff
        },
        is_private_ip(Ip::V6(m)) <==> m == 1 || 0xfc00_0000_0000_0000_0000_0000_0000_0000 <= m
            <= 0xfdff_ffff_ffff_ffff_ffff_ffff_ffff_ffff,
        is_nowhere(n) <==> n == 0 || 0x7f00_0000 <= n <= 0x7fff_ffff,
{
}

/// A host is dialled at the router's address where the router forwards the port, at this
/// network's where there is one, and at every relay; and nowhere else.
pub proof fn a_host_tells_where_it_is(
    mapped: Option<Mapped>,
    local: Option<u32>,
    port: u16,
    relays: Seq<Seq<char>>,
)
    ensures
        mapped matches Some(m) ==> m.quic ==> dial_addresses(mapped, local, port, relays).contains(
            socket_text(m.public_ip@, m.public_v6, port),
        ),
        local matches Some(ip) ==> dial_addresses(mapped, local, port, relays).contains(
            socket_text(dotted(ip), false, port),
        ),
        forall|i: int|
            0 <= i < relays.len() ==> dial_addresses(mapped, local, port, relays).contains(
                #[trigger] relays[i],
            ),
        forall|i: int|
            0 <= i < dial_addresses(mapped, local, port, relays).len() ==> {
                let a = #[trigger] dial_addresses(mapped, local, port, relays)[i];
                ||| relays.contains(a)
                ||| mapped matches Some(m) && m.quic && a == socket_text(
                    m.public_ip@,
                    m.public_v6,
                    port,
                )
                ||| local matches Some(ip) && a == socket_text(dotted(ip), false, port)
            },
{
    let all = dial_addresses(mapped, local, port, relays);
    let a = if mapped is Some && mapped->Some_0.quic {
        1int
    } else {
        0int
    };
    let b = if local is Some {
        1int
    } else {
        0int
    };
    if a == 1 {
        assert(all[0] == socket_text(mapped->Some_0.public_ip@, mapped->Some_0.public_v6, port));
    }
    if b == 1 {
        assert(all[a] == socket_text(dotted(local->Some_0), false, port));
    }
    assert forall|i: int| 0 <= i < relays.len() implies all.contains(#[trigger] relays[i]) by {
        assert(all[a + b + i] == relays[i]);
    }
    assert forall|i: int| a + b <= i < all.len() implies relays.contains(#[trigger] all[i]) by {
        assert(relays[i - a - b] == all[i]);
    }
}

/// Who reaches a host: nobody outside where the network is not allowed, the local
/// network where the router grants nothing, and everybody where it does. Media goes
/// directly only where its ports were granted and the router sends its own address back
/// inside.
pub proof fn who_reaches_a_host(
    allow_lan: bool,
    outcome: MappingOutcome,
    gateway_port: u16,
    r: Reachability,
)
    requires
        reached(allow_lan, outcome, gateway_port, r),
    ensures
        r is LoopbackOnly <==> !allow_lan,
        r is Direct <==> allow_lan && outcome is Granted,
        r is LanOnly <==> allow_lan && !(outcome is Granted),
        r matches Reachability::Direct { endpoint, method, media } ==> outcome is Granted
            && endpoint@ == socket_text(
            outcome->Granted_0.public_ip@,
            outcome->Granted_0.public_v6,
            gateway_port,
        ) && method == outcome->Granted_0.method && (media <==> outcome->Granted_0.media
            && outcome->Granted_0.hairpin),
        allow_lan ==> (outcome matches MappingOutcome::Refused(why) ==> r == (
        Reachability::LanOnly { reason: why })),
{
}

/// The relay that introduces us is the first that is named, and none where none is.
pub proof fn the_first_relay_introduces(addrs: Seq<AddrView>)
    ensures
        first_relay(addrs) matches Some(url) ==> exists|i: int|
            0 <= i < addrs.len() && #[trigger] addrs[i] == AddrView::Relay(url) && forall|j: int|
                0 <= j < i ==> (#[trigger] addrs[j]) is Ip,
        first_relay(addrs) is None <==> forall|j: int|
            0 <= j < addrs.len() ==> (#[trigger] addrs[j]) is Ip,
    decreases addrs.len(),
{
    if addrs.len() > 0 {
        let rest = addrs.drop_first();
        the_first_relay_introduces(rest);
        if addrs[0] is Ip {
            if let Some(url) = first_relay(rest) {
                let i = choose|i: int|
                    0 <= i < rest.len() && #[trigger] rest[i] == AddrView::Relay(url) && forall|
                        j: int,
                    |
                        0 <= j < i ==> (#[trigger] rest[j]) is Ip;
                assert(addrs[i + 1] == AddrView::Relay(url));
                assert forall|j: int| 0 <= j < i + 1 implies (#[trigger] addrs[j]) is Ip by {
                    if j > 0 {
                        assert(rest[j - 1] is Ip);
                    }
                }
            } else {
                assert forall|j: int| 0 <= j < addrs.len() implies (#[trigger] addrs[j]) is Ip by {
                    if j > 0 {
                        assert(rest[j - 1] is Ip);
                    }
                }
            }
        } else {
            assert(addrs[0] == AddrView::Relay(first_relay(addrs)->Some_0));
            assert(!(addrs[0] is Ip));
        }
    }
}

/// Every way to a host that can be read is tried, and nothing else: an address of a
/// socket as it is, and anything else as the relay it names.
pub proof fn every_way_is_tried(given: Seq<GivenAddr>)
    ensures
        forall|i: int|
            0 <= i < given.len() ==> ((#[trigger] given[i]).socket matches Some(s) ==> read_addresses(
                given,
            ).contains(AddrView::Ip(s@))),
        forall|i: int|
            0 <= i < given.len() && (#[trigger] given[i]).socket is None ==> (relay_reading(
                given[i].raw@,
            ) matches Some(url) ==> read_addresses(given).contains(AddrView::Relay(url))),
        forall|k: int|
            0 <= k < read_addresses(given).len() ==> exists|i: int|
                {
                    &&& 0 <= i < given.len()
                    &&& match #[trigger] read_addresses(given)[k] {
                        AddrView::Ip(s) => opt_text((#[trigger] given[i]).socket) == Some(s),
                        AddrView::Relay(url) => given[i].socket is None && relay_reading(
                            given[i].raw@,
                        ) == Some(url),
                    }
                },
        read_addresses(given).len() <= given.len(),
    decreases given.len(),
{
    if given.len() > 0 {
        let rest = given.drop_last();
        let before = read_addresses(rest);
        let all = read_addresses(given);
        let last = given.last();
        every_way_is_tried(rest);
        assert forall|x: AddrView| before.contains(x) implies #[trigger] all.contains(x) by {
            let k = choose|k: int| 0 <= k < before.len() && before[k] == x;
            assert(all[k] == x);
        }
        assert forall|i: int| 0 <= i < given.len() implies ((
        #[trigger] given[i]).socket matches Some(s) ==> all.contains(AddrView::Ip(s@))) by {
            if i < rest.len() {
                assert(rest[i] == given[i]);
                if let Some(s) = rest[i].socket {
                    assert(before.contains(AddrView::Ip(s@)));
                }
            } else if let Some(s) = last.socket {
                assert(all[before.len() as int] == AddrView::Ip(s@));
            }
        }
        assert forall|i: int| 0 <= i < given.len() && (#[trigger] given[i]).socket is None implies (
        relay_reading(given[i].raw@) matches Some(url) ==> all.contains(AddrView::Relay(url))) by {
            if i < rest.len() {
                assert(rest[i] == given[i]);
                if let Some(url) = relay_reading(rest[i].raw@) {
                    assert(before.contains(AddrView::Relay(url)));
                }
            } else if let Some(url) = relay_reading(last.raw@) {
                assert(all[before.len() as int] == AddrView::Relay(url));
            }
        }
        assert forall|k: int| 0 <= k < all.len() implies exists|i: int|
            {
                &&& 0 <= i < given.len()
                &&& match #[trigger] all[k] {
                    AddrView::Ip(s) => opt_text((#[trigger] given[i]).socket) == Some(s),
                    AddrView::Relay(url) => given[i].socket is None && relay_reading(given[i].raw@)
                        == Some(url),
                }
            } by {
            if k < before.len() {
                assert(all[k] == before[k]);
                let i = choose|i: int|
                    {
                        &&& 0 <= i < rest.len()
                        &&& match before[k] {
                            AddrView::Ip(s) => opt_text((#[trigger] rest[i]).socket) == Some(s),
                            AddrView::Relay(url) => rest[i].socket is None && relay_reading(
                                rest[i].raw@,
                            ) == Some(url),
                        }
                    };
                assert(given[i] == rest[i]);
            } else {
                assert(given[given.len() - 1] == last);
            }
        }
    }
}

/// The network is told an address of the network: where there is none, or only this
/// machine's own, it is told this machine's.
pub proof fn the_network_is_told_its_address(ip: LocalIp, n: u32, port: u16)
    requires
        ip.ip == Ip::V4(n),
    ensures
        n == 0 || 0x7f00_0000 <= n <= 0x7fff_ffff ==> lan_url_text(Some(ip), port)
            == "ws://127.0.0.1:"@ + decimal(port as nat),
        !(n == 0 || 0x7f00_0000 <= n <= 0x7fff_ffff) ==> lan_url_text(Some(ip), port) == "ws://"@
            + ip.text@ + ":"@ + decimal(port as nat),
        lan_url_text(None, port) == "ws://127.0.0.1:"@ + decimal(port as nat),
{
}

/// A port counts as granted only under its own number.
pub proof fn another_port_is_no_grant(port: u16, other: u16, why: String)
    ensures
        granted(Ok(other), port) <==> other == port,
        !granted(Err(why), port),
{
}

/// A host is introduced by the relay that was named, or by nobody.
pub proof fn the_named_relay_introduces(c: Coordination, url: Seq<char>)
    ensures
        introduces(c, Some(url)) ==> c is Relay && c->Relay_0@ == url,
        introduces(c, None) ==> c is Nobody,
{
}

} // verus!
