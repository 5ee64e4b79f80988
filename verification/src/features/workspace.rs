//! The window around a session: how one leaves it, what its badges say, and what
//! it keeps tidy.

use crate::host::{HostInfo, Reachability};
use crate::protocol::{ClientMessage, Id, Member};
use crate::state::{AppState, Transport, own_name};
use crate::table::{IdTable, TextTable, as_map, keyed_once, map_at, map_only};
use crate::text::{contains_text, decimal, decimal_text, opt_text, same, texts};
use vstd::prelude::*;
use vstd::string::*;

verus! {

/// Rows of the grid in which the panels lie.
pub const GRID_ROWS: u32 = 30;

/// Where a panel lies.
#[derive(Debug, Clone, Copy, PartialEq, Eq)]
pub struct GridCell {
    pub id: &'static str,
    pub x: u32,
    pub y: u32,
    pub w: u32,
    pub h: u32,
}

/// The panels as they lie at first, side by side over the whole height.
pub fn default_layout() -> (r: Vec<GridCell>)
    ensures
        r@ == seq![
            GridCell { id: "guilds", x: 0, y: 0, w: 1, h: GRID_ROWS },
            GridCell { id: "channels", x: 1, y: 0, w: 2, h: GRID_ROWS },
            GridCell { id: "chat", x: 3, y: 0, w: 7, h: GRID_ROWS },
            GridCell { id: "members", x: 10, y: 0, w: 2, h: GRID_ROWS },
        ],
        forall|i: int|
            0 <= i < 3 ==> (#[trigger] r@[i]).x + r@[i].w == r@[i + 1].x,
{
    let mut out: Vec<GridCell> = Vec::new();
    out.push(GridCell { id: "guilds", x: 0, y: 0, w: 1, h: GRID_ROWS });
    out.push(GridCell { id: "channels", x: 1, y: 0, w: 2, h: GRID_ROWS });
    out.push(GridCell { id: "chat", x: 3, y: 0, w: 7, h: GRID_ROWS });
    out.push(GridCell { id: "members", x: 10, y: 0, w: 2, h: GRID_ROWS });
    assert(out@ =~= seq![
        GridCell { id: "guilds", x: 0, y: 0, w: 1, h: GRID_ROWS },
        GridCell { id: "channels", x: 1, y: 0, w: 2, h: GRID_ROWS },
        GridCell { id: "chat", x: 3, y: 0, w: 7, h: GRID_ROWS },
        GridCell { id: "members", x: 10, y: 0, w: 2, h: GRID_ROWS },
    ]);
    out
}

/// Leaving a session in two beats: the host is asked first, and then the media is
/// torn down before the session goes.
#[derive(Debug, Clone, PartialEq, Eq)]
pub enum Leaving {
    Confirm(String),
    Running(String),
}

/// How leaving stands after one wants to leave for a reason. The button gives no
/// reason; a connection that ended gives one, and does not ask.
pub open spec fn left(
    leaving: Option<Leaving>,
    hosting: bool,
    reason: String,
    n: Option<Leaving>,
) -> bool {
    let next = if hosting && reason@.len() == 0 {
        Some(Leaving::Confirm(reason))
    } else {
        Some(Leaving::Running(reason))
    };
    match leaving {
        None => n == next,
        Some(Leaving::Confirm(_)) => if reason@.len() > 0 {
            n == next
        } else {
            n == leaving
        },
        Some(Leaving::Running(_)) => n == leaving,
    }
}

/// Leaves for a reason.
pub fn leave(leaving: Option<Leaving>, hosting: bool, reason: String) -> (r: Option<Leaving>)
    ensures
        left(leaving, hosting, reason, r),
{
    let given: bool = reason.as_str().unicode_len() > 0;
    let goes: bool = match &leaving {
        None => true,
        Some(Leaving::Confirm(_)) => given,
        Some(Leaving::Running(_)) => false,
    };
    if !goes {
        return leaving;
    }
    if hosting && !given {
        Some(Leaving::Confirm(reason))
    } else {
        Some(Leaving::Running(reason))
    }
}

/// The host's answer: the server stops, or nothing happens.
pub fn answer(stop: bool) -> (r: Option<Leaving>)
    ensures
        stop ==> (r matches Some(Leaving::Running(reason)) && reason@.len() == 0),
        !stop ==> r is None,
{
    if stop {
        Some(Leaving::Running(String::new()))
    } else {
        None
    }
}

/// Once the media is being torn down nothing takes it back, a lost connection is
/// never asked about, and a host is asked before its server stops.
pub proof fn leaving_is_orderly(
    leaving: Option<Leaving>,
    hosting: bool,
    reason: String,
    n: Option<Leaving>,
)
    requires
        left(leaving, hosting, reason, n),
    ensures
        leaving is Some && leaving->Some_0 is Running ==> n == leaving,
        reason@.len() > 0 && !(leaving is Some && leaving->Some_0 is Running) ==> n == Some(
            Leaving::Running(reason),
        ),
        leaving is None && hosting && reason@.len() == 0 ==> n == Some(Leaving::Confirm(reason)),
        n is Some,
{
}

/// The typists whose sign is younger than five seconds.
pub open spec fn is_typing(at: u64, now: u64) -> bool {
    now < at + 5000
}

fn fresh_typists(set: &TextTable<(String, u64)>, now: u64) -> (r: TextTable<(String, u64)>)
    ensures
        forall|k: Seq<char>|
            #![trigger r@.dom().contains(k)]
            r@.dom().contains(k) <==> set@.dom().contains(k) && is_typing(set@[k].1, now),
        forall|k: Seq<char>|
            #![trigger r@[k]]
            r@.dom().contains(k) ==> r@[k] == set@[k],
{
    let mut out: TextTable<(String, u64)> = TextTable::new();
    let n: usize = set.len();
    let ghost list = set.list();
    let mut i: usize = 0;
    while i < n
        invariant
            i <= n,
            n == list.len(),
            list == set.list(),
            keyed_once(list),
            as_map(list) == set@,
            forall|k: Seq<char>|
                #![trigger out@.dom().contains(k)]
                out@.dom().contains(k) <==> exists|j: int|
                    0 <= j < i && (#[trigger] list[j]).0 == k && is_typing(list[j].1.1, now),
            forall|j: int|
                0 <= j < i && is_typing((#[trigger] list[j]).1.1, now) ==> out@[list[j].0]
                    == list[j].1,
        decreases n - i,
    {
        let e: &(String, (String, u64)) = set.entry(i);
        let ghost before = out@;
        let fresh: bool = now < e.1.1 || now - e.1.1 < 5000;
        if fresh {
            out.insert(e.0.clone(), (e.1.0.clone(), e.1.1));
        }
        proof {
            assert forall|k: Seq<char>|
                #![trigger out@.dom().contains(k)]
                out@.dom().contains(k) <==> exists|j: int|
                    0 <= j < i + 1 && (#[trigger] list[j]).0 == k && is_typing(
                        list[j].1.1,
                        now,
                    ) by {
                let _ = before.dom().contains(k);
                if out@.dom().contains(k) {
                    if before.dom().contains(k) {
                        let j = choose|j: int|
                            0 <= j < i && (#[trigger] list[j]).0 == k && is_typing(
                                list[j].1.1,
                                now,
                            );
                        assert(list[j].0 == k);
                    } else {
                        assert(list[i as int].0 == k);
                    }
                }
            }
            assert forall|j: int|
                0 <= j < i + 1 && is_typing((#[trigger] list[j]).1.1, now) implies out@[list[j].0]
                == list[j].1 by {
                if j < i {
                    assert(list[j].0 != list[i as int].0);
                }
            }
        }
        i = i + 1;
    }
    proof {
        assert forall|k: Seq<char>|
            #![trigger out@.dom().contains(k)]
            out@.dom().contains(k) <==> set@.dom().contains(k) && is_typing(set@[k].1, now) by {
            if out@.dom().contains(k) {
                let j = choose|j: int|
                    0 <= j < i && (#[trigger] list[j]).0 == k && is_typing(list[j].1.1, now);
                map_at(list, j);
            }
            if set@.dom().contains(k) && is_typing(set@[k].1, now) {
                let j = map_only(list, k);
                map_at(list, j);
                assert(list[j].0 == k);
            }
        }
        assert forall|k: Seq<char>|
            #![trigger out@[k]]
            out@.dom().contains(k) implies out@[k] == set@[k] by {
            let j = choose|j: int|
                0 <= j < i && (#[trigger] list[j]).0 == k && is_typing(list[j].1.1, now);
            map_at(list, j);
        }
    }
    out
}

/// Whether somebody in a set still types.
pub open spec fn anybody_types(set: Map<Seq<char>, (String, u64)>, now: u64) -> bool {
    exists|k: Seq<char>| set.dom().contains(k) && is_typing((#[trigger] set[k]).1, now)
}

/// Forgets the signs of typing that are five seconds old, and the channels in which
/// nobody types any more.
pub fn prune_typing(typing: &IdTable<TextTable<(String, u64)>>, now: u64) -> (r: IdTable<
    TextTable<(String, u64)>,
>)
    ensures
        forall|c: Id|
            #![trigger r@.dom().contains(c)]
            r@.dom().contains(c) <==> typing@.dom().contains(c) && anybody_types(
                typing@[c]@,
                now,
            ),
        forall|c: Id, k: Seq<char>|
            #![trigger r@[c]@.dom().contains(k)]
            r@.dom().contains(c) ==> (r@[c]@.dom().contains(k) <==> typing@[c]@.dom().contains(k)
                && is_typing(typing@[c]@[k].1, now)),
        forall|c: Id, k: Seq<char>|
            #![trigger r@[c]@[k]]
            r@.dom().contains(c) && r@[c]@.dom().contains(k) ==> r@[c]@[k] == typing@[c]@[k],
{
    let mut out: IdTable<TextTable<(String, u64)>> = IdTable::new();
    let n: usize = typing.len();
    let ghost list = typing.list();
    let mut i: usize = 0;
    while i < n
        invariant
            i <= n,
            n == list.len(),
            list == typing.list(),
            keyed_once(list),
            as_map(list) == typing@,
            forall|c: Id|
                #![trigger out@.dom().contains(c)]
                out@.dom().contains(c) <==> exists|j: int|
                    0 <= j < i && (#[trigger] list[j]).0 == c && anybody_types(list[j].1@, now),
            forall|j: int, k: Seq<char>|
                0 <= j < i && out@.dom().contains(list[j].0) ==> (
                #[trigger] out@[list[j].0]@.dom().contains(k) <==> list[j].1@.dom().contains(k)
                    && is_typing(list[j].1@[k].1, now)),
            forall|j: int, k: Seq<char>|
                0 <= j < i && out@.dom().contains(list[j].0) && out@[list[j].0]@.dom().contains(k)
                    ==> #[trigger] out@[list[j].0]@[k] == list[j].1@[k],
        decreases n - i,
    {
        let e: &(Id, TextTable<(String, u64)>) = typing.entry(i);
        let fresh: TextTable<(String, u64)> = fresh_typists(&e.1, now);
        let ghost before = out@;
        let ghost f = fresh@;
        let count: usize = fresh.len();
        proof {
            if count > 0 {
                map_at(fresh.list(), 0);
                let k = fresh.list()[0].0;
                assert(f.dom().contains(k));
                assert(is_typing(e.1@[k].1, now));
                assert(anybody_types(e.1@, now));
            } else if anybody_types(e.1@, now) {
                let k = choose|k: Seq<char>|
                    e.1@.dom().contains(k) && is_typing((#[trigger] e.1@[k]).1, now);
                assert(f.dom().contains(k));
                let j = map_only(fresh.list(), k);
            }
        }
        if count > 0 {
            out.insert(e.0, fresh);
        }
        proof {
            let c0 = list[i as int].0;
            assert(!before.dom().contains(c0)) by {
                if before.dom().contains(c0) {
                    let j = choose|j: int|
                        0 <= j < i && (#[trigger] list[j]).0 == c0 && anybody_types(
                            list[j].1@,
                            now,
                        );
                    assert(list[j].0 != list[i as int].0);
                }
            }
            assert forall|c: Id|
                #![trigger out@.dom().contains(c)]
                out@.dom().contains(c) <==> exists|j: int|
                    0 <= j < i + 1 && (#[trigger] list[j]).0 == c && anybody_types(
                        list[j].1@,
                        now,
                    ) by {
                let _ = before.dom().contains(c);
                if out@.dom().contains(c) {
                    if before.dom().contains(c) {
                        let j = choose|j: int|
                            0 <= j < i && (#[trigger] list[j]).0 == c && anybody_types(
                                list[j].1@,
                                now,
                            );
                        assert(list[j].0 == c);
                    } else {
                        assert(list[i as int].0 == c);
                    }
                }
            }
            assert forall|j: int, k: Seq<char>|
                0 <= j < i + 1 && out@.dom().contains(list[j].0) implies (
            #[trigger] out@[list[j].0]@.dom().contains(k) <==> list[j].1@.dom().contains(k)
                && is_typing(list[j].1@[k].1, now)) by {
                if j < i {
                    assert(list[j].0 != c0);
                    assert(before.dom().contains(list[j].0));
                    assert(out@[list[j].0] == before[list[j].0]);
                    let _ = before[list[j].0]@.dom().contains(k);
                } else {
                    assert(f.dom().contains(k) <==> e.1@.dom().contains(k) && is_typing(
                        e.1@[k].1,
                        now,
                    ));
                }
            }
            assert forall|j: int, k: Seq<char>|
                0 <= j < i + 1 && out@.dom().contains(list[j].0) && out@[list[j].0]@.dom().contains(
                    k,
                ) implies #[trigger] out@[list[j].0]@[k] == list[j].1@[k] by {
                if j < i {
                    assert(list[j].0 != c0);
                    assert(before.dom().contains(list[j].0));
                    assert(out@[list[j].0] == before[list[j].0]);
                    let _ = before[list[j].0]@[k];
                } else {
                    assert(f[k] == e.1@[k]);
                }
            }
        }
        i = i + 1;
    }
    proof {
        assert forall|c: Id|
            #![trigger out@.dom().contains(c)]
            out@.dom().contains(c) <==> typing@.dom().contains(c) && anybody_types(
                typing@[c]@,
                now,
            ) by {
            if out@.dom().contains(c) {
                let j = choose|j: int|
                    0 <= j < i && (#[trigger] list[j]).0 == c && anybody_types(list[j].1@, now);
                map_at(list, j);
            }
            if typing@.dom().contains(c) && anybody_types(typing@[c]@, now) {
                let j = map_only(list, c);
                map_at(list, j);
                assert(list[j].0 == c);
            }
        }
        assert forall|c: Id, k: Seq<char>|
            #![trigger out@[c]@.dom().contains(k)]
            out@.dom().contains(c) implies (out@[c]@.dom().contains(k)
            <==> typing@[c]@.dom().contains(k) && is_typing(typing@[c]@[k].1, now)) by {
            let j = choose|j: int|
                0 <= j < i && (#[trigger] list[j]).0 == c && anybody_types(list[j].1@, now);
            map_at(list, j);
            assert(out@[list[j].0]@.dom().contains(k) <==> list[j].1@.dom().contains(k)
                && is_typing(list[j].1@[k].1, now));
        }
        assert forall|c: Id, k: Seq<char>|
            #![trigger out@[c]@[k]]
            out@.dom().contains(c) && out@[c]@.dom().contains(k) implies out@[c]@[k]
            == typing@[c]@[k] by {
            let j = choose|j: int|
                0 <= j < i && (#[trigger] list[j]).0 == c && anybody_types(list[j].1@, now);
            map_at(list, j);
            assert(out@[list[j].0]@[k] == list[j].1@[k]);
        }
    }
    out
}

/// The others that a gateway still holds a connection for: each person once,
/// however many guilds they are in.
pub open spec fn online_others(members: Seq<Member>, me: Option<Seq<char>>) -> Seq<Seq<char>>
    decreases members.len(),
{
    if members.len() == 0 {
        Seq::empty()
    } else {
        let before = online_others(members.drop_last(), me);
        let m = members.last();
        if m.online && Some(m.user.pubkey@) != me && !before.contains(m.user.pubkey@) {
            before.push(m.user.pubkey@)
        } else {
            before
        }
    }
}

/// Counts the others that a gateway still holds a connection for.
pub fn count_online_others(s: &AppState) -> (r: usize)
    ensures
        r == online_others(s.members@, own_name(*s)).len(),
{
    let ghost me = own_name(*s);
    let mut seen: Vec<String> = Vec::new();
    let mut i: usize = 0;
    assert(s.members@.take(0) =~= Seq::empty());
    assert(texts(seen@) =~= Seq::empty());
    while i < s.members.len()
        invariant
            i <= s.members@.len(),
            me == own_name(*s),
            texts(seen@) == online_others(s.members@.take(i as int), me),
        decreases s.members@.len() - i,
    {
        let m: &Member = &s.members[i];
        let ghost was = seen@;
        assert(s.members@.take(i + 1).drop_last() =~= s.members@.take(i as int));
        if m.online && !s.is_self(m.user.pubkey.as_str()) && !contains_text(
            &seen,
            m.user.pubkey.as_str(),
        ) {
            seen.push(m.user.pubkey.clone());
            assert(texts(seen@) =~= texts(was).push(m.user.pubkey@));
        }
        i = i + 1;
    }
    assert(s.members@.take(i as int) =~= s.members@);
    assert(texts(seen@).len() == seen@.len());
    seen.len()
}

/// What is said of the people whom stopping a server would drop.
pub fn people_line(others: u64) -> (r: String)
    ensures
        r@ == if others == 0 {
            "Nobody else is connected right now."@
        } else if others == 1 {
            "One other person is connected right now, and will be dropped."@
        } else {
            decimal(others as nat)
                + " other people are connected right now, and will be dropped."@
        },
{
    if others == 0 {
        "Nobody else is connected right now.".to_owned()
    } else if others == 1 {
        "One other person is connected right now, and will be dropped.".to_owned()
    } else {
        decimal_text(others).concat(
            " other people are connected right now, and will be dropped.",
        )
    }
}

/// The word for a number of guilds.
pub fn guilds_word(guilds: u64) -> (r: &'static str)
    ensures
        r@ == if guilds == 1 {
            "guild"@
        } else {
            "guilds"@
        },
{
    if guilds == 1 {
        "guild"
    } else {
        "guilds"
    }
}

/// A badge: its label, and what is said of it.
#[derive(Debug, Clone, Copy, PartialEq, Eq)]
pub struct Badge {
    pub label: &'static str,
    pub title: &'static str,
}

/// The badge of a call's encryption: none out of a call, or before there is a key
/// or a failure to speak of.
pub fn encryption_badge(in_voice: bool, has_key: bool, broken: bool) -> (r: Option<Badge>)
    ensures
        r is Some <==> in_voice && (has_key || broken),
        r is Some ==> r->Some_0.label@ == if broken {
            "media undecryptable"@
        } else {
            "media encrypted"@
        },
        r is Some ==> r->Some_0.title@ == if broken {
            "Encrypted media is arriving that this client cannot decrypt — usually a key that has not reached you yet. It often clears on its own within a second; if it does not, rejoin the channel."@
        } else {
            "Voice, screen share and camera are encrypted end to end. The SFU forwards frames it cannot decrypt — including one you run yourself."@
        },
{
    if !in_voice || (!has_key && !broken) {
        return None;
    }
    if broken {
        Some(
            Badge {
                label: "media undecryptable",
                title: "Encrypted media is arriving that this client cannot decrypt — usually a key that has not reached you yet. It often clears on its own within a second; if it does not, rejoin the channel.",
            },
        )
    } else {
        Some(
            Badge {
                label: "media encrypted",
                title: "Voice, screen share and camera are encrypted end to end. The SFU forwards frames it cannot decrypt — including one you run yourself.",
            },
        )
    }
}

/// The badge of how the gateway is reached: none when it runs here.
pub fn transport_badge(hosting: bool, transport: Transport) -> (r: Option<Badge>)
    ensures
        r is None <==> hosting || transport == Transport::Loopback,
        r is Some ==> r->Some_0.label@ == match transport {
            Transport::Quic => "direct"@,
            Transport::QuicRelayed => "relayed"@,
            _ => "proxied"@,
        },
        r is Some ==> r->Some_0.title@ == match transport {
            Transport::Quic =>
                "Connected straight to the host over encrypted QUIC, with the host authenticated by its key. Nobody in between can read this connection. The host can see your IP address."@,
            Transport::QuicRelayed =>
                "Carried by the rendezvous relay, still encrypted end to end: the relay forwards ciphertext and sees only the two keys. The host does not learn your address, the relay does."@,
            _ =>
                "Connected over TLS to a proxy in front of the gateway. The proxy's operator, usually the server's, can read this connection; nobody else on the path can."@,
        },
{
    if hosting {
        return None;
    }
    match transport {
        Transport::Loopback => None,
        Transport::Quic => Some(
            Badge {
                label: "direct",
                title: "Connected straight to the host over encrypted QUIC, with the host authenticated by its key. Nobody in between can read this connection. The host can see your IP address.",
            },
        ),
        Transport::QuicRelayed => Some(
            Badge {
                label: "relayed",
                title: "Carried by the rendezvous relay, still encrypted end to end: the relay forwards ciphertext and sees only the two keys. The host does not learn your address, the relay does.",
            },
        ),
        Transport::Proxied => Some(
            Badge {
                label: "proxied",
                title: "Connected over TLS to a proxy in front of the gateway. The proxy's operator, usually the server's, can read this connection; nobody else on the path can.",
            },
        ),
    }
}

/// What is said of a host's voice.
pub fn voice_label(livekit_url: &str, bundled: bool) -> (r: &'static str)
    ensures
        r@ == if livekit_url@.len() == 0 {
            "voice unavailable"@
        } else if bundled {
            "voice ready"@
        } else {
            "voice via rendezvous"@
        },
{
    if livekit_url.unicode_len() == 0 {
        "voice unavailable"
    } else if bundled {
        "voice ready"
    } else {
        "voice via rendezvous"
    }
}

/// Takes a message away that has been shown long enough, unless another has taken
/// its place.
pub fn expire_toast(s: &mut AppState, shown: &str)
    ensures
        *final(s) == (AppState { error_toast: final(s).error_toast, ..*old(s) }),
        final(s).error_toast == if opt_text(old(s).error_toast) == Some(shown@) {
            None
        } else {
            old(s).error_toast
        },
{
    let same_one: bool = match &s.error_toast {
        Some(t) => same(t.as_str(), shown),
        None => false,
    };
    if same_one {
        s.error_toast = None;
    }
}

/// What the gateway is told when the noise gate opens or closes.
pub fn speaking_notice(last: bool, now: bool) -> (r: Option<ClientMessage>)
    ensures
        r == if now != last {
            Some(ClientMessage::SetSpeaking { speaking: now })
        } else {
            None
        },
{
    if now != last {
        Some(ClientMessage::SetSpeaking { speaking: now })
    } else {
        None
    }
}

/// What is said of who can reach a host: a label, and a sentence about it.
pub open spec fn reach_words(r: Reachability) -> (Seq<char>, Seq<char>) {
    match r {
        Reachability::Direct { method, media, .. } => if media {
            (
                "● reachable directly"@,
                method@
                    + " mapped this machine's ports. Friends with the address reach you without any relay, voice included."@,
            )
        } else {
            (
                "● reachable directly (chat only)"@,
                method@
                    + " mapped the chat port, but not the voice ports — calls still go through a relay's SFU, or stay on this network."@,
            )
        },
        Reachability::LanOnly { reason } => (
            "● this network only"@,
            reason@ + " Friends elsewhere can still join by code — the rendezvous relays them."@,
        ),
        Reachability::LoopbackOnly => (
            "● local only"@,
            "Direct connections weren't enabled, so the gateway only listens on this machine. Friends can still join by code through the rendezvous."@,
        ),
    }
}

/// Says who can reach a host.
pub fn reach_badge(r: &Reachability) -> (w: (&'static str, String))
    ensures
        (w.0@, w.1@) == reach_words(*r),
{
    match r {
        Reachability::Direct { method, media, .. } => {
            let name: &str = *method;
            if *media {
                (
                    "● reachable directly",
                    name.to_owned().concat(
                        " mapped this machine's ports. Friends with the address reach you without any relay, voice included.",
                    ),
                )
            } else {
                (
                    "● reachable directly (chat only)",
                    name.to_owned().concat(
                        " mapped the chat port, but not the voice ports — calls still go through a relay's SFU, or stay on this network.",
                    ),
                )
            }
        },
        Reachability::LanOnly { reason } => (
            "● this network only",
            reason.clone().concat(
                " Friends elsewhere can still join by code — the rendezvous relays them.",
            ),
        ),
        Reachability::LoopbackOnly => (
            "● local only",
            "Direct connections weren't enabled, so the gateway only listens on this machine. Friends can still join by code through the rendezvous.".to_owned(),
        ),
    }
}

/// What is said of a host's listing: that it failed, or that it can be found by its
/// code only.
pub fn listing_note(info: &HostInfo) -> (r: Option<String>)
    ensures
        opt_text(r) == match info.publish_error {
            Some(e) => Some("⚠ not published — "@ + e@),
            None => if info.shortcode is Some && !info.listed_public {
                Some("unlisted"@)
            } else {
                None
            },
        },
{
    match &info.publish_error {
        Some(e) => Some("⚠ not published — ".to_owned().concat(e.as_str())),
        None => if info.shortcode.is_some() && !info.listed_public {
            Some("unlisted".to_owned())
        } else {
            None
        },
    }
}

} // verus!
