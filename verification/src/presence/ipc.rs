//! The local socket through which games say what they are. A frame is a number, a
//! length and JSON.

use crate::json::{
    json_at_int, json_at_str, json_at_text, json_string, pointer_int, pointer_str, pointer_text,
    quote,
};
use crate::protocol::{Activity, ActivityKind};
use crate::text::{
    append_bytes, decimal, decimal_text, from_le32, le32, opt_text, push_le32, read_le32, same,
    trim, trimmed,
};
use vstd::prelude::*;
use vstd::string::*;
use vstd::utf8::*;

verus! {

pub const OP_HANDSHAKE: u32 = 0;

pub const OP_FRAME: u32 = 1;

pub const OP_CLOSE: u32 = 2;

pub const OP_PING: u32 = 3;

pub const OP_PONG: u32 = 4;

/// A frame longer than this is a mistake.
pub const MAX_FRAME: u32 = 64 * 1024;

/// How many names are tried for the socket.
pub const SLOTS: u8 = 10;

/// What a game says of itself.
#[derive(Debug)]
pub struct RpcActivity {
    pub activity: Option<Activity>,
}

/// The name of a socket of one of the two families.
pub open spec fn socket_name(discord_compatible: bool, n: nat) -> Seq<char> {
    (if discord_compatible {
        "discord-ipc"@
    } else {
        "dioxusfun-ipc"@
    }) + "-"@ + decimal(n)
}

/// The names a socket can have, in the order in which they are tried.
pub fn socket_names(discord_compatible: bool) -> (r: Vec<String>)
    ensures
        r@.len() == SLOTS,
        forall|i: int|
            0 <= i < SLOTS ==> (#[trigger] r@[i])@ == socket_name(discord_compatible, i as nat),
{
    let mut out: Vec<String> = Vec::new();
    let mut n: u8 = 0;
    while n < SLOTS
        invariant
            n <= SLOTS,
            out@.len() == n,
            forall|i: int|
                0 <= i < n ==> (#[trigger] out@[i])@ == socket_name(discord_compatible, i as nat),
        decreases SLOTS - n,
    {
        let stem: &str = if discord_compatible {
            "discord-ipc"
        } else {
            "dioxusfun-ipc"
        };
        out.push(stem.to_owned().concat("-").concat(decimal_text(n as u64).as_str()));
        n = n + 1;
    }
    out
}

/// The two families of names never collide.
pub proof fn families_differ(i: nat, j: nat)
    ensures
        socket_name(true, i) != socket_name(false, j),
{
    reveal_strlit("discord-ipc");
    reveal_strlit("dioxusfun-ipc");
    assert(socket_name(true, i)[2] == 's');
    assert(socket_name(false, j)[2] == 'o');
}

/// Below this a time in milliseconds would be in the last century, so it is in
/// seconds.
pub const YEAR_2001_MS: i64 = 978_307_200_000;

/// A time in milliseconds, whether it was given so or in seconds.
pub fn normalise_timestamp(raw: i64) -> (r: i64)
    ensures
        r == if 0 < raw < YEAR_2001_MS {
            raw * 1000
        } else {
            raw as int
        },
{
    if raw > 0 && raw < YEAR_2001_MS {
        raw * 1000
    } else {
        raw
    }
}

/// A text that says something.
pub open spec fn meaningful(t: Option<Seq<char>>) -> Option<Seq<char>> {
    match t {
        Some(s) => if trimmed(s).len() > 0 {
            Some(s)
        } else {
            None
        },
        None => None,
    }
}

/// A text, unless it is another.
pub open spec fn unless_same(t: Option<Seq<char>>, other: Seq<char>) -> Option<Seq<char>> {
    if t == Some(other) {
        None
    } else {
        t
    }
}

/// What a game is called: its name, else what it says first.
pub open spec fn game_name(
    name: Option<Seq<char>>,
    details: Option<Seq<char>>,
    state: Option<Seq<char>>,
) -> Option<Seq<char>> {
    if meaningful(name) is Some {
        meaningful(name)
    } else if meaningful(details) is Some {
        meaningful(details)
    } else {
        meaningful(state)
    }
}

/// Whether an activity says what a game said of itself. What became the name is
/// not said again underneath.
pub open spec fn said(
    name: Option<Seq<char>>,
    details: Option<Seq<char>>,
    state: Option<Seq<char>>,
    start: Option<i64>,
    r: Option<Activity>,
) -> bool {
    match game_name(name, details, state) {
        None => r is None,
        Some(n) => {
            &&& r is Some
            &&& r->Some_0.kind == ActivityKind::Playing
            &&& r->Some_0.name@ == n
            &&& opt_text(r->Some_0.details) == unless_same(meaningful(details), n)
            &&& opt_text(r->Some_0.state) == unless_same(meaningful(state), n)
            &&& r->Some_0.started_ms is Some <==> start is Some
            &&& start is Some ==> r->Some_0.started_ms->Some_0 == if 0 < start->Some_0
                < YEAR_2001_MS {
                start->Some_0 * 1000
            } else {
                start->Some_0 as int
            }
        },
    }
}

fn meaningful_text(t: Option<String>) -> (r: Option<String>)
    ensures
        opt_text(r) == meaningful(opt_text(t)),
{
    match t {
        Some(s) => if trim(s.as_str()).as_str().unicode_len() > 0 {
            Some(s)
        } else {
            None
        },
        None => None,
    }
}

fn unless_text(t: Option<String>, other: &str) -> (r: Option<String>)
    ensures
        opt_text(r) == unless_same(opt_text(t), other@),
{
    match t {
        Some(s) => if same(s.as_str(), other) {
            None
        } else {
            Some(s)
        },
        None => None,
    }
}

/// The activity of what a game said of itself: its name, its two lines and when it
/// began.
pub fn activity_from_frame(
    name: Option<String>,
    details: Option<String>,
    state: Option<String>,
    start: Option<i64>,
) -> (r: Option<Activity>)
    ensures
        said(opt_text(name), opt_text(details), opt_text(state), start, r),
{
    let name: Option<String> = meaningful_text(name);
    let details: Option<String> = meaningful_text(details);
    let state: Option<String> = meaningful_text(state);
    let title: String = match (&name, &details, &state) {
        (Some(n), _, _) => n.clone(),
        (None, Some(d), _) => d.clone(),
        (None, None, Some(s)) => s.clone(),
        (None, None, None) => {
            return None;
        },
    };
    let started_ms: Option<i64> = match start {
        Some(raw) => Some(normalise_timestamp(raw)),
        None => None,
    };
    let details: Option<String> = unless_text(details, title.as_str());
    let state: Option<String> = unless_text(state, title.as_str());
    Some(Activity { kind: ActivityKind::Playing, name: title, details, state, started_ms })
}

/// The activity that the body of a frame sets.
pub fn activity_in(body: &[u8]) -> (r: Option<Activity>)
    ensures
        said(
            json_at_str(body@, "/args/activity/name"@),
            json_at_str(body@, "/args/activity/details"@),
            json_at_str(body@, "/args/activity/state"@),
            json_at_int(body@, "/args/activity/timestamps/start"@),
            r,
        ),
{
    activity_from_frame(
        pointer_str(body, "/args/activity/name"),
        pointer_str(body, "/args/activity/details"),
        pointer_str(body, "/args/activity/state"),
        pointer_int(body, "/args/activity/timestamps/start"),
    )
}

/// The bytes of a frame.
pub open spec fn frame_bytes(op: u32, text: Seq<char>) -> Seq<u8> {
    let json = encode_utf8(text);
    le32(op) + le32(json.len() as u32) + json
}

/// Writes a frame.
pub fn write_frame(op: u32, text: &str) -> (r: Vec<u8>)
    requires
        encode_utf8(text@).len() <= u32::MAX,
    ensures
        r@ == frame_bytes(op, text@),
{
    let json: &[u8] = text.as_bytes();
    let mut out: Vec<u8> = Vec::new();
    push_le32(&mut out, op);
    push_le32(&mut out, json.len() as u32);
    append_bytes(&mut out, json);
    assert(out@ =~= frame_bytes(op, text@));
    out
}

/// The number and the length that a frame begins with, unless it is too long.
pub fn parse_header(header: &[u8; 8]) -> (r: Option<(u32, u32)>)
    ensures
        ({
            let op = from_le32(header@[0], header@[1], header@[2], header@[3]);
            let len = from_le32(header@[4], header@[5], header@[6], header@[7]);
            r == if len > MAX_FRAME {
                None
            } else {
                Some((op, len))
            }
        }),
{
    let op: u32 = read_le32(header[0], header[1], header[2], header[3]);
    let len: u32 = read_le32(header[4], header[5], header[6], header[7]);
    if len > MAX_FRAME {
        None
    } else {
        Some((op, len))
    }
}

/// A frame's head is read back as it was written.
pub proof fn header_round_trip(op: u32, len: u32)
    ensures
        ({
            let h = le32(op) + le32(len);
            &&& h.len() == 8
            &&& from_le32(h[0], h[1], h[2], h[3]) == op
            &&& from_le32(h[4], h[5], h[6], h[7]) == len
        }),
{
    le32_round_trip(op);
    le32_round_trip(len);
}

proof fn le32_round_trip(n: u32)
    ensures
        le32(n).len() == 4,
        from_le32(le32(n)[0], le32(n)[1], le32(n)[2], le32(n)[3]) == n,
{
    let a = (n % 0x100) as u8;
    let b = (n / 0x100 % 0x100) as u8;
    let c = (n / 0x1_0000 % 0x100) as u8;
    let d = (n / 0x100_0000) as u8;
    assert(n == a as int + 0x100 * b + 0x1_0000 * c + 0x100_0000 * d);
}

/// What is answered to a handshake.
pub open spec fn ready_text() -> Seq<char> {
    "{\"cmd\":\"DISPATCH\",\"data\":{\"config\":{},\"v\":1},\"evt\":\"READY\"}"@
}

/// What is answered to a command: its name and its mark.
pub open spec fn ack_text(cmd: Seq<char>, nonce: Seq<char>) -> Seq<char> {
    "{\"cmd\":"@ + json_string(cmd) + ",\"data\":null,\"evt\":null,\"nonce\":"@ + nonce + "}"@
}

/// A text, or another.
pub open spec fn text_else(t: Option<Seq<char>>, other: Seq<char>) -> Seq<char> {
    match t {
        Some(s) => s,
        None => other,
    }
}

fn or_text(t: Option<String>, other: &str) -> (r: String)
    ensures
        r@ == text_else(opt_text(t), other@),
{
    match t {
        Some(s) => s,
        None => other.to_owned(),
    }
}

/// What has to be done about a frame.
#[derive(Debug)]
pub struct FrameStep {
    pub handshaken: bool,
    /// A frame to send back: its number and its text.
    pub reply: Option<(u32, String)>,
    /// What the game says it is doing, where it said so.
    pub update: Option<RpcActivity>,
    pub close: bool,
}

/// The command that a frame holds, by its body.
pub open spec fn command_in(body: Seq<u8>) -> Seq<char> {
    text_else(json_at_str(body, "/cmd"@), Seq::empty())
}

/// Whether a frame is followed like this. Before the handshake a command is
/// passed over.
pub open spec fn followed(handshaken: bool, op: u32, body: Seq<u8>, r: FrameStep) -> bool {
    if op == OP_HANDSHAKE {
        r.handshaken && !r.close && r.update is None && (r.reply matches Some((o, t)) && o
            == OP_FRAME && t@ == ready_text())
    } else if op == OP_PING {
        r.handshaken == handshaken && !r.close && r.update is None && (r.reply matches Some((o, t))
            && o == OP_PONG && t@ == text_else(json_at_text(body, ""@), "null"@))
    } else if op == OP_FRAME && handshaken {
        &&& r.handshaken && !r.close
        &&& (r.reply matches Some((o, t)) && o == OP_FRAME && t@ == ack_text(
            command_in(body),
            text_else(json_at_text(body, "/nonce"@), "null"@),
        ))
        &&& if command_in(body) == "SET_ACTIVITY"@ {
            r.update is Some && said(
                json_at_str(body, "/args/activity/name"@),
                json_at_str(body, "/args/activity/details"@),
                json_at_str(body, "/args/activity/state"@),
                json_at_int(body, "/args/activity/timestamps/start"@),
                r.update->Some_0.activity,
            )
        } else {
            r.update is None
        }
    } else {
        r.handshaken == handshaken && r.reply is None && r.update is None && r.close == (op
            == OP_CLOSE)
    }
}

/// Follows a frame of a game.
pub fn on_frame(handshaken: bool, op: u32, body: &[u8]) -> (r: FrameStep)
    ensures
        followed(handshaken, op, body@, r),
{
    if op == OP_HANDSHAKE {
        return FrameStep {
            handshaken: true,
            reply: Some(
                (
                    OP_FRAME,
                    "{\"cmd\":\"DISPATCH\",\"data\":{\"config\":{},\"v\":1},\"evt\":\"READY\"}".to_owned(),
                ),
            ),
            update: None,
            close: false,
        };
    }
    if op == OP_PING {
        return FrameStep {
            handshaken,
            reply: Some((OP_PONG, or_text(pointer_text(body, ""), "null"))),
            update: None,
            close: false,
        };
    }
    if op == OP_FRAME && handshaken {
        let cmd: String = or_text(pointer_str(body, "/cmd"), "");
        assert(cmd@ == command_in(body@)) by {
            reveal_strlit("");
            assert(""@ =~= Seq::<char>::empty());
        }
        let update: Option<RpcActivity> = if same(cmd.as_str(), "SET_ACTIVITY") {
            Some(RpcActivity { activity: activity_in(body) })
        } else {
            None
        };
        let nonce: String = or_text(pointer_text(body, "/nonce"), "null");
        let text: String = "{\"cmd\":".to_owned().concat(quote(cmd.as_str()).as_str()).concat(
            ",\"data\":null,\"evt\":null,\"nonce\":",
        ).concat(nonce.as_str()).concat("}");
        return FrameStep { handshaken: true, reply: Some((OP_FRAME, text)), update, close: false };
    }
    FrameStep { handshaken, reply: None, update: None, close: op == OP_CLOSE }
}

} // verus!
