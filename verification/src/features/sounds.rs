//! Which sound is played when.

use crate::json::{json_string, quote};
use crate::protocol::{Id, VoiceState};
use crate::state::{AppState, ConnectionStatus, VoicePhase, own_name};
use crate::text::{contains_text, opt_str, same, texts};
use vstd::prelude::*;
use vstd::string::*;

verus! {

/// The sounds there are.
#[derive(Debug, Clone, Copy, PartialEq, Eq, Structural)]
pub enum Sound {
    Connect,
    Disconnect,
    ServerDisconnect,
    WatchStart,
    WatchStop,
    Mute,
    Unmute,
    StreamStart,
    StreamStop,
    PeerJoin,
    PeerLeave,
    PeerStreamStart,
    PeerStreamStop,
    Notify,
}

impl Sound {
    /// The name by which the page knows a sound.
    pub open spec fn word(&self) -> Seq<char> {
        match self {
            Sound::Connect => "connect"@,
            Sound::Disconnect => "disconnect"@,
            Sound::ServerDisconnect => "server-disconnect"@,
            Sound::WatchStart => "watch-start"@,
            Sound::WatchStop => "watch-stop"@,
            Sound::Mute => "mute"@,
            Sound::Unmute => "unmute"@,
            Sound::StreamStart => "stream-start"@,
            Sound::StreamStop => "stream-stop"@,
            Sound::PeerJoin => "peer-join"@,
            Sound::PeerLeave => "peer-leave"@,
            Sound::PeerStreamStart => "peer-stream-start"@,
            Sound::PeerStreamStop => "peer-stream-stop"@,
            Sound::Notify => "notify"@,
        }
    }

    /// The name by which the page knows a sound.
    pub fn name(self) -> (r: &'static str)
        ensures
            r@ == self.word(),
    {
        match self {
            Sound::Connect => "connect",
            Sound::Disconnect => "disconnect",
            Sound::ServerDisconnect => "server-disconnect",
            Sound::WatchStart => "watch-start",
            Sound::WatchStop => "watch-stop",
            Sound::Mute => "mute",
            Sound::Unmute => "unmute",
            Sound::StreamStart => "stream-start",
            Sound::StreamStop => "stream-stop",
            Sound::PeerJoin => "peer-join",
            Sound::PeerLeave => "peer-leave",
            Sound::PeerStreamStart => "peer-stream-start",
            Sound::PeerStreamStop => "peer-stream-stop",
            Sound::Notify => "notify",
        }
    }
}

/// The script that plays a sound, behind the sound bank's own.
pub fn sfx(bank: &str, sound: Sound) -> (r: String)
    ensures
        r@ == bank@ + "\nwindow.dxSfx.play("@ + json_string(sound.word()) + ");"@,
{
    bank.to_owned().concat("\nwindow.dxSfx.play(").concat(quote(sound.name()).as_str()).concat(
        ");",
    )
}

/// Whether a message rings: the count of those that should has moved.
pub fn should_notify(now: u64, last: u64) -> (r: bool)
    ensures
        r == (now != 0 && now != last),
{
    now != 0 && now != last
}

/// The sound of a call that begins or ends.
pub fn phase_sound(prev: VoicePhase, now: VoicePhase) -> (r: Option<Sound>)
    ensures
        r == if now == prev {
            None
        } else if now == VoicePhase::Connected {
            Some(Sound::Connect)
        } else if prev == VoicePhase::Connected && (now == VoicePhase::Idle || now
            == VoicePhase::Error) {
            Some(Sound::Disconnect)
        } else {
            None
        },
{
    if now == prev {
        return None;
    }
    match now {
        VoicePhase::Connected => Some(Sound::Connect),
        VoicePhase::Idle => if prev == VoicePhase::Connected {
            Some(Sound::Disconnect)
        } else {
            None
        },
        VoicePhase::Error => if prev == VoicePhase::Connected {
            Some(Sound::Disconnect)
        } else {
            None
        },
        VoicePhase::Connecting => None,
    }
}

/// The sound of a screen that one begins or ceases to watch.
pub fn watch_sound(prev: Option<&str>, now: Option<&str>) -> (r: Option<Sound>)
    ensures
        r == if opt_str(prev) == opt_str(now) {
            None
        } else if now is Some {
            Some(Sound::WatchStart)
        } else {
            Some(Sound::WatchStop)
        },
{
    match (prev, now) {
        (None, None) => None,
        (Some(a), Some(b)) => if same(a, b) {
            None
        } else {
            Some(Sound::WatchStart)
        },
        (None, Some(_)) => Some(Sound::WatchStart),
        (Some(_), None) => Some(Sound::WatchStop),
    }
}

/// The sound of a session that begins or ends.
pub fn status_sound(prev: ConnectionStatus, now: ConnectionStatus) -> (r: Option<Sound>)
    ensures
        r == if now == prev {
            None
        } else if prev == ConnectionStatus::Connecting && now == ConnectionStatus::Ready {
            Some(Sound::Connect)
        } else if now == ConnectionStatus::Disconnected {
            Some(Sound::ServerDisconnect)
        } else {
            None
        },
{
    if now == prev {
        return None;
    }
    match (prev, now) {
        (ConnectionStatus::Connecting, ConnectionStatus::Ready) => Some(Sound::Connect),
        (_, ConnectionStatus::Disconnected) => Some(Sound::ServerDisconnect),
        _ => None,
    }
}

/// The sound of a switch that was turned.
pub fn switch_sound(prev: bool, now: bool, on: Sound, off: Sound) -> (r: Option<Sound>)
    ensures
        r == if now == prev {
            None
        } else if now {
            Some(on)
        } else {
            Some(off)
        },
{
    if now == prev {
        None
    } else if now {
        Some(on)
    } else {
        Some(off)
    }
}

/// Whether a list names somebody that another does not.
pub open spec fn has_more(a: Seq<Seq<char>>, b: Seq<Seq<char>>) -> bool {
    exists|i: int| 0 <= i < a.len() && !b.contains(#[trigger] a[i])
}

fn names_more(a: &Vec<String>, b: &Vec<String>) -> (r: bool)
    ensures
        r == has_more(texts(a@), texts(b@)),
{
    let mut i: usize = 0;
    while i < a.len()
        invariant
            i <= a@.len(),
            forall|j: int| 0 <= j < i ==> texts(b@).contains(#[trigger] texts(a@)[j]),
        decreases a@.len() - i,
    {
        if !contains_text(b, a[i].as_str()) {
            assert(!texts(b@).contains(texts(a@)[i as int]));
            return true;
        }
        i = i + 1;
    }
    false
}

/// Whether somebody came and whether somebody left between two lists of people.
/// Another channel is no coming and going.
pub fn comings_and_goings(prev: &Vec<String>, now: &Vec<String>, same_channel: bool) -> (r: (
    bool,
    bool,
))
    ensures
        r.0 == (same_channel && has_more(texts(now@), texts(prev@))),
        r.1 == (same_channel && has_more(texts(prev@), texts(now@))),
{
    if !same_channel {
        return (false, false);
    }
    (names_more(now, prev), names_more(prev, now))
}

/// The others in our call.
pub open spec fn peers_of(
    states: Seq<VoiceState>,
    channel: Option<Id>,
    me: Option<Seq<char>>,
) -> Seq<Seq<char>>
    decreases states.len(),
{
    if states.len() == 0 {
        Seq::empty()
    } else {
        let before = peers_of(states.drop_last(), channel, me);
        let v = states.last();
        if channel is Some && me is Some && v.channel_id == channel && v.user_pubkey@ != me->Some_0 {
            before.push(v.user_pubkey@)
        } else {
            before
        }
    }
}

/// Lists the others in our call. Out of a call, or without a name, there are none.
pub fn call_peers(s: &AppState) -> (r: Vec<String>)
    ensures
        texts(r@) == peers_of(
            s.voice_states@,
            s.voice.channel_id,
            own_name(*s),
        ),
{
    let mut out: Vec<String> = Vec::new();
    let ghost me: Option<Seq<char>> = own_name(*s);
    let mut i: usize = 0;
    assert(s.voice_states@.take(0) =~= Seq::empty());
    assert(texts(out@) =~= Seq::empty());
    while i < s.voice_states.len()
        invariant
            i <= s.voice_states@.len(),
            me == own_name(*s),
            texts(out@) == peers_of(s.voice_states@.take(i as int), s.voice.channel_id, me),
        decreases s.voice_states@.len() - i,
    {
        let v: &VoiceState = &s.voice_states[i];
        let ghost was = out@;
        assert(s.voice_states@.take(i + 1).drop_last() =~= s.voice_states@.take(i as int));
        let here: bool = match (s.voice.channel_id, v.channel_id, &s.self_user) {
            (Some(ours), Some(theirs), Some(u)) => ours == theirs && !same(
                v.user_pubkey.as_str(),
                u.pubkey.as_str(),
            ),
            _ => false,
        };
        if here {
            out.push(v.user_pubkey.clone());
            assert(texts(out@) =~= texts(was).push(v.user_pubkey@));
        }
        i = i + 1;
    }
    assert(s.voice_states@.take(i as int) =~= s.voice_states@);
    out
}

} // verus!
