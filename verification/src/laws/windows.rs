//! What holds of what the windows show.

use crate::features::screenshare::{
    ShareMessage, level_names, levels_right, page_says, share_followed, share_notice, shown_streams,
    sources_by, wants_of,
};
use crate::features::servers::stripped;
use crate::features::settings::{Camera, camera_label};
use crate::features::sounds::peers_of;
use crate::features::topology::{Seal, SessionPaths, session_legs_spec};
use crate::features::wallet::{ago, middle_out};
use crate::features::workspace::{is_typing, online_others};
use crate::protocol::{ClientMessage, Id, Member, ScreenSource, VoiceState};
use crate::state::{AppState, Transport, own_name};
use crate::table::{as_map, keyed_once, map_at, map_only};
use crate::text::{begins_with, decimal, decimal_int, texts};
use crate::voice::{StreamAudio, clamped};
use vstd::prelude::*;
use vstd::string::*;

verus! {

/// Whom stopping a server would drop: everybody who is listed as online in some guild
/// and is not us, each of them once.
pub proof fn the_others_are_counted_once(members: Seq<Member>, me: Option<Seq<char>>)
    ensures
        forall|who: Seq<char>| #[trigger]
            online_others(members, me).contains(who) <==> Some(who) != me && exists|i: int|
                0 <= i < members.len() && (#[trigger] members[i]).online && members[i].user.pubkey@
                    == who,
        forall|i: int, j: int|
            0 <= i < j < online_others(members, me).len() ==> #[trigger] online_others(
                members,
                me,
            )[i] != #[trigger] online_others(members, me)[j],
    decreases members.len(),
{
    if members.len() > 0 {
        let rest = members.drop_last();
        let m = members.last();
        let before = online_others(rest, me);
        let all = online_others(members, me);
        the_others_are_counted_once(rest, me);
        assert forall|who: Seq<char>| #[trigger] all.contains(who) <==> Some(who) != me && exists|
            i: int,
        |
            0 <= i < members.len() && (#[trigger] members[i]).online && members[i].user.pubkey@
                == who by {
            if all.contains(who) {
                let k = choose|k: int| 0 <= k < all.len() && all[k] == who;
                if k < before.len() {
                    assert(before[k] == who);
                    assert(before.contains(who));
                    let i = choose|i: int|
                        0 <= i < rest.len() && (#[trigger] rest[i]).online && rest[i].user.pubkey@
                            == who;
                    assert(members[i] == rest[i]);
                } else {
                    assert(members[members.len() - 1].user.pubkey@ == who);
                }
            }
            if Some(who) != me && exists|i: int|
                0 <= i < members.len() && (#[trigger] members[i]).online && members[i].user.pubkey@
                    == who {
                let i = choose|i: int|
                    0 <= i < members.len() && (#[trigger] members[i]).online
                        && members[i].user.pubkey@ == who;
                if i < rest.len() {
                    assert(rest[i] == members[i]);
                    assert(before.contains(who));
                }
                if before.contains(who) {
                    let k = choose|k: int| 0 <= k < before.len() && before[k] == who;
                    assert(all[k] == who);
                } else {
                    assert(all[before.len() as int] == who);
                }
            }
        }
        assert forall|i: int, j: int| 0 <= i < j < all.len() implies #[trigger] all[i]
            != #[trigger] all[j] by {
            if j == before.len() {
                assert(before.contains(before[i]));
            }
        }
    } else {
        assert forall|who: Seq<char>| #[trigger] online_others(members, me).contains(
            who,
        ) implies false by {}
    }
}

/// The others in our call are those whose state says they are in just that channel, but
/// for us; out of a call there are none.
pub proof fn peers_are_those_in_our_call(
    states: Seq<VoiceState>,
    channel: Option<Id>,
    me: Option<Seq<char>>,
)
    ensures
        forall|who: Seq<char>| #[trigger]
            peers_of(states, channel, me).contains(who) <==> channel is Some && me is Some
                && Some(who) != me && exists|i: int|
                0 <= i < states.len() && (#[trigger] states[i]).channel_id == channel
                    && states[i].user_pubkey@ == who,
    decreases states.len(),
{
    if states.len() > 0 {
        let rest = states.drop_last();
        let before = peers_of(rest, channel, me);
        let all = peers_of(states, channel, me);
        peers_are_those_in_our_call(rest, channel, me);
        assert forall|who: Seq<char>| #[trigger] all.contains(who) <==> channel is Some && me
            is Some && Some(who) != me && exists|i: int|
            0 <= i < states.len() && (#[trigger] states[i]).channel_id == channel
                && states[i].user_pubkey@ == who by {
            if all.contains(who) {
                let k = choose|k: int| 0 <= k < all.len() && all[k] == who;
                if k < before.len() {
                    assert(before[k] == who);
                    assert(before.contains(who));
                    let i = choose|i: int|
                        0 <= i < rest.len() && (#[trigger] rest[i]).channel_id == channel
                            && rest[i].user_pubkey@ == who;
                    assert(states[i] == rest[i]);
                } else {
                    assert(states[states.len() - 1].user_pubkey@ == who);
                }
            }
            if channel is Some && me is Some && Some(who) != me && exists|i: int|
                0 <= i < states.len() && (#[trigger] states[i]).channel_id == channel
                    && states[i].user_pubkey@ == who {
                let i = choose|i: int|
                    0 <= i < states.len() && (#[trigger] states[i]).channel_id == channel
                        && states[i].user_pubkey@ == who;
                if i < rest.len() {
                    assert(rest[i] == states[i]);
                    assert(before.contains(who));
                    let k = choose|k: int| 0 <= k < before.len() && before[k] == who;
                    assert(all[k] == who);
                } else {
                    assert(all[before.len() as int] == who);
                }
            }
        }
    } else {
        assert forall|who: Seq<char>| #[trigger] peers_of(states, channel, me).contains(
            who,
        ) implies false by {}
    }
}

/// A sign of typing lasts five seconds: until then somebody types, and from then on not.
pub proof fn typing_lasts_five_seconds(at: u64, now: u64)
    requires
        at <= now,
    ensures
        is_typing(at, now) <==> now - at < 5_000,
{
}

/// What is watched and shared decides what the voice service is told: the sound of
/// others' screens only while somebody else in our call shares, our own sound only while
/// we share with sound, and our picture only while we share something that was picked.
pub proof fn screens_are_wanted_while_shared(s: AppState, native_video: bool)
    ensures
        wants_of(s, native_video).audio_room is Some ==> s.screen_audio_token
            == wants_of(s, native_video).audio_room && s.voice.channel_id is Some
            && s.screen_shares@.dom().contains(s.voice.channel_id->Some_0) && exists|i: int|
            0 <= i < s.screen_shares@[s.voice.channel_id->Some_0]@.len() && Some(
                (#[trigger] s.screen_shares@[s.voice.channel_id->Some_0]@[i])@,
            ) != own_name(s),
        (s.voice.channel_id is Some && s.screen_shares@.dom().contains(s.voice.channel_id->Some_0)
            && exists|i: int|
            0 <= i < s.screen_shares@[s.voice.channel_id->Some_0]@.len() && Some(
                (#[trigger] s.screen_shares@[s.voice.channel_id->Some_0]@[i])@,
            ) != own_name(s)) ==> wants_of(s, native_video).audio_room == s.screen_audio_token,
        wants_of(s, native_video).publish_system <==> s.screen_sharing && s.screen_native_audio,
        wants_of(s, native_video).video_room is Some ==> s.screen_sharing && native_video
            && s.screen_share_target is Some && wants_of(s, native_video).video_room
            == s.screen_video_token,
        s.screen_sharing && native_video && s.screen_share_target is Some ==> wants_of(
            s,
            native_video,
        ).video_room == s.screen_video_token,
        wants_of(s, native_video).target == s.screen_share_target,
        wants_of(s, native_video).epoch == s.audio.session_epoch,
        wants_of(s, native_video).joined == s.audio.screen_audio_joined,
{
}

/// What the page says of a share is what is known of it: begun and ended, with sound or
/// without, possible or not. A share that ended is told to the call, and so is one that
/// began.
pub proof fn the_page_is_believed(o: AppState, m: ShareMessage, n: AppState)
    requires
        share_followed(o, m, n),
    ensures
        m is Started ==> n.screen_sharing && n.screen_native_audio == m->native_audio,
        m is Ended ==> !n.screen_sharing && !n.screen_native_audio,
        m is Unavailable ==> !n.screen_sharing && !n.screen_capture_available,
        m is Undecryptable ==> n.media_undecryptable,
        !(m is Started || m is Ended || m is Unavailable) ==> n.screen_sharing == o.screen_sharing
            && n.screen_native_audio == o.screen_native_audio,
        !(m is Unavailable) ==> n.screen_capture_available == o.screen_capture_available,
        !(m is Undecryptable) ==> n.media_undecryptable == o.media_undecryptable,
        n.voice == o.voice && n.messages == o.messages && n.screen_share_target
            == o.screen_share_target,
{
}

/// The call is told of a share where we are in one, in that channel and as it is.
pub proof fn the_call_is_told_of_a_share(channel: Option<Id>, sharing: bool)
    ensures
        channel is None <==> share_notice(channel, sharing) is None,
        channel matches Some(c) ==> share_notice(channel, sharing) == Some(
            ClientMessage::SetScreenShare { channel_id: c, sharing },
        ),
{
}

/// Each kind of message of the page is read as itself, with what it carries.
pub proof fn kinds_are_told_apart(
    detail: Option<Seq<char>>,
    identity: Option<Seq<char>>,
    flags: (bool, bool, bool, bool, bool),
    m: ShareMessage,
)
    ensures
        page_says(Some("share-started"@), detail, identity, flags, m) ==> m == (
        ShareMessage::Started { native_audio: flags.0 }),
        page_says(Some("screen-share-ended"@), detail, identity, flags, m) ==> m is Ended,
        page_says(Some("share-unavailable"@), detail, identity, flags, m) ==> m == (
        ShareMessage::Unavailable { secure: flags.1 }),
        page_says(Some("e2ee-undecryptable"@), detail, identity, flags, m) ==> m is Undecryptable,
        page_says(Some("share-audio"@), detail, identity, flags, m) ==> m == (ShareMessage::Audio {
            published: flags.2,
            supported: flags.3,
        }),
        page_says(Some("stream-audio"@), detail, identity, flags, m) && identity is Some ==> (
        m matches ShareMessage::StreamAudio { identity: i, present } && i@ == identity->Some_0
            && present == flags.4),
        page_says(None, detail, identity, flags, m) ==> m is Other,
{
    reveal_strlit("share-started");
    reveal_strlit("share-unavailable");
    reveal_strlit("share-echo-risk");
    reveal_strlit("screen-share-ended");
    reveal_strlit("screen-room-error");
    reveal_strlit("screen-room-reconnecting");
    reveal_strlit("screen-track-timeout");
    reveal_strlit("e2ee-undecryptable");
    reveal_strlit("e2ee-error");
    reveal_strlit("share-audio");
    reveal_strlit("stream-audio");
    assert("screen-share-ended"@[0] == 's' && "e2ee-undecryptable"@[0] == 'e');
    assert("screen-share-ended"@.len() == 18 && "e2ee-undecryptable"@.len() == 18);
    assert("stream-audio"@.len() == 12 && "share-audio"@.len() == 11);
    assert("share-started"@.len() == 13 && "share-unavailable"@.len() == 17);
    assert("share-echo-risk"@.len() == 15 && "screen-room-error"@.len() == 17);
    assert("share-unavailable"@[1] == 'h' && "screen-room-error"@[1] == 'c');
    assert("screen-room-reconnecting"@.len() == 24 && "screen-track-timeout"@.len() == 20);
    assert("e2ee-error"@.len() == 10);
}

proof fn shared_is_listed(list: Seq<(Id, Vec<String>)>, k: int, i: int)
    requires
        0 <= k < list.len(),
        0 <= i < list[k].1@.len(),
    ensures
        shown_streams(list).contains(list[k].1@[i]@),
    decreases list.len(),
{
    let rest = list.drop_last();
    let all = shown_streams(list);
    let who = list[k].1@[i]@;
    if k < rest.len() {
        shared_is_listed(rest, k, i);
        let j = choose|j: int| 0 <= j < shown_streams(rest).len() && shown_streams(rest)[j] == who;
        assert(all[j] == who);
    } else {
        assert(texts(list[k].1@)[i] == who);
        assert(all[shown_streams(rest).len() + i] == who);
    }
}

proof fn listed_is_shared(list: Seq<(Id, Vec<String>)>, who: Seq<char>)
    requires
        shown_streams(list).contains(who),
    ensures
        exists|k: int, i: int|
            0 <= k < list.len() && 0 <= i < list[k].1@.len() && (#[trigger] list[k].1@[i])@ == who,
    decreases list.len(),
{
    let rest = list.drop_last();
    let all = shown_streams(list);
    let j = choose|j: int| 0 <= j < all.len() && all[j] == who;
    if j < shown_streams(rest).len() {
        assert(shown_streams(rest)[j] == who);
        listed_is_shared(rest, who);
        let (k, i) = choose|k: int, i: int|
            0 <= k < rest.len() && 0 <= i < rest[k].1@.len() && (#[trigger] rest[k].1@[i])@ == who;
        assert(list[k].1@[i]@ == who);
    } else {
        let i = j - shown_streams(rest).len();
        assert(texts(list.last().1@)[i] == who);
        assert(list[list.len() - 1].1@[i]@ == who);
    }
}

/// Every stream that is shared somewhere gets a level, and the watched one does; and
/// nobody else does.
pub proof fn every_stream_has_a_level(s: AppState, who: Seq<char>)
    requires
        keyed_once(s.screen_shares.list()),
        as_map(s.screen_shares.list()) == s.screen_shares@,
    ensures
        level_names(s).contains(who) <==> {
            ||| s.screen_viewing matches Some(w) && w@ == who
            ||| exists|c: Id, i: int|
                s.screen_shares@.dom().contains(c) && 0 <= i < s.screen_shares@[c]@.len() && (
                #[trigger] s.screen_shares@[c]@[i])@ == who
        },
{
    let list = s.screen_shares.list();
    let shared = shown_streams(list);
    let all = level_names(s);
    if exists|c: Id, i: int|
        s.screen_shares@.dom().contains(c) && 0 <= i < s.screen_shares@[c]@.len() && (
        #[trigger] s.screen_shares@[c]@[i])@ == who {
        let (c, i) = choose|c: Id, i: int|
            s.screen_shares@.dom().contains(c) && 0 <= i < s.screen_shares@[c]@.len() && (
            #[trigger] s.screen_shares@[c]@[i])@ == who;
        let k = map_only(list, c);
        map_at(list, k);
        shared_is_listed(list, k, i);
    }
    if shared.contains(who) {
        listed_is_shared(list, who);
        let (k, i) = choose|k: int, i: int|
            0 <= k < list.len() && 0 <= i < list[k].1@.len() && (#[trigger] list[k].1@[i])@ == who;
        map_at(list, k);
        assert(s.screen_shares@[list[k].0]@[i]@ == who);
        let j = choose|j: int| 0 <= j < shared.len() && shared[j] == who;
        assert(all[j] == who);
    }
    if let Some(w) = s.screen_viewing {
        if !shared.contains(w@) {
            assert(all[shared.len() as int] == w@);
        }
    }
    if all.contains(who) && !shared.contains(who) {
        let j = choose|j: int| 0 <= j < all.len() && all[j] == who;
        if j < shared.len() {
            assert(shared[j] == who);
        }
    }
}

/// Only the watched stream is heard, as loud as it was set: any other is silent.
pub proof fn only_the_watched_stream_is_heard(s: AppState, v: Seq<(String, u32)>, i: int)
    requires
        levels_right(s, v),
        0 <= i < v.len(),
    ensures
        v[i].1 > 0 ==> s.screen_viewing is Some && s.screen_viewing->Some_0@ == v[i].0@
            && !s.stream_muted@.dom().contains(v[i].0@),
        s.screen_viewing is Some && s.screen_viewing->Some_0@ == v[i].0@
            && !s.stream_muted@.dom().contains(v[i].0@) ==> v[i].1
            == if s.stream_volumes@.dom().contains(v[i].0@) {
            s.stream_volumes@[v[i].0@]
        } else {
            100
        },
{
}

/// What is grouped is all there, each source in the group it belongs to and in the order
/// in which it was found.
pub proof fn sources_are_grouped(sources: Seq<ScreenSource>)
    ensures
        sources_by(sources, true) == sources.filter(|s: ScreenSource| s.app is Some),
        sources_by(sources, false) == sources.filter(|s: ScreenSource| s.app is None),
    decreases sources.len(),
{
    let p = |s: ScreenSource| s.app is Some;
    let q = |s: ScreenSource| s.app is None;
    reveal(Seq::filter);
    if sources.len() > 0 {
        let first = sources[0];
        let rest = sources.drop_first();
        sources_are_grouped(rest);
        assert(sources =~= seq![first] + rest);
        Seq::filter_distributes_over_add(seq![first], rest, p);
        Seq::filter_distributes_over_add(seq![first], rest, q);
        let one = seq![first];
        assert(one.drop_last() =~= Seq::empty());
        assert(one.drop_last().filter(p) =~= Seq::empty());
        assert(one.drop_last().filter(q) =~= Seq::empty());
        assert(one.last() == first);
        reveal_with_fuel(Seq::filter, 2);
        assert(one.filter(p) =~= if p(first) {
            seq![first]
        } else {
            Seq::empty()
        });
        assert(one.filter(q) =~= if q(first) {
            seq![first]
        } else {
            Seq::empty()
        });
        assert(sources_by(sources, true) =~= sources.filter(p));
        assert(sources_by(sources, false) =~= sources.filter(q));
    } else {
        assert(sources_by(sources, true) =~= sources.filter(p));
        assert(sources_by(sources, false) =~= sources.filter(q));
    }
}

/// The ways that data goes in a session: to the gateway and to the relays always, to the
/// media server only in a call, to a directory only where there is one, and the secret
/// key nowhere. Only the gateway keeps messages.
pub proof fn the_ways_of_data(p: SessionPaths)
    ensures
        session_legs_spec(p).len() == 3 + (if p.in_voice {
            1int
        } else {
            0
        }) + (if p.rendezvous is Some {
            1int
        } else {
            0
        }),
        session_legs_spec(p)[0].holds_db && session_legs_spec(p)[0].travels,
        forall|i: int|
            0 < i < session_legs_spec(p).len() ==> !(#[trigger] session_legs_spec(p)[i]).holds_db,
        !session_legs_spec(p).last().travels && session_legs_spec(p).last().seal == Seal::Local,
        forall|i: int|
            0 <= i < session_legs_spec(p).len() - 1 ==> (
            #[trigger] session_legs_spec(p)[i]).travels,
        session_legs_spec(p)[1].seal == Seal::EndToEnd,
        !p.self_hosting && p.transport == Transport::QuicRelayed ==> session_legs_spec(p)[0].seal
            == Seal::EndToEnd && session_legs_spec(p)[0].via is Some,
        p.transport != Transport::QuicRelayed ==> session_legs_spec(p)[0].via is None,
        p.in_voice ==> (session_legs_spec(p)[2].seal == Seal::EndToEnd <==> p.voice_sealed),
        p.rendezvous matches Some(at) ==> session_legs_spec(p)[session_legs_spec(p).len()
            - 2].where_to == at@,
{
}

/// A long text keeps its two ends, and a short one all of it.
pub proof fn two_ends_are_kept(s: Seq<char>, head: nat, tail: nat)
    ensures
        s.len() <= head + tail + 1 ==> middle_out(s, head, tail) == s,
        s.len() > head + tail + 1 ==> {
            let r = middle_out(s, head, tail);
            &&& r.len() == head + tail + 1
            &&& forall|i: int| 0 <= i < head ==> #[trigger] r[i] == s[i]
            &&& forall|i: int|
                0 <= i < tail ==> #[trigger] r[head + 1 + i] == s[s.len() - tail + i]
        },
{
    reveal_strlit("…");
}

/// How long ago something was is said in the largest unit that fits.
pub proof fn the_largest_unit_that_fits(secs: int, n: nat)
    ensures
        n < 60 ==> ago(secs, secs + n) == decimal(n) + "s ago"@,
        1 <= n < 60 ==> ago(secs, secs + 60 * n) == decimal(n) + "m ago"@,
        1 <= n < 24 ==> ago(secs, secs + 3600 * n) == decimal(n) + "h ago"@,
        1 <= n ==> ago(secs, secs + 86_400 * n) == decimal(n) + "d ago"@,
        n >= 1 ==> ago(secs, secs - n) == decimal_int(secs),
{
}

/// Saved settings and typed ones are brought between their bounds: a number within them
/// stays, one below is the least, and one above the largest.
pub proof fn clamping_stays_within(x: int, low: int, high: int)
    requires
        low <= high,
    ensures
        low <= clamped(x, low, high) <= high,
        low <= x <= high ==> clamped(x, low, high) == x,
        x < low ==> clamped(x, low, high) == low,
        x > high ==> clamped(x, low, high) == high,
{
}

/// A server's label is its address without the scheme.
pub proof fn a_label_has_no_scheme(s: Seq<char>, p: Seq<char>)
    requires
        p.len() > 0,
    ensures
        !begins_with(stripped(s, p), p),
        !begins_with(s, p) ==> stripped(s, p) == s,
        stripped(p + s, p) == stripped(s, p),
        stripped(s, p).len() <= s.len(),
        s.skip(s.len() - stripped(s, p).len()) == stripped(s, p),
    decreases s.len(),
{
    assert((p + s).take(p.len() as int) =~= p);
    assert((p + s).skip(p.len() as int) =~= s);
    if begins_with(s, p) {
        let t = s.skip(p.len() as int);
        a_label_has_no_scheme(t, p);
        assert(s.skip(s.len() - stripped(s, p).len()) =~= t.skip(t.len() - stripped(t, p).len()));
    } else {
        assert(s.skip(0) =~= s);
    }
}

/// A camera is called by its own label, that of the first with its id.
pub proof fn a_camera_has_its_own_label(cameras: Seq<Camera>, id: Seq<char>)
    ensures
        camera_label(cameras, id) matches Some(label) ==> label.len() > 0 && exists|i: int|
            0 <= i < cameras.len() && (#[trigger] cameras[i]).id@ == id && cameras[i].label@
                == label && forall|j: int| 0 <= j < i ==> (#[trigger] cameras[j]).id@ != id,
        (forall|i: int| 0 <= i < cameras.len() ==> (#[trigger] cameras[i]).id@ != id)
            ==> camera_label(cameras, id) is None,
    decreases cameras.len(),
{
    if cameras.len() > 0 {
        let rest = cameras.drop_first();
        a_camera_has_its_own_label(rest, id);
        if cameras[0].id@ == id {
            assert(cameras[0].id@ == id);
        } else {
            if let Some(label) = camera_label(rest, id) {
                let i = choose|i: int|
                    0 <= i < rest.len() && (#[trigger] rest[i]).id@ == id && rest[i].label@ == label
                        && forall|j: int| 0 <= j < i ==> (#[trigger] rest[j]).id@ != id;
                assert(cameras[i + 1] == rest[i]);
                assert forall|j: int| 0 <= j < i + 1 implies (#[trigger] cameras[j]).id@ != id by {
                    if j > 0 {
                        assert(rest[j - 1] == cameras[j]);
                    }
                }
            }
            if forall|i: int| 0 <= i < cameras.len() ==> (#[trigger] cameras[i]).id@ != id {
                assert forall|i: int| 0 <= i < rest.len() implies (#[trigger] rest[i]).id@ != id by {
                    assert(cameras[i + 1] == rest[i]);
                }
            }
        }
    }
}

} // verus!
