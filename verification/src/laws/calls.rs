//! What holds of the keys of calls.

use crate::callkey::{
    KeyStep, first_kept, forgot, in_the_call_is_in_the_channel, must_rekey, names_in, rekeyed,
    step_for, the_key_goes_to_the_call,
};
use crate::crypto::{hkdf_extract, meeting_x, sha256};
use crate::identity::media_secret;
use crate::mediakey::{binding, owed};
use crate::nostr::nip44::shared_key;
use crate::protocol::{ClientMessage, Id, VoiceState};
use crate::state::AppState;
use crate::text::{be32, text_lt, text_lt_total};
use vstd::prelude::*;
use vstd::string::*;
use vstd::utf8::*;

verus! {

/// Whether somebody is in a call, by the states that the gateway gave.
pub open spec fn is_in(states: Seq<VoiceState>, channel: Id, who: Seq<char>) -> bool {
    exists|i: int|
        0 <= i < states.len() && (#[trigger] states[i]).channel_id == Some(channel)
            && states[i].user_pubkey@ == who
}

/// After a removal the key is changed by the one in the call with the least name, who
/// holds the key, and by nobody else.
pub proof fn the_least_name_changes_the_key(s: AppState, channel: Id, me: Seq<char>)
    requires
        s.voice.channel_id == Some(channel),
        s.identity is Some,
        s.self_user is Some,
        s.self_user->Some_0.pubkey@ == me,
    ensures
        must_rekey(s) <==> s.media_keys@.dom().contains(channel) && is_in(
            s.voice_states@,
            channel,
            me,
        ) && forall|i: int|
            0 <= i < s.voice_states@.len() && (#[trigger] s.voice_states@[i]).channel_id == Some(
                channel,
            ) ==> !text_lt(s.voice_states@[i].user_pubkey@, me),
{
    let states = s.voice_states@;
    let names = names_in(states, channel);
    in_the_call_is_in_the_channel(states, channel);
    assert(names.contains(me) == is_in(states, channel, me));
    if forall|i: int| 0 <= i < names.len() ==> !text_lt(#[trigger] names[i], me) {
        assert forall|i: int|
            0 <= i < states.len() && (#[trigger] states[i]).channel_id == Some(
                channel,
            ) implies !text_lt(states[i].user_pubkey@, me) by {
            assert(names.contains(states[i].user_pubkey@));
            let k = choose|k: int| 0 <= k < names.len() && names[k] == states[i].user_pubkey@;
            assert(!text_lt(names[k], me));
        }
    }
    if forall|i: int|
        0 <= i < states.len() && (#[trigger] states[i]).channel_id == Some(channel) ==> !text_lt(
            states[i].user_pubkey@,
            me,
        ) {
        assert forall|i: int| 0 <= i < names.len() implies !text_lt(#[trigger] names[i], me) by {
            assert(names.contains(names[i]));
            let k = choose|k: int|
                0 <= k < states.len() && (#[trigger] states[k]).channel_id == Some(channel)
                    && states[k].user_pubkey@ == names[i];
            assert(!text_lt(states[k].user_pubkey@, me));
        }
    }
}

/// Two members that see the same call never both change its key.
pub proof fn only_one_changes_the_key(a: AppState, b: AppState)
    requires
        a.voice_states@ == b.voice_states@,
        a.voice.channel_id == b.voice.channel_id,
        a.self_user is Some && b.self_user is Some,
        a.self_user->Some_0.pubkey@ != b.self_user->Some_0.pubkey@,
    ensures
        !(must_rekey(a) && must_rekey(b)),
{
    if must_rekey(a) && must_rekey(b) {
        let channel = a.voice.channel_id->Some_0;
        let names = names_in(a.voice_states@, channel);
        let x = a.self_user->Some_0.pubkey@;
        let y = b.self_user->Some_0.pubkey@;
        let i = choose|i: int| 0 <= i < names.len() && names[i] == x;
        let j = choose|j: int| 0 <= j < names.len() && names[j] == y;
        assert(!text_lt(names[j], x));
        assert(!text_lt(names[i], y));
        text_lt_total(x, y);
    }
}

/// A changed key is the one of its call from then on, one epoch later, so that whoever
/// holds the old one takes it; the keys of other calls stay, and so does all else. It
/// goes to those still in the call.
pub proof fn a_changed_key_counts(
    o: AppState,
    sent: Map<(Id, Seq<char>), u32>,
    key: [u8; 32],
    n: AppState,
    sent2: Map<(Id, Seq<char>), u32>,
    messages: Seq<ClientMessage>,
    epoch: u32,
)
    requires
        must_rekey(o),
        rekeyed(o, sent, key, n, sent2, messages, epoch),
    ensures
        ({
            let c = o.voice.channel_id->Some_0;
            &&& n.media_keys@.dom().contains(c) && n.media_keys@[c] == (epoch, key)
            &&& o.media_keys@[c].0 < u32::MAX ==> epoch == o.media_keys@[c].0 + 1
            &&& o.media_keys@[c].0 == u32::MAX ==> epoch == u32::MAX
            &&& forall|i: int|
                0 <= i < messages.len() ==> match #[trigger] messages[i] {
                    ClientMessage::ShareMediaKey { channel_id, to, epoch: at, .. } => channel_id
                        == c && at == epoch && is_in(o.voice_states@, c, to@) && to@
                        != o.self_user->Some_0.pubkey@,
                    _ => false,
                }
            &&& forall|d: Id|
                d != c ==> (#[trigger] n.media_keys@.dom().contains(d)
                    <==> o.media_keys@.dom().contains(d))
            &&& forall|d: Id|
                d != c && #[trigger] o.media_keys@.dom().contains(d) ==> n.media_keys@[d]
                    == o.media_keys@[d]
        }),
        n == (AppState { media_keys: n.media_keys, ..o }),
{
    let c = o.voice.channel_id->Some_0;
    the_key_goes_to_the_call(
        o.voice_states@,
        names_in(o.voice_states@, c),
        sent,
        c,
        o.self_user->Some_0.pubkey@,
        epoch,
        key@,
        o.identity->Some_0.key(),
        messages,
    );
}

/// A first key is the one of its call from then on, at the first epoch, and it goes to
/// those in that call and to nobody else.
pub proof fn a_first_key_counts(
    o: AppState,
    sent: Map<(Id, Seq<char>), u32>,
    channel: Id,
    me: Seq<char>,
    secret: Seq<u8>,
    key: [u8; 32],
    n: AppState,
    sent2: Map<(Id, Seq<char>), u32>,
    messages: Seq<ClientMessage>,
)
    requires
        first_kept(o, sent, channel, me, secret, key, n, sent2, messages),
    ensures
        n.media_keys@.dom().contains(channel) && n.media_keys@[channel] == (1u32, key),
        forall|d: Id|
            d != channel ==> (#[trigger] n.media_keys@.dom().contains(d)
                <==> o.media_keys@.dom().contains(d)),
        forall|d: Id|
            d != channel && #[trigger] o.media_keys@.dom().contains(d) ==> n.media_keys@[d]
                == o.media_keys@[d],
        n == (AppState { media_keys: n.media_keys, ..o }),
        forall|i: int|
            0 <= i < messages.len() ==> match #[trigger] messages[i] {
                ClientMessage::ShareMediaKey { channel_id, to, epoch, .. } => channel_id == channel
                    && epoch == 1 && is_in(o.voice_states@, channel, to@) && to@ != me,
                _ => false,
            },
        forall|who: Seq<char>|
            who != me && #[trigger] is_in(o.voice_states@, channel, who) && media_secret(
                secret,
                who,
            ) is Ok && !(sent.dom().contains((channel, who)) && sent[(channel, who)] >= 1)
                ==> exists|i: int|
                0 <= i < messages.len() && (#[trigger] messages[i])->ShareMediaKey_to@ == who,
{
    the_key_goes_to_the_call(
        o.voice_states@,
        names_in(o.voice_states@, channel),
        sent,
        channel,
        me,
        1,
        key@,
        secret,
        messages,
    );
    assert forall|who: Seq<char>|
        who != me && #[trigger] is_in(o.voice_states@, channel, who) && media_secret(secret, who)
            is Ok && !(sent.dom().contains((channel, who)) && sent[(channel, who)] >= 1) implies
        exists|i: int|
            0 <= i < messages.len() && (#[trigger] messages[i])->ShareMediaKey_to@ == who by {
        let j = choose|j: int|
            0 <= j < o.voice_states@.len() && (#[trigger] o.voice_states@[j]).channel_id == Some(
                channel,
            ) && o.voice_states@[j].user_pubkey@ == who;
        assert(o.voice_states@[j].user_pubkey@ == who);
    }
}

/// What is done about a key: nothing without a name and an identity; alone one is made
/// at once, with others one is waited for; and one that is held is handed to the others.
pub proof fn what_is_done_about_a_key(
    me: Seq<char>,
    holds: bool,
    present: Seq<Seq<char>>,
    has_identity: bool,
    name: Option<Seq<char>>,
)
    ensures
        !has_identity || name is None ==> step_for(has_identity, name, holds, present)
            == KeyStep::Nothing,
        (exists|i: int| 0 <= i < present.len() && #[trigger] present[i] != me) ==> step_for(
            true,
            Some(me),
            holds,
            present,
        ) == if holds {
            KeyStep::Share
        } else {
            KeyStep::Wait
        },
        (forall|i: int| 0 <= i < present.len() ==> #[trigger] present[i] == me) ==> step_for(
            true,
            Some(me),
            holds,
            present,
        ) == if holds {
            KeyStep::Nothing
        } else {
            KeyStep::Make
        },
{
}

/// Who left a call is owed its key again when they come back; who stayed, and whoever is
/// in another call, is not.
pub proof fn who_comes_back_is_owed_the_key(
    before: Map<(Id, Seq<char>), u32>,
    channel: Id,
    present: Seq<Seq<char>>,
    after: Map<(Id, Seq<char>), u32>,
    who: Seq<char>,
    epoch: u32,
    other: Id,
)
    requires
        forgot(before, channel, present, after),
        other != channel,
    ensures
        !present.contains(who) ==> owed(after, channel, who, epoch),
        present.contains(who) ==> owed(after, channel, who, epoch) == owed(
            before,
            channel,
            who,
            epoch,
        ),
        owed(after, other, who, epoch) == owed(before, other, who, epoch),
{
    assert(after.dom().contains((channel, who)) <==> before.dom().contains((channel, who))
        && present.contains(who));
    assert(after.dom().contains((other, who)) <==> before.dom().contains((other, who)));
    if after.dom().contains((channel, who)) {
        assert(after[(channel, who)] == before[(channel, who)]);
    }
    if after.dom().contains((other, who)) {
        assert(after[(other, who)] == before[(other, who)]);
    }
}

/// A key that was sent is not owed again, and a later one is.
pub proof fn what_was_sent_is_not_owed(
    sent: Map<(Id, Seq<char>), u32>,
    channel: Id,
    who: Seq<char>,
    epoch: u32,
    later: u32,
)
    ensures
        !owed(sent.insert((channel, who), epoch), channel, who, epoch),
        later > epoch ==> owed(sent.insert((channel, who), epoch), channel, who, later),
        later <= epoch ==> !owed(sent.insert((channel, who), epoch), channel, who, later),
        !sent.dom().contains((channel, who)) ==> owed(sent, channel, who, epoch),
{
}

/// The names of keys keep their purposes apart: what is shared for the key of a call and
/// what is shared for a message are taken from one meeting, under names of their own.
pub proof fn purposes_are_kept_apart(secret: Seq<u8>, them: Seq<char>, x: Seq<u8>)
    requires
        meeting_x(secret, them) == Ok::<Seq<u8>, Seq<char>>(x),
    ensures
        media_secret(secret, them) == Ok::<Seq<u8>, Seq<char>>(
            sha256(encode_utf8("dioxusfun/media-key/v1"@) + x),
        ),
        shared_key(secret, them) == Ok::<Seq<u8>, Seq<char>>(
            hkdf_extract(encode_utf8("nip44-v2"@), x),
        ),
        forall|epoch: u32, who: Seq<char>| #[trigger]
            binding(epoch, who) == encode_utf8("dioxusfun/media-key/v1"@) + be32(epoch)
                + encode_utf8(who),
{
}

} // verus!
