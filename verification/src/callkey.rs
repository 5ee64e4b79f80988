//! Who makes the key of a call, and to whom it is handed.

use crate::crypto::{hex_text, names_secret, public_x};
use crate::identity::{Identity, media_secret};
use crate::mediakey::{Ledger, designated, generate, is_present, opened_blob, owed, seal};
use crate::protocol::{ClientMessage, Id, User, VoiceState};
use crate::state::AppState;
use crate::text::{opt_str, same, text_before, text_lt, text_lt_total, text_lt_trans, texts};
use vstd::prelude::*;
use vstd::string::*;

verus! {

/// How long a key is waited for before one is made, in milliseconds.
pub const KEY_WAIT: u64 = 4_000;

/// The names in a call.
pub open spec fn names_in(states: Seq<VoiceState>, channel: Id) -> Seq<Seq<char>>
    decreases states.len(),
{
    if states.len() == 0 {
        Seq::empty()
    } else {
        let before = names_in(states.drop_last(), channel);
        if states.last().channel_id == Some(channel) {
            before.push(states.last().user_pubkey@)
        } else {
            before
        }
    }
}

/// A name is in a call exactly where some state of that name says that it is in just
/// this channel; and as often as there are such states.
pub proof fn in_the_call_is_in_the_channel(states: Seq<VoiceState>, channel: Id)
    ensures
        forall|who: Seq<char>| #[trigger]
            names_in(states, channel).contains(who) <==> exists|i: int|
                0 <= i < states.len() && (#[trigger] states[i]).channel_id == Some(channel)
                    && states[i].user_pubkey@ == who,
        names_in(states, channel) == states.filter(
            |v: VoiceState| v.channel_id == Some(channel),
        ).map_values(|v: VoiceState| v.user_pubkey@),
    decreases states.len(),
{
    reveal(Seq::filter);
    let here = |v: VoiceState| v.channel_id == Some(channel);
    let name = |v: VoiceState| v.user_pubkey@;
    if states.len() > 0 {
        let rest = states.drop_last();
        let v = states.last();
        let before = names_in(rest, channel);
        let all = names_in(states, channel);
        in_the_call_is_in_the_channel(rest, channel);
        assert forall|who: Seq<char>| #[trigger] all.contains(who) <==> exists|i: int|
            0 <= i < states.len() && (#[trigger] states[i]).channel_id == Some(channel)
                && states[i].user_pubkey@ == who by {
            if all.contains(who) {
                let k = choose|k: int| 0 <= k < all.len() && all[k] == who;
                if k < before.len() {
                    assert(before[k] == who);
                    assert(before.contains(who));
                    let i = choose|i: int|
                        0 <= i < rest.len() && (#[trigger] rest[i]).channel_id == Some(channel)
                            && rest[i].user_pubkey@ == who;
                    assert(states[i] == rest[i]);
                } else {
                    assert(states[states.len() - 1].user_pubkey@ == who);
                }
            }
            if exists|i: int|
                0 <= i < states.len() && (#[trigger] states[i]).channel_id == Some(channel)
                    && states[i].user_pubkey@ == who {
                let i = choose|i: int|
                    0 <= i < states.len() && (#[trigger] states[i]).channel_id == Some(channel)
                        && states[i].user_pubkey@ == who;
                if i < rest.len() {
                    assert(rest[i] == states[i]);
                    assert(before.contains(who));
                    let k = choose|k: int| 0 <= k < before.len() && before[k] == who;
                    assert(all[k] == who);
                } else {
                    assert(all[before.len() as int] == who);
                }
            }
        }
        assert(all =~= states.filter(here).map_values(name));
    } else {
        assert(names_in(states, channel) =~= states.filter(here).map_values(name));
        assert forall|who: Seq<char>| #[trigger]
            names_in(states, channel).contains(who) implies false by {}
    }
}

/// Lists the names in a call.
pub fn present_in(s: &AppState, channel: Id) -> (r: Vec<String>)
    ensures
        texts(r@) == names_in(s.voice_states@, channel),
        forall|who: Seq<char>| #[trigger]
            texts(r@).contains(who) <==> exists|i: int|
                0 <= i < s.voice_states@.len() && (#[trigger] s.voice_states@[i]).channel_id
                    == Some(channel) && s.voice_states@[i].user_pubkey@ == who,
{
    proof {
        in_the_call_is_in_the_channel(s.voice_states@, channel);
    }
    let mut out: Vec<String> = Vec::new();
    let mut i: usize = 0;
    assert(s.voice_states@.take(0) =~= Seq::empty());
    assert(texts(out@) =~= Seq::empty());
    while i < s.voice_states.len()
        invariant
            i <= s.voice_states@.len(),
            texts(out@) == names_in(s.voice_states@.take(i as int), channel),
        decreases s.voice_states@.len() - i,
    {
        let v: &VoiceState = &s.voice_states[i];
        let ghost was = out@;
        assert(s.voice_states@.take(i + 1).drop_last() =~= s.voice_states@.take(i as int));
        let here: bool = match v.channel_id {
            Some(c) => c == channel,
            None => false,
        };
        if here {
            out.push(v.user_pubkey.clone());
            assert(texts(out@) =~= texts(was).push(v.user_pubkey@));
        }
        i = i + 1;
    }
    assert(s.voice_states@.take(i as int) =~= s.voice_states@);
    out
}

/// A name put in its place among names in order.
pub open spec fn placed(names: Seq<Seq<char>>, name: Seq<char>) -> Seq<Seq<char>>
    decreases names.len(),
{
    if names.len() == 0 || !text_lt(name, names.last()) {
        names.push(name)
    } else {
        placed(names.drop_last(), name).push(names.last())
    }
}

/// Names in order.
pub open spec fn ordered(names: Seq<Seq<char>>) -> Seq<Seq<char>>
    decreases names.len(),
{
    if names.len() == 0 {
        Seq::empty()
    } else {
        placed(ordered(names.drop_last()), names.last())
    }
}

/// Whether no name stands before a lesser one.
pub open spec fn is_ordered(names: Seq<Seq<char>>) -> bool {
    forall|i: int, j: int|
        0 <= i < j < names.len() ==> !text_lt(#[trigger] names[j], #[trigger] names[i])
}

proof fn placed_at(names: Seq<Seq<char>>, name: Seq<char>, k: int)
    requires
        0 <= k <= names.len(),
        k > 0 ==> !text_lt(name, names[k - 1]),
        forall|j: int| k <= j < names.len() ==> text_lt(name, #[trigger] names[j]),
    ensures
        placed(names, name) == names.insert(k, name),
    decreases names.len(),
{
    if k == names.len() {
        assert(names.insert(k, name) =~= names.push(name));
    } else {
        placed_at(names.drop_last(), name, k);
        assert(names.insert(k, name) =~= names.drop_last().insert(k, name).push(names.last()));
    }
}

proof fn placed_keeps(names: Seq<Seq<char>>, name: Seq<char>)
    requires
        is_ordered(names),
    ensures
        is_ordered(placed(names, name)),
        placed(names, name).to_multiset() == names.push(name).to_multiset(),
    decreases names.len(),
{
    let all = placed(names, name);
    if names.len() == 0 || !text_lt(name, names.last()) {
        assert forall|i: int, j: int| 0 <= i < j < all.len() implies !text_lt(
            #[trigger] all[j],
            #[trigger] all[i],
        ) by {
            if j == names.len() && i < names.len() - 1 {
                let last = names.last();
                assert(!text_lt(last, names[i]));
                if text_lt(name, names[i]) {
                    text_lt_total(last, name);
                    text_lt_total(last, names[i]);
                    if text_lt(last, name) {
                        text_lt_trans(last, name, names[i]);
                    }
                }
            }
        }
    } else {
        let rest = names.drop_last();
        let last = names.last();
        placed_keeps(rest, name);
        let before = placed(rest, name);
        vstd::seq_lib::to_multiset_build(before, last);
        vstd::seq_lib::to_multiset_build(rest, name);
        vstd::seq_lib::to_multiset_build(rest, last);
        vstd::seq_lib::to_multiset_build(names, name);
        assert(rest.push(last) =~= names);
        assert(all.to_multiset() =~= names.push(name).to_multiset());
        assert forall|i: int| 0 <= i < before.len() implies !text_lt(last, #[trigger] before[i]) by {
            before.to_multiset_ensures();
            rest.push(name).to_multiset_ensures();
            assert(before.contains(before[i]));
            assert(rest.push(name).to_multiset().count(before[i]) > 0) by {
                assert(before.to_multiset().count(before[i]) > 0);
            }
            assert(rest.push(name).contains(before[i]));
            let k = choose|k: int| 0 <= k < rest.push(name).len() && rest.push(name)[k] == before[i];
            if k < rest.len() {
                assert(names[k] == before[i]);
                assert(names[names.len() - 1] == last);
            } else {
                text_lt_total(name, last);
            }
        }
    }
}

/// Names in order are the same names, none before a lesser one.
pub proof fn ordered_is_sorted(names: Seq<Seq<char>>)
    ensures
        is_ordered(ordered(names)),
        ordered(names).to_multiset() == names.to_multiset(),
    decreases names.len(),
{
    if names.len() > 0 {
        let rest = names.drop_last();
        ordered_is_sorted(rest);
        placed_keeps(ordered(rest), names.last());
        vstd::seq_lib::to_multiset_build(ordered(rest), names.last());
        vstd::seq_lib::to_multiset_build(rest, names.last());
        assert(rest.push(names.last()) =~= names);
    } else {
        assert(names =~= Seq::empty());
    }
}

/// Puts names in order.
pub fn in_order(names: &Vec<String>) -> (r: Vec<String>)
    ensures
        texts(r@) == ordered(texts(names@)),
{
    let ghost all = texts(names@);
    let mut out: Vec<String> = Vec::new();
    let mut i: usize = 0;
    assert(all.take(0) =~= Seq::empty());
    assert(texts(out@) =~= Seq::empty());
    while i < names.len()
        invariant
            i <= names@.len(),
            all == texts(names@),
            texts(out@) == ordered(all.take(i as int)),
            out@.len() == i,
        decreases names@.len() - i,
    {
        let name: &str = names[i].as_str();
        let mut k: usize = out.len();
        while k > 0 && text_before(name, out[k - 1].as_str())
            invariant
                k <= out@.len(),
                forall|j: int| k <= j < out@.len() ==> text_lt(name@, (#[trigger] out@[j])@),
            decreases k,
        {
            k = k - 1;
        }
        let ghost before = texts(out@);
        proof {
            assert forall|j: int| k <= j < before.len() implies text_lt(
                name@,
                #[trigger] before[j],
            ) by {
                assert(text_lt(name@, out@[j]@));
            }
            placed_at(before, name@, k as int);
            assert(all.take(i + 1).drop_last() =~= all.take(i as int));
            assert(all.take(i + 1).last() == name@);
        }
        out.insert(k, names[i].clone());
        assert(texts(out@) =~= before.insert(k as int, name@));
        i = i + 1;
    }
    assert(all.take(i as int) =~= all);
    out
}

/// What was sent, and to whom, in one round.
pub struct Round {
    pub sent: Map<(Id, Seq<char>), u32>,
    pub to: Seq<Seq<char>>,
}

/// A round over the names present: everybody but us is sent a key that is still
/// owed, unless none can be sealed for them; what could not be sealed stays owed.
pub open spec fn handed_round(
    sent: Map<(Id, Seq<char>), u32>,
    channel: Id,
    present: Seq<Seq<char>>,
    me: Seq<char>,
    epoch: u32,
    secret: Seq<u8>,
) -> Round
    decreases present.len(),
{
    if present.len() == 0 {
        Round { sent, to: Seq::empty() }
    } else {
        let before = handed_round(sent, channel, present.drop_last(), me, epoch, secret);
        let who = present.last();
        if who != me && owed(before.sent, channel, who, epoch) && media_secret(secret, who) is Ok {
            Round {
                sent: before.sent.insert((channel, who), epoch),
                to: before.to.push(who),
            }
        } else {
            before
        }
    }
}

/// Whether messages hand a key to names, one for one, each sealed so that its
/// recipient opens it.
pub open spec fn hands_over(
    messages: Seq<ClientMessage>,
    to: Seq<Seq<char>>,
    channel: Id,
    epoch: u32,
    key: Seq<u8>,
    secret: Seq<u8>,
) -> bool {
    messages.len() == to.len() && forall|i: int|
        0 <= i < to.len() ==> handed(#[trigger] messages[i], to[i], channel, epoch, key, secret)
}

/// Whether a message hands a key to a name, sealed so that its holder opens it.
pub open spec fn handed(
    m: ClientMessage,
    to: Seq<char>,
    channel: Id,
    epoch: u32,
    key: Seq<u8>,
    secret: Seq<u8>,
) -> bool {
    m matches ClientMessage::ShareMediaKey { channel_id, to: t, epoch: e, blob } && channel_id
        == channel && t@ == to && e == epoch && (forall|reader: Seq<u8>| #[trigger]
        names_secret(to, reader) ==> opened_blob(
            blob@,
            hex_text(public_x(secret)),
            epoch,
            reader,
            to,
        ) == Ok::<Seq<u8>, Seq<char>>(key))
}

/// A round reaches everybody present who can be sealed for and was not sent this epoch or
/// a later one, each of them once, and nobody else; us it never reaches. What was sent
/// is on record, and nothing else is new there.
pub proof fn a_round_reaches_everybody(
    sent: Map<(Id, Seq<char>), u32>,
    channel: Id,
    present: Seq<Seq<char>>,
    me: Seq<char>,
    epoch: u32,
    secret: Seq<u8>,
)
    ensures
        ({
            let round = handed_round(sent, channel, present, me, epoch, secret);
            &&& forall|i: int|
                0 <= i < round.to.len() ==> #[trigger] round.to[i] != me && present.contains(
                    round.to[i],
                ) && media_secret(secret, round.to[i]) is Ok && !(sent.dom().contains(
                    (channel, round.to[i]),
                ) && sent[(channel, round.to[i])] >= epoch)
            &&& forall|i: int, j: int|
                0 <= i < j < round.to.len() ==> #[trigger] round.to[i] != #[trigger] round.to[j]
            &&& forall|i: int|
                0 <= i < present.len() && #[trigger] present[i] != me && media_secret(
                    secret,
                    present[i],
                ) is Ok && !(sent.dom().contains((channel, present[i])) && sent[(
                    channel,
                    present[i],
                )] >= epoch) ==> round.to.contains(present[i])
            &&& forall|k: (Id, Seq<char>)| #[trigger]
                round.sent.dom().contains(k) <==> sent.dom().contains(k) || (k.0 == channel
                    && round.to.contains(k.1))
            &&& forall|k: (Id, Seq<char>)|
                #![trigger round.sent[k]]
                round.sent.dom().contains(k) ==> round.sent[k] == if k.0 == channel
                    && round.to.contains(k.1) {
                    epoch
                } else {
                    sent[k]
                }
        }),
    decreases present.len(),
{
    if present.len() > 0 {
        let rest = present.drop_last();
        let who = present.last();
        let before = handed_round(sent, channel, rest, me, epoch, secret);
        let round = handed_round(sent, channel, present, me, epoch, secret);
        a_round_reaches_everybody(sent, channel, rest, me, epoch, secret);
        assert(present[present.len() - 1] == who);
        assert forall|x: Seq<char>| rest.contains(x) implies present.contains(x) by {
            let k = choose|k: int| 0 <= k < rest.len() && rest[k] == x;
            assert(present[k] == x);
        }
        if who != me && owed(before.sent, channel, who, epoch) && media_secret(secret, who) is Ok {
            assert(!before.to.contains(who)) by {
                if before.to.contains(who) {
                    assert(before.sent.dom().contains((channel, who)));
                    assert(before.sent[(channel, who)] == epoch);
                }
            }
            assert(!(sent.dom().contains((channel, who)) && sent[(channel, who)] >= epoch)) by {
                if sent.dom().contains((channel, who)) {
                    assert(before.sent.dom().contains((channel, who)));
                    assert(before.sent[(channel, who)] == sent[(channel, who)]);
                }
            }
            assert(round.to == before.to.push(who));
            assert forall|x: Seq<char>| #[trigger] round.to.contains(x) <==> before.to.contains(x)
                || x == who by {
                if before.to.contains(x) {
                    let k = choose|k: int| 0 <= k < before.to.len() && before.to[k] == x;
                    assert(round.to[k] == x);
                }
                assert(round.to[before.to.len() as int] == who);
                if round.to.contains(x) && x != who {
                    let k = choose|k: int| 0 <= k < round.to.len() && round.to[k] == x;
                    assert(before.to[k] == x);
                }
            }
            assert forall|i: int| 0 <= i < round.to.len() implies #[trigger] round.to[i] != me
                && present.contains(round.to[i]) && media_secret(secret, round.to[i]) is Ok && !(
            sent.dom().contains((channel, round.to[i])) && sent[(channel, round.to[i])]
                >= epoch) by {
                if i < before.to.len() {
                    assert(round.to[i] == before.to[i]);
                }
            }
            assert forall|i: int, j: int| 0 <= i < j < round.to.len() implies #[trigger] round.to[i]
                != #[trigger] round.to[j] by {
                if j == before.to.len() {
                    assert(before.to.contains(before.to[i]));
                }
            }
        } else {
            assert(round == before);
            assert(who != me && media_secret(secret, who) is Ok && !(sent.dom().contains(
                (channel, who),
            ) && sent[(channel, who)] >= epoch) ==> before.to.contains(who)) by {
                if who != me && media_secret(secret, who) is Ok && !before.to.contains(who) {
                    assert(!owed(before.sent, channel, who, epoch));
                    assert(before.sent.dom().contains((channel, who)));
                    assert(before.sent[(channel, who)] == sent[(channel, who)]);
                }
            }
        }
        assert forall|i: int|
            0 <= i < present.len() && #[trigger] present[i] != me && media_secret(
                secret,
                present[i],
            ) is Ok && !(sent.dom().contains((channel, present[i])) && sent[(
                channel,
                present[i],
            )] >= epoch) implies round.to.contains(present[i]) by {
            if i < rest.len() {
                assert(rest[i] == present[i]);
                assert(before.to.contains(rest[i]));
            }
        }
    }
}

/// The key of a call goes to those in it and to nobody else: every message names the
/// call's channel and somebody whose state says they are in just that channel, who is
/// not us, and opens for them to that key; and everybody there who can be sealed for and
/// was not sent it gets one.
pub proof fn the_key_goes_to_the_call(
    states: Seq<VoiceState>,
    present: Seq<Seq<char>>,
    sent: Map<(Id, Seq<char>), u32>,
    channel: Id,
    me: Seq<char>,
    epoch: u32,
    key: Seq<u8>,
    secret: Seq<u8>,
    messages: Seq<ClientMessage>,
)
    requires
        present == names_in(states, channel) || present == ordered(names_in(states, channel)),
        hands_over(
            messages,
            handed_round(sent, channel, present, me, epoch, secret).to,
            channel,
            epoch,
            key,
            secret,
        ),
    ensures
        forall|i: int|
            0 <= i < messages.len() ==> match #[trigger] messages[i] {
                ClientMessage::ShareMediaKey { channel_id, to, epoch: at, blob } => {
                    &&& channel_id == channel && at == epoch && to@ != me
                    &&& exists|j: int|
                        0 <= j < states.len() && (#[trigger] states[j]).channel_id == Some(channel)
                            && states[j].user_pubkey@ == to@
                    &&& forall|reader: Seq<u8>| #[trigger]
                        names_secret(to@, reader) ==> opened_blob(
                            blob@,
                            hex_text(public_x(secret)),
                            epoch,
                            reader,
                            to@,
                        ) == Ok::<Seq<u8>, Seq<char>>(key)
                },
                _ => false,
            },
        forall|j: int|
            0 <= j < states.len() && (#[trigger] states[j]).channel_id == Some(channel)
                && states[j].user_pubkey@ != me && media_secret(secret, states[j].user_pubkey@)
                is Ok && !(sent.dom().contains((channel, states[j].user_pubkey@)) && sent[(
                channel,
                states[j].user_pubkey@,
            )] >= epoch) ==> exists|i: int|
                0 <= i < messages.len() && (#[trigger] messages[i])->ShareMediaKey_to@
                    == states[j].user_pubkey@,
        forall|i: int, k: int|
            0 <= i < k < messages.len() ==> (#[trigger] messages[i])->ShareMediaKey_to@ != (
            #[trigger] messages[k])->ShareMediaKey_to@,
{
    let names = names_in(states, channel);
    let to = handed_round(sent, channel, present, me, epoch, secret).to;
    in_the_call_is_in_the_channel(states, channel);
    ordered_is_sorted(names);
    a_round_reaches_everybody(sent, channel, present, me, epoch, secret);
    assert forall|x: Seq<char>| present.contains(x) <==> names.contains(x) by {
        names.to_multiset_ensures();
        ordered(names).to_multiset_ensures();
        assert(names.contains(x) <==> names.to_multiset().count(x) > 0);
        assert(ordered(names).contains(x) <==> ordered(names).to_multiset().count(x) > 0);
    }
    assert forall|i: int| 0 <= i < messages.len() implies match #[trigger] messages[i] {
        ClientMessage::ShareMediaKey { channel_id, to: t, epoch: at, blob } => {
            &&& channel_id == channel && at == epoch && t@ != me
            &&& exists|j: int|
                0 <= j < states.len() && (#[trigger] states[j]).channel_id == Some(channel)
                    && states[j].user_pubkey@ == t@
            &&& forall|reader: Seq<u8>| #[trigger]
                names_secret(t@, reader) ==> opened_blob(
                    blob@,
                    hex_text(public_x(secret)),
                    epoch,
                    reader,
                    t@,
                ) == Ok::<Seq<u8>, Seq<char>>(key)
        },
        _ => false,
    } by {
        assert(handed(messages[i], to[i], channel, epoch, key, secret));
        assert(present.contains(to[i]));
        assert(names.contains(to[i]));
    }
    assert forall|j: int|
        0 <= j < states.len() && (#[trigger] states[j]).channel_id == Some(channel)
            && states[j].user_pubkey@ != me && media_secret(secret, states[j].user_pubkey@) is Ok
            && !(sent.dom().contains((channel, states[j].user_pubkey@)) && sent[(
            channel,
            states[j].user_pubkey@,
        )] >= epoch) implies exists|i: int|
        0 <= i < messages.len() && (#[trigger] messages[i])->ShareMediaKey_to@
            == states[j].user_pubkey@ by {
        let who = states[j].user_pubkey@;
        assert(names.contains(who));
        let k = choose|k: int| 0 <= k < present.len() && present[k] == who;
        assert(to.contains(present[k]));
        let i = choose|i: int| 0 <= i < to.len() && to[i] == who;
        assert(handed(messages[i], to[i], channel, epoch, key, secret));
    }
    assert forall|i: int, k: int| 0 <= i < k < messages.len() implies (
    #[trigger] messages[i])->ShareMediaKey_to@ != (#[trigger] messages[k])->ShareMediaKey_to@ by {
        assert(handed(messages[i], to[i], channel, epoch, key, secret));
        assert(handed(messages[k], to[k], channel, epoch, key, secret));
    }
}

/// Hands a key to everybody present who is still owed it, and records that.
pub fn hand_round(
    ledger: &mut Ledger,
    channel: Id,
    present: &Vec<String>,
    me: &str,
    epoch: u32,
    key: &[u8; 32],
    identity: &Identity,
) -> (r: Vec<ClientMessage>)
    ensures
        ({
            let round = handed_round(
                old(ledger)@,
                channel,
                texts(present@),
                me@,
                epoch,
                identity.key(),
            );
            &&& final(ledger)@ == round.sent
            &&& hands_over(r@, round.to, channel, epoch, key@, identity.key())
        }),
{
    let ghost start = ledger@;
    let ghost views = texts(present@);
    let ghost secret = identity.key();
    let ghost mut to: Seq<Seq<char>> = Seq::empty();
    let mut out: Vec<ClientMessage> = Vec::new();
    let mut i: usize = 0;
    assert(views.take(0) =~= Seq::empty());
    while i < present.len()
        invariant
            i <= present@.len(),
            views == texts(present@),
            secret == identity.key(),
            (Round { sent: ledger@, to }) == handed_round(
                start,
                channel,
                views.take(i as int),
                me@,
                epoch,
                secret,
            ),
            hands_over(out@, to, channel, epoch, key@, secret),
        decreases present@.len() - i,
    {
        let who: &str = present[i].as_str();
        proof {
            assert(views.take(i + 1).drop_last() =~= views.take(i as int));
            assert(views.take(i + 1).last() == who@);
        }
        if !same(who, me) && ledger.should_send(channel, who, epoch) {
            match seal(key, who, epoch, identity) {
                Ok(blob) => {
                    let m: ClientMessage = ClientMessage::ShareMediaKey {
                        channel_id: channel,
                        to: who.to_owned(),
                        epoch,
                        blob,
                    };
                    ledger.mark_sent(channel, who, epoch);
                    assert(handed(m, who@, channel, epoch, key@, secret));
                    out.push(m);
                    proof {
                        to = to.push(who@);
                    }
                },
                Err(_) => {},
            }
        }
        i = i + 1;
    }
    assert(views.take(i as int) =~= views);
    out
}

/// What is to be done about the key of a call we are in.
#[derive(Debug, Clone, Copy, PartialEq, Eq, Structural)]
pub enum KeyStep {
    Nothing,
    /// Hand the key that is held to the others.
    Share,
    /// Make one at once: nobody else is there to have one.
    Make,
    /// Wait for one, and make one if none comes.
    Wait,
}

/// Whether nobody but us is present.
pub open spec fn is_alone(present: Seq<Seq<char>>, me: Seq<char>) -> bool {
    forall|i: int| 0 <= i < present.len() ==> #[trigger] present[i] == me
}

fn alone(present: &Vec<String>, me: &str) -> (r: bool)
    ensures
        r == is_alone(texts(present@), me@),
{
    let mut i: usize = 0;
    while i < present.len()
        invariant
            i <= present@.len(),
            forall|j: int| 0 <= j < i ==> #[trigger] texts(present@)[j] == me@,
        decreases present@.len() - i,
    {
        if !same(present[i].as_str(), me) {
            assert(texts(present@)[i as int] != me@);
            return false;
        }
        i = i + 1;
    }
    true
}

/// Decides about the key of a call: without an identity and a name nothing can be
/// done.
pub fn key_step(has_identity: bool, me: Option<&str>, holds_key: bool, present: &Vec<String>) -> (r:
    KeyStep)
    ensures
        r == step_for(has_identity, opt_str(me), holds_key, texts(present@)),
{
    match me {
        None => KeyStep::Nothing,
        Some(me) => {
            if !has_identity {
                KeyStep::Nothing
            } else if alone(present, me) {
                if holds_key {
                    KeyStep::Nothing
                } else {
                    KeyStep::Make
                }
            } else if holds_key {
                KeyStep::Share
            } else {
                KeyStep::Wait
            }
        },
    }
}

/// Whether a ledger forgot those who are not present in a channel, and nothing else.
pub open spec fn forgot(
    before: Map<(Id, Seq<char>), u32>,
    channel: Id,
    present: Seq<Seq<char>>,
    after: Map<(Id, Seq<char>), u32>,
) -> bool {
    &&& forall|k: (Id, Seq<char>)|
        #![trigger after.dom().contains(k)]
        after.dom().contains(k) <==> before.dom().contains(k) && (k.0 != channel
            || present.contains(k.1))
    &&& forall|k: (Id, Seq<char>)|
        #![trigger after[k]]
        after.dom().contains(k) ==> after[k] == before[k]
}

/// The name we go by in a session.
pub open spec fn own_pubkey(s: AppState) -> Option<Seq<char>> {
    match s.self_user {
        Some(u) => Some(u.pubkey@),
        None => None,
    }
}

/// What is to be done about a key, by what is known.
pub open spec fn step_for(
    has_identity: bool,
    me: Option<Seq<char>>,
    holds_key: bool,
    present: Seq<Seq<char>>,
) -> KeyStep {
    if !has_identity || me is None {
        KeyStep::Nothing
    } else if is_alone(present, me->Some_0) {
        if holds_key {
            KeyStep::Nothing
        } else {
            KeyStep::Make
        }
    } else if holds_key {
        KeyStep::Share
    } else {
        KeyStep::Wait
    }
}

/// Follows a change of who is in our call: what was sent to those who left is
/// forgotten, and a key that is held is handed to the others.
pub fn on_roster(s: &AppState, ledger: &mut Ledger) -> (r: (KeyStep, Vec<ClientMessage>))
    ensures
        match s.voice.channel_id {
            None => r.0 == KeyStep::Nothing && r.1@.len() == 0 && final(ledger)@ == old(ledger)@,
            Some(channel) => {
                let present = ordered(names_in(s.voice_states@, channel));
                let me = own_pubkey(*s);
                &&& r.0 == step_for(
                    s.identity is Some,
                    me,
                    s.media_keys@.dom().contains(channel),
                    present,
                )
                &&& s.identity is None || me is None ==> r.1@.len() == 0 && final(ledger)@ == old(
                    ledger,
                )@
                &&& s.identity is Some && me is Some ==> exists|kept: Map<(Id, Seq<char>), u32>|
                    #[trigger]
                    forgot(old(ledger)@, channel, present, kept) && if r.0 == KeyStep::Share {
                        let held = s.media_keys@[channel];
                        let secret = s.identity->Some_0.key();
                        let round = handed_round(
                            kept,
                            channel,
                            present,
                            me->Some_0,
                            held.0,
                            secret,
                        );
                        final(ledger)@ == round.sent && hands_over(
                            r.1@,
                            round.to,
                            channel,
                            held.0,
                            held.1@,
                            secret,
                        )
                    } else {
                        final(ledger)@ == kept && r.1@.len() == 0
                    }
            },
        },
        forall|i: int|
            0 <= i < r.1@.len() ==> match #[trigger] r.1@[i] {
                ClientMessage::ShareMediaKey { channel_id, to, .. } => s.voice.channel_id == Some(
                    channel_id,
                ) && s.self_user is Some && to@ != s.self_user->Some_0.pubkey@ && exists|j: int|
                    0 <= j < s.voice_states@.len() && (#[trigger] s.voice_states@[j]).channel_id
                        == Some(channel_id) && s.voice_states@[j].user_pubkey@ == to@,
                _ => false,
            },
{
    let channel: Id = match s.voice.channel_id {
        Some(channel) => channel,
        None => {
            return (KeyStep::Nothing, Vec::new());
        },
    };
    let (identity, user): (&Identity, &User) = match (&s.identity, &s.self_user) {
        (Some(identity), Some(user)) => (identity, user),
        _ => {
            return (KeyStep::Nothing, Vec::new());
        },
    };
    let me: &str = user.pubkey.as_str();
    let present: Vec<String> = in_order(&present_in(s, channel));
    let ghost before = ledger@;
    ledger.forget_absent(channel, &present);
    let ghost kept = ledger@;
    proof {
        assert forall|who: Seq<char>| texts(present@).contains(who) <==> is_present(
            present@,
            who,
        ) by {
            if texts(present@).contains(who) {
                let i = choose|i: int|
                    0 <= i < texts(present@).len() && texts(present@)[i] == who;
                assert(present@[i]@ == who);
            }
            if is_present(present@, who) {
                let i = choose|i: int| 0 <= i < present@.len() && (#[trigger] present@[i])@ == who;
                assert(texts(present@)[i] == who);
            }
        }
        assert(forgot(before, channel, texts(present@), kept));
    }
    let held: Option<(u32, [u8; 32])> = match s.media_keys.get(channel) {
        Some(h) => Some((h.0, h.1)),
        None => None,
    };
    let step: KeyStep = key_step(true, Some(me), held.is_some(), &present);
    match (step, held) {
        (KeyStep::Share, Some((epoch, key))) => {
            let messages: Vec<ClientMessage> = hand_round(
                ledger,
                channel,
                &present,
                me,
                epoch,
                &key,
                identity,
            );
            proof {
                the_key_goes_to_the_call(
                    s.voice_states@,
                    texts(present@),
                    kept,
                    channel,
                    me@,
                    epoch,
                    key@,
                    identity.key(),
                    messages@,
                );
            }
            (step, messages)
        },
        _ => (step, Vec::new()),
    }
}

/// Whether a key was kept as the first of a call and handed to everybody present.
pub open spec fn first_kept(
    o: AppState,
    sent: Map<(Id, Seq<char>), u32>,
    channel: Id,
    me: Seq<char>,
    secret: Seq<u8>,
    key: [u8; 32],
    n: AppState,
    sent2: Map<(Id, Seq<char>), u32>,
    messages: Seq<ClientMessage>,
) -> bool {
    let round = handed_round(sent, channel, names_in(o.voice_states@, channel), me, 1, secret);
    &&& n == (AppState { media_keys: n.media_keys, ..o })
    &&& n.media_keys@ == o.media_keys@.insert(channel, (1u32, key))
    &&& sent2 == round.sent
    &&& hands_over(messages, round.to, channel, 1, key@, secret)
}

/// Keeps a key as the first of a call, in place of any other, and hands it to everybody
/// present.
pub fn keep_first_key(
    s: &mut AppState,
    ledger: &mut Ledger,
    channel: Id,
    me: &str,
    identity: &Identity,
    key: &[u8; 32],
) -> (r: Vec<ClientMessage>)
    ensures
        first_kept(
            *old(s),
            old(ledger)@,
            channel,
            me@,
            identity.key(),
            *key,
            *final(s),
            final(ledger)@,
            r@,
        ),
        forall|i: int|
            0 <= i < r@.len() ==> match #[trigger] r@[i] {
                ClientMessage::ShareMediaKey { channel_id, to, .. } => channel_id == channel && exists|j: int|
                    0 <= j < old(s).voice_states@.len() && (#[trigger] old(s).voice_states@[j]).channel_id
                        == Some(channel_id) && old(s).voice_states@[j].user_pubkey@ == to@,
                _ => false,
            },
{
    let present: Vec<String> = present_in(s, channel);
    s.media_keys.insert(channel, (1, *key));
    let messages: Vec<ClientMessage> = hand_round(ledger, channel, &present, me, 1, key, identity);
    proof {
        the_key_goes_to_the_call(
            old(s).voice_states@,
            texts(present@),
            old(ledger)@,
            channel,
            me@,
            1,
            key@,
            identity.key(),
            messages@,
        );
    }
    messages
}

/// Makes the first key of a call, keeps it, and hands it to everybody present. It is
/// given back to be used. After a wait for others nothing is made where one has come
/// meanwhile; alone in the call, where nobody was waited for, one is made at once.
pub fn make_first_key(
    s: &mut AppState,
    ledger: &mut Ledger,
    channel: Id,
    me: &str,
    identity: &Identity,
    waited: bool,
) -> (r: Option<(Vec<ClientMessage>, [u8; 32])>)
    ensures
        r is None <==> waited && old(s).media_keys@.dom().contains(channel),
        r is None ==> *final(s) == *old(s) && final(ledger)@ == old(ledger)@,
        r is Some ==> first_kept(
            *old(s),
            old(ledger)@,
            channel,
            me@,
            identity.key(),
            r->Some_0.1,
            *final(s),
            final(ledger)@,
            r->Some_0.0@,
        ),
        r is Some ==> forall|i: int|
            0 <= i < r->Some_0.0@.len() ==> match #[trigger] r->Some_0.0@[i] {
                ClientMessage::ShareMediaKey { channel_id, to, .. } => channel_id == channel && exists|j: int|
                    0 <= j < old(s).voice_states@.len() && (#[trigger] old(s).voice_states@[j]).channel_id
                        == Some(channel_id) && old(s).voice_states@[j].user_pubkey@ == to@,
                _ => false,
            },
{
    if waited && s.media_keys.contains(channel) {
        return None;
    }
    let key: [u8; 32] = generate();
    let messages: Vec<ClientMessage> = keep_first_key(s, ledger, channel, me, identity, &key);
    Some((messages, key))
}

/// Whether we answer for a call's next key: we are in it with a key, and the least
/// name present is ours.
pub open spec fn must_rekey(s: AppState) -> bool {
    &&& s.voice.channel_id is Some
    &&& s.identity is Some
    &&& s.self_user is Some
    &&& s.media_keys@.dom().contains(s.voice.channel_id->Some_0)
    &&& answers_for_names(
        names_in(s.voice_states@, s.voice.channel_id->Some_0),
        s.self_user->Some_0.pubkey@,
    )
}

/// Whether a name is the least of those present.
pub open spec fn answers_for_names(present: Seq<Seq<char>>, who: Seq<char>) -> bool {
    present.contains(who) && forall|i: int|
        0 <= i < present.len() ==> !text_lt(#[trigger] present[i], who)
}

fn we_answer(present: &Vec<String>, me: &str) -> (r: bool)
    ensures
        r == answers_for_names(texts(present@), me@),
{
    let ghost views = texts(present@);
    match designated(present) {
        None => {
            assert(present@.len() == 0);
            assert(!views.contains(me@));
            false
        },
        Some(who) => {
            let r: bool = same(who, me);
            proof {
                let k = choose|k: int| 0 <= k < present@.len() && (#[trigger] present@[k])@ == who@;
                assert(views[k] == who@);
                assert forall|i: int| 0 <= i < views.len() implies !text_lt(
                    #[trigger] views[i],
                    who@,
                ) by {
                    assert(!text_lt(present@[i]@, who@));
                }
                if !r && answers_for_names(views, me@) {
                    let j = choose|j: int| 0 <= j < views.len() && views[j] == me@;
                    assert(!text_lt(views[k], me@));
                    assert(!text_lt(views[j], who@));
                    text_lt_total(who@, me@);
                }
            }
            r
        },
    }
}

/// An epoch one later, unless it can go no later.
pub open spec fn next_epoch(epoch: u32) -> u32 {
    if epoch == u32::MAX {
        epoch
    } else {
        (epoch + 1) as u32
    }
}

/// Whether a key was kept as the next of our call and handed to everybody present.
pub open spec fn rekeyed(
    o: AppState,
    sent: Map<(Id, Seq<char>), u32>,
    key: [u8; 32],
    n: AppState,
    sent2: Map<(Id, Seq<char>), u32>,
    messages: Seq<ClientMessage>,
    epoch: u32,
) -> bool {
    let channel = o.voice.channel_id->Some_0;
    let secret = o.identity->Some_0.key();
    let round = handed_round(
        sent,
        channel,
        names_in(o.voice_states@, channel),
        o.self_user->Some_0.pubkey@,
        epoch,
        secret,
    );
    &&& epoch == next_epoch(o.media_keys@[channel].0)
    &&& n == (AppState { media_keys: n.media_keys, ..o })
    &&& n.media_keys@ == o.media_keys@.insert(channel, (epoch, key))
    &&& sent2 == round.sent
    &&& hands_over(messages, round.to, channel, epoch, key@, secret)
}

/// Takes up a new key for our call, if that is ours to do: it is kept under the next
/// epoch and handed to everybody present.
pub fn rekey_with(s: &mut AppState, ledger: &mut Ledger, key: &[u8; 32]) -> (r: Option<
    (Vec<ClientMessage>, u32),
>)
    ensures
        r is Some <==> must_rekey(*old(s)),
        r is None ==> *final(s) == *old(s) && final(ledger)@ == old(ledger)@,
        r is Some ==> rekeyed(
            *old(s),
            old(ledger)@,
            *key,
            *final(s),
            final(ledger)@,
            r->Some_0.0@,
            r->Some_0.1,
        ),
        r is Some ==> forall|i: int|
            0 <= i < r->Some_0.0@.len() ==> match #[trigger] r->Some_0.0@[i] {
                ClientMessage::ShareMediaKey { channel_id, to, .. } => old(s).voice.channel_id == Some(channel_id) && exists|j: int|
                    0 <= j < old(s).voice_states@.len() && (#[trigger] old(s).voice_states@[j]).channel_id
                        == Some(channel_id) && old(s).voice_states@[j].user_pubkey@ == to@,
                _ => false,
            },
{
    let channel: Id = match s.voice.channel_id {
        Some(channel) => channel,
        None => {
            return None;
        },
    };
    let held: u32 = match s.media_keys.get(channel) {
        Some(h) => h.0,
        None => {
            return None;
        },
    };
    let epoch: u32 = if held == u32::MAX {
        held
    } else {
        held + 1
    };
    let present: Vec<String> = present_in(s, channel);
    let messages: Vec<ClientMessage> = match (&s.identity, &s.self_user) {
        (Some(identity), Some(user)) => {
            if !we_answer(&present, user.pubkey.as_str()) {
                return None;
            }
            let messages: Vec<ClientMessage> = hand_round(
                ledger,
                channel,
                &present,
                user.pubkey.as_str(),
                epoch,
                key,
                identity,
            );
            proof {
                the_key_goes_to_the_call(
                    old(s).voice_states@,
                    texts(present@),
                    old(ledger)@,
                    channel,
                    user.pubkey@,
                    epoch,
                    key@,
                    identity.key(),
                    messages@,
                );
            }
            messages
        },
        _ => {
            return None;
        },
    };
    s.media_keys.insert(channel, (epoch, *key));
    Some((messages, epoch))
}

/// Makes a new key for a call after somebody was removed from it, if that is ours
/// to do: it is kept, handed to everybody present, and given back to be used.
pub fn rekey_after_removal(s: &mut AppState, ledger: &mut Ledger) -> (r: Option<
    (Vec<ClientMessage>, [u8; 32], u32),
>)
    ensures
        r is Some <==> must_rekey(*old(s)),
        r is None ==> *final(s) == *old(s) && final(ledger)@ == old(ledger)@,
        r is Some ==> rekeyed(
            *old(s),
            old(ledger)@,
            r->Some_0.1,
            *final(s),
            final(ledger)@,
            r->Some_0.0@,
            r->Some_0.2,
        ),
        r is Some ==> forall|i: int|
            0 <= i < r->Some_0.0@.len() ==> match #[trigger] r->Some_0.0@[i] {
                ClientMessage::ShareMediaKey { channel_id, to, .. } => old(s).voice.channel_id == Some(channel_id) && exists|j: int|
                    0 <= j < old(s).voice_states@.len() && (#[trigger] old(s).voice_states@[j]).channel_id
                        == Some(channel_id) && old(s).voice_states@[j].user_pubkey@ == to@,
                _ => false,
            },
{
    let key: [u8; 32] = generate();
    match rekey_with(s, ledger, &key) {
        Some((messages, epoch)) => Some((messages, key, epoch)),
        None => None,
    }
}

/// Nobody is sent a key of the same epoch twice in a row: after a round, only those
/// are owed for whom none could be sealed, and we ourselves.
pub proof fn round_settles(
    sent: Map<(Id, Seq<char>), u32>,
    channel: Id,
    present: Seq<Seq<char>>,
    me: Seq<char>,
    epoch: u32,
    secret: Seq<u8>,
)
    ensures
        ({
            let round = handed_round(sent, channel, present, me, epoch, secret);
            &&& forall|i: int|
                0 <= i < present.len() && #[trigger] present[i] != me && media_secret(
                    secret,
                    present[i],
                ) is Ok ==> !owed(round.sent, channel, present[i], epoch)
            &&& forall|k: (Id, Seq<char>)|
                sent.dom().contains(k) ==> #[trigger] round.sent.dom().contains(k)
                    && round.sent[k] >= sent[k]
        }),
    decreases present.len(),
{
    if present.len() > 0 {
        let rest = present.drop_last();
        round_settles(sent, channel, rest, me, epoch, secret);
        let before = handed_round(sent, channel, rest, me, epoch, secret);
        let round = handed_round(sent, channel, present, me, epoch, secret);
        assert forall|k: (Id, Seq<char>)| sent.dom().contains(k) implies #[trigger]
            round.sent.dom().contains(k) && round.sent[k] >= sent[k] by {
            assert(before.sent.dom().contains(k));
        }
        assert forall|i: int|
            0 <= i < present.len() && #[trigger] present[i] != me && media_secret(
                secret,
                present[i],
            ) is Ok implies !owed(round.sent, channel, present[i], epoch) by {
            if i < rest.len() {
                assert(rest[i] == present[i]);
                assert(!owed(before.sent, channel, rest[i], epoch));
            }
        }
    }
}

} // verus!
