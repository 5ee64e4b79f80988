//! What holds of a session, whatever the gateway says.

use crate::gateway::{
    Effect, applied, by_pubkey, channel_elsewhere, channel_is, channel_not, channels_added,
    emoji_guild, entry_is, fetched_new, guild_channels, guild_is, guild_not, images_with,
    is_emoji, join_request, member_elsewhere, member_put, members_put, message_not, other_than,
    own_voice, requests_left, role_guild, same_member, stored, superseding, voice_elsewhere,
    voice_listed, voice_of, voice_updated,
};
use crate::list::{
    any_where, first_where, grouped, list_at, lists, put_found, put_missing, without_found,
    without_missing,
};
use crate::mediakey::opened_blob;
use crate::protocol::{
    CatalogEntry, Channel, ChannelKind, ClientMessage, EmojiBlob, Guild, GuildEmoji, Id, JoinGate,
    Member, Message, Profile, Reaction, Role, ServerMessage, User, VoiceCmd, VoiceState,
};
use crate::state::{
    AppState, ConnectionStatus, VoicePhase, default_channel, dm_is, message_is, sorting_keeps_ids,
    time_sorted, time_sorted_facts, with_missing,
};
use crate::table::as_map;
use crate::text::text_lt;
use vstd::prelude::*;

verus! {

/// One list of many was replaced, and no other.
proof fn one_list_changed<T>(o: Map<Id, Vec<T>>, n: Map<Id, Vec<T>>, k: Id, x: Seq<T>)
    requires
        lists(n) == lists(o).insert(k, x),
    ensures
        n.dom().contains(k) && n[k]@ == x,
        forall|c: Id| c != k ==> (#[trigger] n.dom().contains(c) <==> o.dom().contains(c)),
        forall|c: Id| c != k && #[trigger] o.dom().contains(c) ==> n[c]@ == o[c]@,
        o.dom().contains(k) ==> list_at(lists(o), k) == o[k]@,
        !o.dom().contains(k) ==> list_at(lists(o), k) == Seq::<T>::empty(),
{
    assert(lists(n).dom().contains(k) && lists(n)[k] == x);
    assert forall|c: Id| c != k implies (#[trigger] n.dom().contains(c) <==> o.dom().contains(
        c,
    )) by {
        assert(lists(n).dom().contains(c) <==> lists(o).dom().contains(c));
    }
    assert forall|c: Id| c != k && #[trigger] o.dom().contains(c) implies n[c]@ == o[c]@ by {
        assert(lists(n).dom().contains(c) && lists(n)[c] == lists(o)[c]);
    }
}

/// Where some item meets a condition, one does first.
proof fn a_first_one<T>(s: Seq<T>, p: spec_fn(T) -> bool) -> (i: int)
    requires
        any_where(s, p),
    ensures
        first_where(s, p, i),
    decreases s.len(),
{
    if p(s[0]) {
        0
    } else {
        let t = s.drop_first();
        let k = choose|k: int| 0 <= k < s.len() && p(#[trigger] s[k]);
        assert(p(t[k - 1]));
        let j = a_first_one(t, p);
        assert forall|m: int| 0 <= m < j + 1 implies !p(#[trigger] s[m]) by {
            if m > 0 {
                assert(!p(t[m - 1]));
            }
        }
        j + 1
    }
}

/// A message that arrives is added behind everything its channel held, which stays as it
/// was and in its order. No other channel changes.
pub proof fn a_new_message_is_added(o: AppState, m: Message, now: u64, n: AppState, e: Seq<Effect>)
    requires
        applied(o, ServerMessage::MessageCreate(m), now, n, e),
    ensures
        n.messages@.dom().contains(m.channel_id),
        o.messages@.dom().contains(m.channel_id) ==> {
            let was = o.messages@[m.channel_id]@;
            let is = n.messages@[m.channel_id]@;
            &&& is.len() == was.len() + 1
            &&& is[was.len() as int] == m
            &&& forall|i: int| 0 <= i < was.len() ==> #[trigger] is[i] == was[i]
        },
        !o.messages@.dom().contains(m.channel_id) ==> n.messages@[m.channel_id]@.len() == 1
            && n.messages@[m.channel_id]@[0] == m,
        forall|c: Id|
            c != m.channel_id ==> (#[trigger] n.messages@.dom().contains(c)
                <==> o.messages@.dom().contains(c)),
        forall|c: Id|
            c != m.channel_id && #[trigger] o.messages@.dom().contains(c) ==> n.messages@[c]@
                == o.messages@[c]@,
        m.image is Some <==> e.len() > 0,
        n.channels == o.channels && n.guilds == o.guilds && n.members == o.members,
        n.selected_channel == o.selected_channel && n.selected_guild == o.selected_guild,
{
    one_list_changed(
        o.messages@,
        n.messages@,
        m.channel_id,
        list_at(lists(o.messages@), m.channel_id).push(m),
    );
}

/// Two messages that arrive one after the other in a channel stand there one after the
/// other, behind what was there.
pub proof fn two_messages_stand_in_order(
    o: AppState,
    m1: Message,
    now1: u64,
    n1: AppState,
    e1: Seq<Effect>,
    m2: Message,
    now2: u64,
    n2: AppState,
    e2: Seq<Effect>,
)
    requires
        applied(o, ServerMessage::MessageCreate(m1), now1, n1, e1),
        applied(n1, ServerMessage::MessageCreate(m2), now2, n2, e2),
        m1.channel_id == m2.channel_id,
    ensures
        n2.messages@.dom().contains(m1.channel_id),
        ({
            let is = n2.messages@[m1.channel_id]@;
            &&& is.len() >= 2
            &&& is[is.len() - 2] == m1
            &&& is[is.len() - 1] == m2
            &&& o.messages@.dom().contains(m1.channel_id) ==> is.take(is.len() - 2)
                == o.messages@[m1.channel_id]@
        }),
{
    a_new_message_is_added(o, m1, now1, n1, e1);
    a_new_message_is_added(n1, m2, now2, n2, e2);
    let is = n2.messages@[m1.channel_id]@;
    if o.messages@.dom().contains(m1.channel_id) {
        let was = o.messages@[m1.channel_id]@;
        let mid = n1.messages@[m1.channel_id]@;
        assert forall|i: int| 0 <= i < was.len() implies is[i] == was[i] by {
            assert(mid[i] == was[i]);
            assert(is[i] == mid[i]);
        }
        assert(is.take(is.len() - 2) =~= was);
    }
}

/// Whether a channel of some guild has an identifier.
pub open spec fn is_channel(s: AppState, c: Id) -> bool {
    exists|i: int| 0 <= i < s.channels@.len() && (#[trigger] s.channels@[i]).id == c
}

/// What somebody else says where we are not looking rings once; what we say ourselves
/// and what we see does not. In a conversation it counts as one more that is unread, and
/// nowhere else. Who said something no longer types there.
pub proof fn what_is_not_seen_is_counted(
    o: AppState,
    m: Message,
    now: u64,
    n: AppState,
    e: Seq<Effect>,
)
    requires
        applied(o, ServerMessage::MessageCreate(m), now, n, e),
    ensures
        ({
            let ours = o.self_user matches Some(u) && u.pubkey@ == m.author.pubkey@;
            let dm = !is_channel(o, m.channel_id);
            let seen = o.selected_channel == Some(m.channel_id) && o.dm_mode == dm;
            let c = m.channel_id;
            &&& ours || seen ==> n.notify_tick == o.notify_tick && n.dm_unread@ == o.dm_unread@
            &&& !ours && !seen && o.notify_tick < u64::MAX ==> n.notify_tick == o.notify_tick + 1
            &&& !dm ==> n.dm_unread@ == o.dm_unread@ && n.dms@ == o.dms@
            &&& dm && !ours && !seen ==> {
                &&& n.dm_unread@.dom().contains(c)
                &&& !o.dm_unread@.dom().contains(c) ==> n.dm_unread@[c] == 1
                &&& o.dm_unread@.dom().contains(c) && o.dm_unread@[c] < u64::MAX
                    ==> n.dm_unread@[c] == o.dm_unread@[c] + 1
            }
            &&& forall|k: Id|
                k != c ==> (#[trigger] n.dm_unread@.dom().contains(k)
                    <==> o.dm_unread@.dom().contains(k))
            &&& forall|k: Id|
                k != c && #[trigger] o.dm_unread@.dom().contains(k) ==> n.dm_unread@[k]
                    == o.dm_unread@[k]
            &&& dm ==> exists|i: int|
                0 <= i < n.dms@.len() && (#[trigger] n.dms@[i]).channel_id == c
            &&& n.dms@.len() >= o.dms@.len()
            &&& forall|i: int| 0 <= i < o.dms@.len() ==> #[trigger] n.dms@[i] == o.dms@[i]
            &&& n.typing@.dom().contains(c) ==> !n.typing@[c]@.dom().contains(m.author.pubkey@)
            &&& forall|who: Seq<char>|
                o.typing@.dom().contains(c) && who != m.author.pubkey@
                    && #[trigger] o.typing@[c]@.dom().contains(who) ==> n.typing@.dom().contains(c)
                    && n.typing@[c]@.dom().contains(who)
            &&& forall|k: Id|
                k != c && #[trigger] o.typing@.dom().contains(k) ==> n.typing@.dom().contains(k)
                    && n.typing@[k] == o.typing@[k]
        }),
{
    let c = m.channel_id;
    assert(any_where(o.channels@, channel_is(c)) == is_channel(o, c)) by {
        if any_where(o.channels@, channel_is(c)) {
            let i = choose|i: int| 0 <= i < o.channels@.len() && channel_is(c)(
                #[trigger] o.channels@[i],
            );
            assert(o.channels@[i].id == c);
        }
        if is_channel(o, c) {
            let i = choose|i: int| 0 <= i < o.channels@.len() && (#[trigger] o.channels@[i]).id == c;
            assert(channel_is(c)(o.channels@[i]));
        }
    }
    if !is_channel(o, c) {
        if any_where(o.dms@, dm_is(c)) {
            let i = choose|i: int| 0 <= i < o.dms@.len() && dm_is(c)(#[trigger] o.dms@[i]);
            assert(n.dms@[i].channel_id == c);
        } else {
            assert(n.dms@[o.dms@.len() as int].channel_id == c);
        }
    }
}

proof fn with_missing_facts(held: Seq<Message>, fetched: Seq<Message>)
    ensures
        with_missing(held, fetched).len() >= held.len(),
        with_missing(held, fetched).take(held.len() as int) == held,
        forall|i: int|
            0 <= i < fetched.len() ==> any_where(
                with_missing(held, fetched),
                message_is((#[trigger] fetched[i]).id),
            ),
        forall|k: int|
            held.len() <= k < with_missing(held, fetched).len() ==> fetched.contains(
                #[trigger] with_missing(held, fetched)[k],
            ),
        forall|k: int, j: int|
            held.len() <= k < with_missing(held, fetched).len() && 0 <= j < k ==> (
            #[trigger] with_missing(held, fetched)[k]).id != (#[trigger] with_missing(
                held,
                fetched,
            )[j]).id,
    decreases fetched.len(),
{
    if fetched.len() == 0 {
        assert(held.take(held.len() as int) =~= held);
    } else {
        let rest = fetched.drop_last();
        let before = with_missing(held, rest);
        let all = with_missing(held, fetched);
        let last = fetched.last();
        with_missing_facts(held, rest);
        assert(all.take(held.len() as int) =~= before.take(held.len() as int));
        assert forall|i: int| 0 <= i < fetched.len() implies any_where(
            all,
            message_is((#[trigger] fetched[i]).id),
        ) by {
            let id = fetched[i].id;
            if i < rest.len() {
                assert(rest[i] == fetched[i]);
                let k = choose|k: int| 0 <= k < before.len() && message_is(id)(
                    #[trigger] before[k],
                );
                assert(message_is(id)(all[k]));
            } else if any_where(before, message_is(id)) {
                let k = choose|k: int| 0 <= k < before.len() && message_is(id)(
                    #[trigger] before[k],
                );
                assert(message_is(id)(all[k]));
            } else {
                assert(message_is(id)(all[before.len() as int]));
            }
        }
        assert forall|k: int| held.len() <= k < all.len() implies fetched.contains(
            #[trigger] all[k],
        ) by {
            if k < before.len() {
                assert(all[k] == before[k]);
                let j = choose|j: int| 0 <= j < rest.len() && rest[j] == before[k];
                assert(fetched[j] == all[k]);
            } else {
                assert(fetched[fetched.len() - 1] == all[k]);
            }
        }
        assert forall|k: int, j: int| held.len() <= k < all.len() && 0 <= j < k implies (
        #[trigger] all[k]).id != (#[trigger] all[j]).id by {
            if k < before.len() {
                assert(all[k] == before[k] && all[j] == before[j]);
            } else {
                assert(!message_is(last.id)(before[j]));
            }
        }
    }
}

/// Messages of the past are added to those that are held: none is lost, every one that
/// arrived is there by its identifier, nothing else is, what was held is kept as it was,
/// and all of it stands in order of time. Other channels stay as they are.
pub proof fn history_is_merged(
    o: AppState,
    channel_id: Id,
    messages: Vec<Message>,
    now: u64,
    n: AppState,
    e: Seq<Effect>,
)
    requires
        applied(o, ServerMessage::MessageHistory { channel_id, messages }, now, n, e),
    ensures
        n.messages@.dom().contains(channel_id),
        ({
            let is = n.messages@[channel_id]@;
            &&& forall|i: int, j: int|
                0 <= i < j < is.len() ==> (#[trigger] is[i]).created_at <= (
                #[trigger] is[j]).created_at
            &&& o.messages@.dom().contains(channel_id) ==> forall|i: int|
                0 <= i < o.messages@[channel_id]@.len() ==> is.contains(
                    #[trigger] o.messages@[channel_id]@[i],
                )
            &&& forall|i: int|
                0 <= i < messages@.len() ==> exists|k: int|
                    0 <= k < is.len() && (#[trigger] is[k]).id == (#[trigger] messages@[i]).id
            &&& forall|k: int|
                0 <= k < is.len() ==> messages@.contains(#[trigger] is[k]) || (
                o.messages@.dom().contains(channel_id) && o.messages@[channel_id]@.contains(is[k]))
        }),
        forall|c: Id|
            c != channel_id ==> (#[trigger] n.messages@.dom().contains(c)
                <==> o.messages@.dom().contains(c)),
        forall|c: Id|
            c != channel_id && #[trigger] o.messages@.dom().contains(c) ==> n.messages@[c]@
                == o.messages@[c]@,
        n == (AppState { messages: n.messages, ..o }),
{
    let held = list_at(lists(o.messages@), channel_id);
    let all = with_missing(held, messages@);
    let is = time_sorted(all);
    one_list_changed(o.messages@, n.messages@, channel_id, is);
    with_missing_facts(held, messages@);
    time_sorted_facts(all);
    sorting_keeps_ids(all);
    all.to_multiset_ensures();
    is.to_multiset_ensures();
    assert forall|i: int| 0 <= i < held.len() implies is.contains(#[trigger] held[i]) by {
        assert(all.take(held.len() as int)[i] == held[i]);
        assert(all[i] == held[i]);
        assert(all.contains(held[i]));
        assert(is.to_multiset().count(held[i]) > 0);
    }
    assert forall|i: int| 0 <= i < messages@.len() implies exists|k: int|
        0 <= k < is.len() && (#[trigger] is[k]).id == (#[trigger] messages@[i]).id by {
        let id = messages@[i].id;
        let k = choose|k: int| 0 <= k < all.len() && message_is(id)(#[trigger] all[k]);
        assert(all.contains(all[k]));
        assert(is.to_multiset().count(all[k]) > 0);
        let j = choose|j: int| 0 <= j < is.len() && is[j] == all[k];
        assert(is[j].id == id);
    }
    assert forall|k: int| 0 <= k < is.len() implies messages@.contains(#[trigger] is[k]) || (
    o.messages@.dom().contains(channel_id) && o.messages@[channel_id]@.contains(is[k])) by {
        let j = choose|j: int| 0 <= j < all.len() && all[j] == is[k];
        if j < held.len() {
            assert(all.take(held.len() as int)[j] == held[j]);
        }
    }
}

/// A message that was deleted is gone from its channel, and nothing else is: the others
/// stay, in their order, and so do all other channels.
pub proof fn a_deleted_message_is_gone(
    o: AppState,
    channel_id: Id,
    message_id: Id,
    now: u64,
    n: AppState,
    e: Seq<Effect>,
)
    requires
        applied(o, ServerMessage::MessageDelete { channel_id, message_id }, now, n, e),
    ensures
        n == (AppState { messages: n.messages, ..o }) && e.len() == 0,
        forall|c: Id| #[trigger]
            n.messages@.dom().contains(c) <==> o.messages@.dom().contains(c),
        forall|c: Id|
            c != channel_id && #[trigger] o.messages@.dom().contains(c) ==> n.messages@[c]@
                == o.messages@[c]@,
        o.messages@.dom().contains(channel_id) ==> {
            let was = o.messages@[channel_id]@;
            let is = n.messages@[channel_id]@;
            &&& is == was.filter(|m: Message| m.id != message_id)
            &&& forall|i: int| 0 <= i < is.len() ==> (#[trigger] is[i]).id != message_id
            &&& forall|i: int|
                0 <= i < was.len() && (#[trigger] was[i]).id != message_id ==> is.contains(was[i])
        },
{
    if o.messages@.dom().contains(channel_id) {
        let was = o.messages@[channel_id]@;
        let p = message_not(message_id);
        let q = |m: Message| m.id != message_id;
        assert(p =~= q);
        one_list_changed(o.messages@, n.messages@, channel_id, was.filter(p));
        let is = n.messages@[channel_id]@;
        assert forall|i: int| 0 <= i < is.len() implies (#[trigger] is[i]).id != message_id by {
            was.lemma_filter_pred(p, i);
        }
        assert forall|i: int| 0 <= i < was.len() && (#[trigger] was[i]).id != message_id implies
            is.contains(was[i]) by {
            was.filter_lemma(p);
        }
    } else {
        assert forall|c: Id| #[trigger] n.messages@.dom().contains(c)
            <==> o.messages@.dom().contains(c) by {
            assert(lists(n.messages@).dom().contains(c) <==> lists(o.messages@).dom().contains(c));
        }
        assert forall|c: Id| #[trigger] o.messages@.dom().contains(c) implies n.messages@[c]@
            == o.messages@[c]@ by {
            assert(lists(n.messages@)[c] == lists(o.messages@)[c]);
        }
    }
}

/// The reactions of a message are what the gateway says, and nothing else of it
/// changes, nor any other message.
pub proof fn reactions_are_replaced(
    o: AppState,
    channel_id: Id,
    message_id: Id,
    reactions: Vec<Reaction>,
    now: u64,
    n: AppState,
    e: Seq<Effect>,
)
    requires
        applied(o, ServerMessage::ReactionUpdate { channel_id, message_id, reactions }, now, n, e),
    ensures
        n == (AppState { messages: n.messages, ..o }) && e.len() == 0,
        forall|c: Id| #[trigger]
            n.messages@.dom().contains(c) <==> o.messages@.dom().contains(c),
        forall|c: Id|
            c != channel_id && #[trigger] o.messages@.dom().contains(c) ==> n.messages@[c]
                == o.messages@[c],
        o.messages@.dom().contains(channel_id) ==> {
            let was = o.messages@[channel_id]@;
            let is = n.messages@[channel_id]@;
            &&& is.len() == was.len()
            &&& forall|i: int|
                0 <= i < was.len() && (#[trigger] was[i]).id != message_id ==> is[i] == was[i]
            &&& forall|i: int|
                0 <= i < was.len() ==> (#[trigger] is[i]).id == was[i].id && is[i].content
                    == was[i].content && is[i].author == was[i].author && is[i].created_at
                    == was[i].created_at && is[i].image == was[i].image && is[i].reply_to
                    == was[i].reply_to && is[i].channel_id == was[i].channel_id
            &&& (exists|i: int| 0 <= i < was.len() && (#[trigger] was[i]).id == message_id)
                ==> exists|i: int|
                0 <= i < is.len() && (#[trigger] is[i]).id == message_id && is[i].reactions
                    == reactions
        },
{
    if o.messages@.dom().contains(channel_id) {
        let was = o.messages@[channel_id]@;
        let is = n.messages@[channel_id]@;
        let p = message_is(message_id);
        if any_where(was, p) {
            let i = a_first_one(was, p);
            assert(is == was.update(i, Message { reactions, ..was[i] }));
            assert(is[i].id == message_id && is[i].reactions == reactions);
        } else {
            assert forall|i: int| 0 <= i < was.len() implies (#[trigger] was[i]).id
                != message_id by {
                assert(!p(was[i]));
            }
        }
    }
}

/// Who types is shown as typing in that channel, by that name and from now; everybody
/// who types elsewhere, or there, still does.
pub proof fn who_types_is_shown(
    o: AppState,
    channel_id: Id,
    user_pubkey: String,
    username: String,
    now: u64,
    n: AppState,
    e: Seq<Effect>,
)
    requires
        applied(o, ServerMessage::TypingUpdate { channel_id, user_pubkey, username }, now, n, e),
    ensures
        n == (AppState { typing: n.typing, ..o }) && e.len() == 0,
        n.typing@.dom().contains(channel_id),
        n.typing@[channel_id]@.dom().contains(user_pubkey@),
        n.typing@[channel_id]@[user_pubkey@] == (username, now),
        forall|c: Id|
            c != channel_id && #[trigger] o.typing@.dom().contains(c) ==> n.typing@.dom().contains(c)
                && n.typing@[c] == o.typing@[c],
        forall|who: Seq<char>|
            who != user_pubkey@ && o.typing@.dom().contains(channel_id)
                && #[trigger] o.typing@[channel_id]@.dom().contains(who)
                ==> n.typing@[channel_id]@.dom().contains(who) && n.typing@[channel_id]@[who]
                == o.typing@[channel_id]@[who],
        forall|who: Seq<char>| #[trigger]
            n.typing@[channel_id]@.dom().contains(who) ==> who == user_pubkey@ || (
            o.typing@.dom().contains(channel_id) && o.typing@[channel_id]@.dom().contains(who)),
{
}

proof fn channels_added_facts(s: Seq<Channel>, new: Seq<Channel>)
    ensures
        channels_added(s, new).len() >= s.len(),
        channels_added(s, new).take(s.len() as int) == s,
        forall|i: int|
            0 <= i < new.len() ==> any_where(
                channels_added(s, new),
                channel_is((#[trigger] new[i]).id),
            ),
        forall|k: int|
            s.len() <= k < channels_added(s, new).len() ==> new.contains(
                #[trigger] channels_added(s, new)[k],
            ),
    decreases new.len(),
{
    if new.len() == 0 {
        assert(s.take(s.len() as int) =~= s);
    } else {
        let rest = new.drop_last();
        let before = channels_added(s, rest);
        let all = channels_added(s, new);
        channels_added_facts(s, rest);
        assert(all.take(s.len() as int) =~= before.take(s.len() as int));
        assert forall|i: int| 0 <= i < new.len() implies any_where(
            all,
            channel_is((#[trigger] new[i]).id),
        ) by {
            let id = new[i].id;
            if i < rest.len() {
                assert(rest[i] == new[i]);
            }
            if any_where(before, channel_is(id)) {
                let k = choose|k: int| 0 <= k < before.len() && channel_is(id)(
                    #[trigger] before[k],
                );
                assert(channel_is(id)(all[k]));
            } else {
                assert(channel_is(id)(all[before.len() as int]));
            }
        }
        assert forall|k: int| s.len() <= k < all.len() implies new.contains(#[trigger] all[k]) by {
            if k < before.len() {
                assert(all[k] == before[k]);
                let j = choose|j: int| 0 <= j < rest.len() && rest[j] == before[k];
                assert(new[j] == all[k]);
            } else {
                assert(new[new.len() - 1] == all[k]);
            }
        }
    }
}

/// Where a member is put: in the place of their own entry, or behind the others.
proof fn member_place(s: Seq<Member>, m: Member) -> (i: int)
    ensures
        0 <= i <= s.len(),
        i < s.len() ==> member_put(s, m) == s.update(i, m) && s[i].guild_id == m.guild_id
            && s[i].user.pubkey@ == m.user.pubkey@,
        i == s.len() ==> member_put(s, m) == s.push(m),
{
    let p = same_member(m.guild_id, m.user.pubkey@);
    if any_where(s, p) {
        let i = a_first_one(s, p);
        put_found(s, p, m, i);
        i
    } else {
        put_missing(s, p, m);
        s.len() as int
    }
}

proof fn members_keep_places(s: Seq<Member>, new: Seq<Member>)
    ensures
        members_put(s, new).len() >= s.len(),
        forall|i: int|
            0 <= i < s.len() ==> (#[trigger] members_put(s, new)[i]).guild_id == s[i].guild_id
                && members_put(s, new)[i].user.pubkey@ == s[i].user.pubkey@,
        forall|i: int|
            0 <= i < s.len() && !new.contains(#[trigger] members_put(s, new)[i]) ==> members_put(
                s,
                new,
            )[i] == s[i],
    decreases new.len(),
{
    if new.len() > 0 {
        let rest = new.drop_last();
        let before = members_put(s, rest);
        let all = members_put(s, new);
        let m = new.last();
        members_keep_places(s, rest);
        let k = member_place(before, m);
        assert(new[new.len() - 1] == m);
        assert forall|i: int| 0 <= i < s.len() implies (#[trigger] all[i]).guild_id
            == s[i].guild_id && all[i].user.pubkey@ == s[i].user.pubkey@ by {
            assert(before[i].guild_id == s[i].guild_id);
        }
        assert forall|i: int| 0 <= i < s.len() && !new.contains(#[trigger] all[i]) implies all[i]
            == s[i] by {
            assert(all[i] == before[i]);
            if rest.contains(before[i]) {
                let j = choose|j: int| 0 <= j < rest.len() && rest[j] == before[i];
                assert(new[j] == all[i]);
            }
        }
    }
}

proof fn members_are_there(s: Seq<Member>, new: Seq<Member>, k: int)
    requires
        0 <= k < new.len(),
    ensures
        exists|i: int|
            0 <= i < members_put(s, new).len() && (#[trigger] members_put(s, new)[i]).guild_id
                == new[k].guild_id && members_put(s, new)[i].user.pubkey@ == new[k].user.pubkey@,
    decreases new.len(),
{
    let rest = new.drop_last();
    let before = members_put(s, rest);
    let all = members_put(s, new);
    let m = new.last();
    let at = member_place(before, m);
    if k < rest.len() {
        members_are_there(s, rest, k);
        let i = choose|i: int|
            0 <= i < before.len() && (#[trigger] before[i]).guild_id == rest[k].guild_id
                && before[i].user.pubkey@ == rest[k].user.pubkey@;
        assert(all[i].guild_id == new[k].guild_id && all[i].user.pubkey@ == new[k].user.pubkey@);
    } else {
        assert(all[at] == m);
        assert(all[at].guild_id == new[k].guild_id);
    }
}

/// A guild that was joined is listed with all its channels, members, roles and emojis
/// and the states of its calls, and it is the one that is open, on a channel of its own.
/// Nothing of another guild changes.
#[verifier::rlimit(40)]
pub proof fn a_joined_guild_is_there(
    o: AppState,
    guild: Guild,
    channels: Vec<Channel>,
    members: Vec<Member>,
    roles: Vec<Role>,
    emojis: Vec<GuildEmoji>,
    voice_states: Vec<VoiceState>,
    now: u64,
    n: AppState,
    e: Seq<Effect>,
)
    requires
        applied(
            o,
            ServerMessage::GuildJoined { guild, channels, members, roles, emojis, voice_states },
            now,
            n,
            e,
        ),
    ensures
        exists|i: int| 0 <= i < n.guilds@.len() && (#[trigger] n.guilds@[i]).id == guild.id,
        n.guilds@.len() >= o.guilds@.len() && n.guilds@.take(o.guilds@.len() as int) == o.guilds@,
        forall|i: int|
            0 <= i < channels@.len() ==> exists|k: int|
                0 <= k < n.channels@.len() && (#[trigger] n.channels@[k]).id == (
                #[trigger] channels@[i]).id,
        n.channels@.len() >= o.channels@.len() && n.channels@.take(o.channels@.len() as int)
            == o.channels@,
        forall|i: int|
            0 <= i < members@.len() ==> exists|k: int|
                0 <= k < n.members@.len() && (#[trigger] n.members@[k]).guild_id == (
                #[trigger] members@[i]).guild_id && n.members@[k].user.pubkey@
                    == members@[i].user.pubkey@,
        forall|i: int|
            0 <= i < o.members@.len() ==> (#[trigger] n.members@[i]).guild_id
                == o.members@[i].guild_id && n.members@[i].user.pubkey@
                == o.members@[i].user.pubkey@,
        n.roles@.dom().contains(guild.id) && n.roles@[guild.id] == roles,
        n.guild_emojis@.dom().contains(guild.id) && n.guild_emojis@[guild.id] == emojis,
        forall|i: int|
            0 <= i < voice_states@.len() ==> n.voice_states@.contains(#[trigger] voice_states@[i]),
        forall|i: int|
            0 <= i < n.voice_states@.len() ==> voice_states@.contains(#[trigger] n.voice_states@[i])
                || n.voice_states@[i].guild_id != guild.id,
        forall|i: int|
            0 <= i < o.voice_states@.len() && (#[trigger] o.voice_states@[i]).guild_id != guild.id
                ==> n.voice_states@.contains(o.voice_states@[i]),
        n.selected_guild == Some(guild.id),
        !n.dm_mode,
        n.selected_channel matches Some(c) ==> exists|i: int|
            0 <= i < n.channels@.len() && (#[trigger] n.channels@[i]).id == c
                && n.channels@[i].guild_id == guild.id && n.channels@[i].kind == ChannelKind::Text,
        forall|g: Id|
            g != guild.id && #[trigger] o.roles@.dom().contains(g) ==> n.roles@.dom().contains(g)
                && n.roles@[g] == o.roles@[g],
        n.messages == o.messages,
{
    let gid = guild.id;
    if any_where(o.guilds@, guild_is(gid)) {
        let i = choose|i: int| 0 <= i < o.guilds@.len() && guild_is(gid)(#[trigger] o.guilds@[i]);
        assert(n.guilds@[i].id == gid);
    } else {
        assert(n.guilds@[o.guilds@.len() as int].id == gid);
    }
    assert(n.guilds@.take(o.guilds@.len() as int) =~= o.guilds@);
    channels_added_facts(o.channels@, channels@);
    assert forall|i: int| 0 <= i < channels@.len() implies exists|k: int|
        0 <= k < n.channels@.len() && (#[trigger] n.channels@[k]).id == (
        #[trigger] channels@[i]).id by {
        let id = channels@[i].id;
        let k = choose|k: int| 0 <= k < n.channels@.len() && channel_is(id)(
            #[trigger] n.channels@[k],
        );
        assert(n.channels@[k].id == id);
    }
    members_keep_places(o.members@, members@);
    assert forall|i: int| 0 <= i < members@.len() implies exists|k: int|
        0 <= k < n.members@.len() && (#[trigger] n.members@[k]).guild_id == (
        #[trigger] members@[i]).guild_id && n.members@[k].user.pubkey@
            == members@[i].user.pubkey@ by {
        members_are_there(o.members@, members@, i);
    }
    let kept = o.voice_states@.filter(voice_elsewhere(gid));
    assert forall|i: int| 0 <= i < voice_states@.len() implies n.voice_states@.contains(
        #[trigger] voice_states@[i],
    ) by {
        assert(n.voice_states@[kept.len() + i] == voice_states@[i]);
    }
    assert forall|i: int| 0 <= i < n.voice_states@.len() implies voice_states@.contains(
        #[trigger] n.voice_states@[i],
    ) || n.voice_states@[i].guild_id != gid by {
        if i < kept.len() {
            o.voice_states@.lemma_filter_pred(voice_elsewhere(gid), i);
        } else {
            assert(voice_states@[i - kept.len()] == n.voice_states@[i]);
        }
    }
    assert forall|i: int|
        0 <= i < o.voice_states@.len() && (#[trigger] o.voice_states@[i]).guild_id != gid implies
        n.voice_states@.contains(o.voice_states@[i]) by {
        o.voice_states@.filter_lemma(voice_elsewhere(gid));
        assert(voice_elsewhere(gid)(o.voice_states@[i]));
        assert(kept.contains(o.voice_states@[i]));
        let k = choose|k: int| 0 <= k < kept.len() && kept[k] == o.voice_states@[i];
        assert(n.voice_states@[k] == o.voice_states@[i]);
    }
    default_channel_is_text(n.channels@, gid);
}

/// The channel that a guild opens on is the first of its text channels.
pub proof fn default_channel_is_text(channels: Seq<Channel>, guild: Id)
    ensures
        default_channel(channels, guild) matches Some(c) ==> exists|i: int|
            0 <= i < channels.len() && (#[trigger] channels[i]).id == c && channels[i].guild_id
                == guild && channels[i].kind == ChannelKind::Text && forall|j: int|
                0 <= j < i ==> !((#[trigger] channels[j]).guild_id == guild && channels[j].kind
                    == ChannelKind::Text),
        default_channel(channels, guild) is None ==> forall|j: int|
            0 <= j < channels.len() ==> !((#[trigger] channels[j]).guild_id == guild
                && channels[j].kind == ChannelKind::Text),
    decreases channels.len(),
{
    if channels.len() > 0 {
        let rest = channels.drop_first();
        default_channel_is_text(rest, guild);
        if !(channels[0].guild_id == guild && channels[0].kind == ChannelKind::Text) {
            if let Some(c) = default_channel(rest, guild) {
                let i = choose|i: int|
                    0 <= i < rest.len() && (#[trigger] rest[i]).id == c && rest[i].guild_id == guild
                        && rest[i].kind == ChannelKind::Text && forall|j: int|
                        0 <= j < i ==> !((#[trigger] rest[j]).guild_id == guild && rest[j].kind
                            == ChannelKind::Text);
                assert forall|j: int| 0 <= j < i + 1 implies !((
                #[trigger] channels[j]).guild_id == guild && channels[j].kind
                    == ChannelKind::Text) by {
                    if j > 0 {
                        assert(rest[j - 1] == channels[j]);
                    }
                }
                assert(channels[i + 1].id == c);
            } else {
                assert forall|j: int| 0 <= j < channels.len() implies !((
                #[trigger] channels[j]).guild_id == guild && channels[j].kind
                    == ChannelKind::Text) by {
                    if j > 0 {
                        assert(rest[j - 1] == channels[j]);
                    }
                }
            }
        } else {
            assert(channels[0].id == channels[0].id);
        }
    }
}

/// The deletion of a guild leaves the others as they were: their channels with all that
/// was said, their members, roles, bans and invitations. If it was open, another is, on
/// a text channel of its own, or none.
pub proof fn a_deleted_guild_leaves_the_others(
    o: AppState,
    guild_id: Id,
    now: u64,
    n: AppState,
    e: Seq<Effect>,
)
    requires
        applied(o, ServerMessage::GuildDelete { guild_id }, now, n, e),
    ensures
        n.guilds@ == o.guilds@.filter(|g: Guild| g.id != guild_id),
        n.channels@ == o.channels@.filter(|c: Channel| c.guild_id != guild_id),
        n.members@ == o.members@.filter(|m: Member| m.guild_id != guild_id),
        forall|g: Id|
            g != guild_id && #[trigger] o.roles@.dom().contains(g) ==> n.roles@.dom().contains(g)
                && n.roles@[g] == o.roles@[g],
        forall|g: Id|
            g != guild_id && #[trigger] o.bans@.dom().contains(g) ==> n.bans@.dom().contains(g)
                && n.bans@[g] == o.bans@[g],
        forall|g: Id|
            g != guild_id && #[trigger] o.invites@.dom().contains(g) ==> n.invites@.dom().contains(g)
                && n.invites@[g] == o.invites@[g],
        forall|c: Id|
            #[trigger] o.messages@.dom().contains(c) && (forall|i: int|
                0 <= i < o.channels@.len() && (#[trigger] o.channels@[i]).guild_id == guild_id
                    ==> o.channels@[i].id != c) ==> n.messages@.dom().contains(c)
                && n.messages@[c] == o.messages@[c],
        o.selected_guild != Some(guild_id) ==> n.selected_guild == o.selected_guild
            && n.selected_channel == o.selected_channel && e.len() == 0,
        o.selected_guild == Some(guild_id) ==> (n.selected_guild matches Some(g) ==> exists|i: int|
            0 <= i < n.guilds@.len() && (#[trigger] n.guilds@[i]).id == g),
        o.selected_guild == Some(guild_id) ==> (n.selected_channel matches Some(c) ==> exists|i: int|
            0 <= i < n.channels@.len() && (#[trigger] n.channels@[i]).id == c
                && n.selected_guild == Some(n.channels@[i].guild_id)),
        n.voice_states == o.voice_states && n.dms == o.dms,
{
    let p1 = guild_not(guild_id);
    let q1 = |g: Guild| g.id != guild_id;
    assert(p1 =~= q1);
    let p2 = channel_elsewhere(guild_id);
    let q2 = |c: Channel| c.guild_id != guild_id;
    assert(p2 =~= q2);
    let p3 = member_elsewhere(guild_id);
    let q3 = |m: Member| m.guild_id != guild_id;
    assert(p3 =~= q3);
    assert forall|c: Id|
        #[trigger] o.messages@.dom().contains(c) && (forall|i: int|
            0 <= i < o.channels@.len() && (#[trigger] o.channels@[i]).guild_id == guild_id
                ==> o.channels@[i].id != c) implies n.messages@.dom().contains(c) && n.messages@[c]
        == o.messages@[c] by {
        assert(!guild_channels(o.channels@, guild_id).contains(c));
    }
    if n.guilds@.len() > 0 {
        assert(n.guilds@[0].id == n.guilds@[0].id);
        default_channel_is_text(n.channels@, n.guilds@[0].id);
    }
}

/// What a gateway lists of a guild is what is known of it from then on, and of no other
/// guild.
pub proof fn a_guilds_lists_are_kept(
    o: AppState,
    msg: ServerMessage,
    now: u64,
    n: AppState,
    e: Seq<Effect>,
)
    requires
        applied(o, msg, now, n, e),
    ensures
        msg matches ServerMessage::GuildRoles { guild_id, roles } ==> (n.roles@
            == o.roles@.insert(guild_id, roles) && n == (AppState { roles: n.roles, ..o })),
        msg matches ServerMessage::GuildEmojis { guild_id, emojis } ==> (n.guild_emojis@
            == o.guild_emojis@.insert(guild_id, emojis) && n == (AppState {
            guild_emojis: n.guild_emojis,
            ..o
        }) && e.contains(Effect::ResolveMedia)),
        msg matches ServerMessage::GuildInvite { guild_id, code } ==> (n.invites@
            == o.invites@.insert(guild_id, code) && n == (AppState { invites: n.invites, ..o })),
        msg matches ServerMessage::GuildBans { guild_id, users } ==> (n.bans@ == o.bans@.insert(
            guild_id,
            users,
        ) && n == (AppState { bans: n.bans, ..o })),
        msg matches ServerMessage::AuditLog { guild_id, entries } ==> (n.audit_logs@
            == o.audit_logs@.insert(guild_id, entries) && n == (AppState {
            audit_logs: n.audit_logs,
            ..o
        })),
        msg matches ServerMessage::GuildIntegrations { guild_id, bots } ==> (n.integrations@
            == o.integrations@.insert(guild_id, bots) && n == (AppState {
            integrations: n.integrations,
            ..o
        })),
        msg matches ServerMessage::ProfileUpdate(p) ==> (n.profiles@ == o.profiles@.insert(
            p.pubkey@,
            p,
        ) && n == (AppState { profiles: n.profiles, ..o })),
        msg matches ServerMessage::Error { message } ==> (n == (AppState {
            error_toast: Some(message),
            ..o
        }) && e.len() == 0),
        msg is Hello ==> n == o && e.len() == 0,
        msg matches ServerMessage::GuildCatalog { guilds, offset, total } ==> {
            &&& n.catalog_total == total
            &&& offset == 0 ==> n.catalog@ == guilds@
            &&& offset != 0 ==> n.catalog@ == o.catalog@ + guilds@
            &&& n == (AppState { catalog: n.catalog, catalog_total: total, ..o })
        },
{
    if let ServerMessage::GuildEmojis { guild_id, emojis } = msg {
        assert(e[0] == Effect::ResolveMedia);
    }
}

/// A guild or a channel that changed is replaced where it stands, and the others stay.
/// A channel that is new is added behind the others, and never twice.
pub proof fn guilds_and_channels_follow(
    o: AppState,
    msg: ServerMessage,
    now: u64,
    n: AppState,
    e: Seq<Effect>,
)
    requires
        applied(o, msg, now, n, e),
    ensures
        msg matches ServerMessage::GuildUpdate(g) ==> {
            &&& n.guilds@.len() == o.guilds@.len()
            &&& forall|i: int|
                0 <= i < o.guilds@.len() && (#[trigger] o.guilds@[i]).id != g.id ==> n.guilds@[i]
                    == o.guilds@[i]
            &&& (exists|i: int| 0 <= i < o.guilds@.len() && (#[trigger] o.guilds@[i]).id == g.id)
                ==> n.guilds@.contains(g)
            &&& n == (AppState { guilds: n.guilds, ..o })
        },
        msg matches ServerMessage::ChannelUpdate(c) ==> {
            &&& n.channels@.len() == o.channels@.len()
            &&& forall|i: int|
                0 <= i < o.channels@.len() && (#[trigger] o.channels@[i]).id != c.id
                    ==> n.channels@[i] == o.channels@[i]
            &&& (exists|i: int| 0 <= i < o.channels@.len() && (#[trigger] o.channels@[i]).id == c.id)
                ==> n.channels@.contains(c)
            &&& n == (AppState { channels: n.channels, ..o })
        },
        msg matches ServerMessage::ChannelCreate(c) ==> {
            &&& n == (AppState { channels: n.channels, ..o })
            &&& is_channel(o, c.id) ==> n.channels@ == o.channels@
            &&& !is_channel(o, c.id) ==> n.channels@.len() == o.channels@.len() + 1
                && n.channels@.last() == c && n.channels@.drop_last() == o.channels@
        },
{
    match msg {
        ServerMessage::GuildUpdate(g) => {
            let p = guild_is(g.id);
            if any_where(o.guilds@, p) {
                let i = a_first_one(o.guilds@, p);
                put_found(o.guilds@, p, g, i);
                assert(n.guilds@[i] == g);
            } else {
                put_missing(o.guilds@, p, g);
                assert forall|i: int| 0 <= i < o.guilds@.len() implies (
                #[trigger] o.guilds@[i]).id != g.id by {
                    assert(!p(o.guilds@[i]));
                }
            }
        },
        ServerMessage::ChannelUpdate(c) => {
            let p = channel_is(c.id);
            if any_where(o.channels@, p) {
                let i = a_first_one(o.channels@, p);
                put_found(o.channels@, p, c, i);
                assert(n.channels@[i] == c);
            } else {
                put_missing(o.channels@, p, c);
                assert forall|i: int| 0 <= i < o.channels@.len() implies (
                #[trigger] o.channels@[i]).id != c.id by {
                    assert(!p(o.channels@[i]));
                }
            }
        },
        ServerMessage::ChannelCreate(c) => {
            let p = channel_is(c.id);
            if is_channel(o, c.id) {
                let i = choose|i: int|
                    0 <= i < o.channels@.len() && (#[trigger] o.channels@[i]).id == c.id;
                assert(p(o.channels@[i]));
            } else {
                if any_where(o.channels@, p) {
                    let i = a_first_one(o.channels@, p);
                    assert(o.channels@[i].id == c.id);
                }
                assert(n.channels@.drop_last() =~= o.channels@);
            }
        },
        _ => {},
    }
}

/// Of a channel that was deleted nothing is left, and if it was open another channel of
/// its guild is, or none. All other channels stay.
pub proof fn a_deleted_channel_is_gone(
    o: AppState,
    guild_id: Id,
    channel_id: Id,
    now: u64,
    n: AppState,
    e: Seq<Effect>,
)
    requires
        applied(o, ServerMessage::ChannelDelete { guild_id, channel_id }, now, n, e),
    ensures
        n.channels@ == o.channels@.filter(|c: Channel| c.id != channel_id),
        forall|i: int| 0 <= i < n.channels@.len() ==> (#[trigger] n.channels@[i]).id != channel_id,
        !n.messages@.dom().contains(channel_id),
        !n.typing@.dom().contains(channel_id),
        !n.screen_shares@.dom().contains(channel_id),
        n.selected_channel != Some(channel_id),
        forall|c: Id|
            c != channel_id && #[trigger] o.messages@.dom().contains(c)
                ==> n.messages@.dom().contains(c) && n.messages@[c] == o.messages@[c],
        o.selected_channel != Some(channel_id) ==> n.selected_channel == o.selected_channel
            && e.len() == 0,
        n.guilds == o.guilds && n.members == o.members && n.selected_guild == o.selected_guild,
{
    let p = channel_not(channel_id);
    let q = |c: Channel| c.id != channel_id;
    assert(p =~= q);
    assert forall|i: int| 0 <= i < n.channels@.len() implies (#[trigger] n.channels@[i]).id
        != channel_id by {
        o.channels@.lemma_filter_pred(p, i);
    }
    default_channel_is_text(n.channels@, guild_id);
}

/// Whoever joins or changes is listed as the gateway says; whoever leaves is listed as
/// offline; whoever is removed is listed no more, and the key of the call has to change.
/// Nobody else is touched.
pub proof fn members_follow(
    o: AppState,
    msg: ServerMessage,
    now: u64,
    n: AppState,
    e: Seq<Effect>,
)
    requires
        applied(o, msg, now, n, e),
    ensures
        (msg is MemberJoin || msg is MemberUpdate) ==> {
            let m = if msg is MemberJoin {
                msg->MemberJoin_0
            } else {
                msg->MemberUpdate_0
            };
            &&& n == (AppState { members: n.members, ..o })
            &&& n.members@.contains(m)
            &&& forall|i: int|
                0 <= i < o.members@.len() && !((#[trigger] o.members@[i]).guild_id == m.guild_id
                    && o.members@[i].user.pubkey@ == m.user.pubkey@) ==> n.members@[i]
                    == o.members@[i]
            &&& n.members@.len() <= o.members@.len() + 1
        },
        msg matches ServerMessage::MemberRemove { guild_id, user_pubkey } ==> {
            &&& n == (AppState { members: n.members, pending_rekey: true, ..o })
            &&& forall|i: int|
                0 <= i < n.members@.len() ==> !((#[trigger] n.members@[i]).guild_id == guild_id
                    && n.members@[i].user.pubkey@ == user_pubkey@)
            &&& n.members@ == o.members@.filter(
                |m: Member| !(m.guild_id == guild_id && m.user.pubkey@ == user_pubkey@),
            )
            &&& n.pending_rekey
        },
        msg matches ServerMessage::MemberLeave { guild_id, user_pubkey } ==> {
            &&& n == (AppState { members: n.members, ..o })
            &&& n.members@.len() == o.members@.len()
            &&& forall|i: int|
                0 <= i < o.members@.len() ==> (#[trigger] n.members@[i]).guild_id
                    == o.members@[i].guild_id && n.members@[i].user == o.members@[i].user
            &&& forall|i: int|
                0 <= i < o.members@.len() && !((#[trigger] o.members@[i]).guild_id == guild_id
                    && o.members@[i].user.pubkey@ == user_pubkey@) ==> n.members@[i]
                    == o.members@[i]
            &&& (exists|i: int|
                0 <= i < o.members@.len() && (#[trigger] o.members@[i]).guild_id == guild_id
                    && o.members@[i].user.pubkey@ == user_pubkey@) ==> exists|i: int|
                0 <= i < n.members@.len() && (#[trigger] n.members@[i]).guild_id == guild_id
                    && n.members@[i].user.pubkey@ == user_pubkey@ && !n.members@[i].online
        },
{
    match msg {
        ServerMessage::MemberJoin(m) | ServerMessage::MemberUpdate(m) => {
            let i = member_place(o.members@, m);
            assert(n.members@[i] == m);
        },
        ServerMessage::MemberRemove { guild_id, user_pubkey } => {
            let p = other_than(guild_id, user_pubkey@);
            let q = |m: Member| !(m.guild_id == guild_id && m.user.pubkey@ == user_pubkey@);
            assert(p =~= q);
            assert forall|i: int| 0 <= i < n.members@.len() implies !((
            #[trigger] n.members@[i]).guild_id == guild_id && n.members@[i].user.pubkey@
                == user_pubkey@) by {
                o.members@.lemma_filter_pred(p, i);
            }
        },
        ServerMessage::MemberLeave { guild_id, user_pubkey } => {
            let p = same_member(guild_id, user_pubkey@);
            if any_where(o.members@, p) {
                let i = a_first_one(o.members@, p);
                assert(n.members@ == o.members@.update(
                    i,
                    Member { online: false, ..o.members@[i] },
                ));
                assert(!n.members@[i].online);
            } else {
                assert forall|i: int| 0 <= i < o.members@.len() implies !((
                #[trigger] o.members@[i]).guild_id == guild_id && o.members@[i].user.pubkey@
                    == user_pubkey@) by {
                    assert(!p(o.members@[i]));
                }
            }
        },
        _ => {},
    }
}

/// The states of calls once one of them changed.
proof fn voice_place(o: AppState, vs: VoiceState, n: AppState, e: Seq<Effect>) -> (k: int)
    requires
        voice_updated(o, vs, n, e),
    ensures
        0 <= k <= o.voice_states@.len(),
        k < o.voice_states@.len() ==> o.voice_states@[k].user_pubkey@ == vs.user_pubkey@,
        forall|j: int|
            0 <= j < k ==> (#[trigger] o.voice_states@[j]).user_pubkey@ != vs.user_pubkey@,
        vs.channel_id is Some ==> n.voice_states@ == if k < o.voice_states@.len() {
            o.voice_states@.update(k, vs)
        } else {
            o.voice_states@.push(vs)
        },
        vs.channel_id is None ==> n.voice_states@ == if k < o.voice_states@.len() {
            o.voice_states@.remove(k)
        } else {
            o.voice_states@
        },
{
    let mid = choose|m: AppState| #[trigger]
        voice_listed(o, vs, m) && if o.self_user is Some && o.self_user->Some_0.pubkey@
            == vs.user_pubkey@ {
            own_voice(m, vs, n, e)
        } else {
            n == m && e == Seq::<Effect>::empty()
        };
    assert(n.voice_states == mid.voice_states);
    let was = o.voice_states@;
    let p = voice_of(vs.user_pubkey@);
    if any_where(was, p) {
        let k = a_first_one(was, p);
        put_found(was, p, vs, k);
        without_found(was, p, k);
        assert forall|j: int| 0 <= j < k implies (#[trigger] was[j]).user_pubkey@
            != vs.user_pubkey@ by {
            assert(!p(was[j]));
        }
        k
    } else {
        put_missing(was, p, vs);
        without_missing(was, p);
        assert forall|j: int| 0 <= j < was.len() implies (#[trigger] was[j]).user_pubkey@
            != vs.user_pubkey@ by {
            assert(!p(was[j]));
        }
        was.len() as int
    }
}

/// Whether nobody is listed twice.
pub open spec fn nobody_twice(s: Seq<VoiceState>) -> bool {
    forall|i: int, j: int|
        0 <= i < j < s.len() ==> (#[trigger] s[i]).user_pubkey@ != (#[trigger] s[j]).user_pubkey@
}

/// Whoever is in a call is listed with the state that the gateway gave last; nobody else
/// changes.
pub proof fn calls_are_followed(o: AppState, vs: VoiceState, now: u64, n: AppState, e: Seq<Effect>)
    requires
        applied(o, ServerMessage::VoiceStateUpdate(vs), now, n, e),
    ensures
        vs.channel_id is Some ==> n.voice_states@.contains(vs),
        vs.channel_id is Some ==> n.voice_states@.len() >= o.voice_states@.len(),
        forall|i: int|
            0 <= i < o.voice_states@.len() && (#[trigger] o.voice_states@[i]).user_pubkey@
                != vs.user_pubkey@ ==> n.voice_states@.contains(o.voice_states@[i]),
        forall|i: int|
            0 <= i < n.voice_states@.len() ==> (vs.channel_id is Some
                && #[trigger] n.voice_states@[i] == vs) || o.voice_states@.contains(
                n.voice_states@[i],
            ),
        n.members == o.members && n.channels == o.channels && n.messages == o.messages
            && n.media_keys == o.media_keys,
{
    let k = voice_place(o, vs, n, e);
    let was = o.voice_states@;
    let is = n.voice_states@;
    if vs.channel_id is Some {
        assert(is[k] == vs);
    }
    assert forall|i: int|
        0 <= i < was.len() && (#[trigger] was[i]).user_pubkey@ != vs.user_pubkey@ implies
        is.contains(was[i]) by {
        if vs.channel_id is None && k < i {
            assert(is[i - 1] == was[i]);
        } else {
            assert(is[i] == was[i]);
        }
    }
    assert forall|i: int| 0 <= i < is.len() implies (vs.channel_id is Some && #[trigger] is[i] == vs)
        || was.contains(is[i]) by {
        if vs.channel_id is Some {
            if i != k {
                assert(was[i] == is[i]);
            }
        } else if k < was.len() && k <= i {
            assert(was[i + 1] == is[i]);
        } else {
            assert(was[i] == is[i]);
        }
    }
}

/// Nobody is ever in two calls, and whoever left is in none.
pub proof fn nobody_is_in_two_calls(
    o: AppState,
    vs: VoiceState,
    now: u64,
    n: AppState,
    e: Seq<Effect>,
)
    requires
        applied(o, ServerMessage::VoiceStateUpdate(vs), now, n, e),
        nobody_twice(o.voice_states@),
    ensures
        nobody_twice(n.voice_states@),
        vs.channel_id is None ==> forall|i: int|
            0 <= i < n.voice_states@.len() ==> (#[trigger] n.voice_states@[i]).user_pubkey@
                != vs.user_pubkey@,
{
    let k = voice_place(o, vs, n, e);
    let was = o.voice_states@;
    let is = n.voice_states@;
    if vs.channel_id is Some {
        assert forall|i: int, j: int| 0 <= i < j < is.len() implies (#[trigger] is[i]).user_pubkey@
            != (#[trigger] is[j]).user_pubkey@ by {
            if j < was.len() {
                assert(was[i].user_pubkey@ != was[j].user_pubkey@);
            }
        }
    } else if k < was.len() {
        assert forall|i: int, j: int| 0 <= i < j < is.len() implies (#[trigger] is[i]).user_pubkey@
            != (#[trigger] is[j]).user_pubkey@ by {
            let a = if i < k {
                i
            } else {
                i + 1
            };
            let b = if j < k {
                j
            } else {
                j + 1
            };
            assert(is[i] == was[a] && is[j] == was[b]);
        }
        assert forall|i: int| 0 <= i < is.len() implies (#[trigger] is[i]).user_pubkey@
            != vs.user_pubkey@ by {
            if i < k {
                assert(is[i] == was[i]);
            } else {
                assert(is[i] == was[i + 1]);
                assert(was[k].user_pubkey@ != was[i + 1].user_pubkey@);
            }
        }
    }
}

/// Our own call follows the gateway: mute and deafness are what it says, and the
/// session is told only what changed. Out of the call we leave it, with everything that
/// was shared and watched in it. What others do changes nothing of ours.
pub proof fn our_own_call_follows(o: AppState, vs: VoiceState, now: u64, n: AppState, e: Seq<Effect>)
    requires
        applied(o, ServerMessage::VoiceStateUpdate(vs), now, n, e),
    ensures
        ({
            let ours = o.self_user matches Some(u) && u.pubkey@ == vs.user_pubkey@;
            &&& !ours ==> n.voice == o.voice && e.len() == 0
            &&& ours ==> n.voice.muted == vs.muted && n.voice.deafened == vs.deafened
            &&& ours ==> (e.contains(Effect::Voice(VoiceCmd::SetMute { muted: vs.muted }))
                <==> vs.muted != o.voice.muted)
            &&& ours ==> (e.contains(Effect::Voice(VoiceCmd::SetDeafen { deafened: vs.deafened }))
                <==> vs.deafened != o.voice.deafened)
            &&& ours ==> (e.contains(Effect::Voice(VoiceCmd::Disconnect)) <==> vs.channel_id is None
                && o.voice.phase != VoicePhase::Idle)
            &&& ours && vs.channel_id is None && o.voice.phase != VoicePhase::Idle ==> {
                &&& n.voice.phase == VoicePhase::Idle && n.voice.channel_id is None
                &&& !n.screen_sharing && n.screen_share_target is None && n.screen_viewing is None
                &&& n.screen_token is None && n.screen_audio_token is None
                &&& n.screen_video_token is None
                &&& !n.camera_on && !n.camera_starting && n.cameras_watching@.len() == 0
            }
            &&& ours && vs.channel_id is Some ==> n.voice.phase == o.voice.phase
                && n.voice.channel_id == o.voice.channel_id
            &&& forall|i: int| 0 <= i < e.len() ==> #[trigger] e[i] is Voice
            &&& o.screen_viewing is Some && o.screen_viewing->Some_0@ == vs.user_pubkey@ && (
            !vs.screen_sharing || vs.channel_id is None) ==> n.screen_viewing is None
            &&& o.screen_viewing is Some && o.screen_viewing->Some_0@ != vs.user_pubkey@ && !ours
                ==> n.screen_viewing == o.screen_viewing
        }),
{
    let ours = o.self_user matches Some(u) && u.pubkey@ == vs.user_pubkey@;
    let m = choose|m: AppState| #[trigger]
        voice_listed(o, vs, m) && if o.self_user is Some && o.self_user->Some_0.pubkey@
            == vs.user_pubkey@ {
            own_voice(m, vs, n, e)
        } else {
            n == m && e == Seq::<Effect>::empty()
        };
    if ours {
        let mute = Effect::Voice(VoiceCmd::SetMute { muted: vs.muted });
        let deafen = Effect::Voice(VoiceCmd::SetDeafen { deafened: vs.deafened });
        let out = Effect::Voice(VoiceCmd::Disconnect);
        let a = if vs.muted != o.voice.muted {
            1int
        } else {
            0int
        };
        let b = if vs.deafened != o.voice.deafened {
            1int
        } else {
            0int
        };
        if a == 1 {
            assert(e[0] == mute);
        }
        if b == 1 {
            assert(e[a] == deafen);
        }
        if vs.channel_id is None && o.voice.phase != VoicePhase::Idle {
            assert(e[a + b] == out);
        }
    }
}

/// A place in a call that was given is taken: we connect to it, with the token that was
/// given for it.
pub proof fn a_granted_call_is_joined(
    o: AppState,
    channel_id: Id,
    livekit_url: String,
    token: String,
    now: u64,
    n: AppState,
    e: Seq<Effect>,
)
    requires
        applied(o, ServerMessage::VoiceToken { channel_id, livekit_url, token }, now, n, e),
    ensures
        n.voice.channel_id == Some(channel_id),
        n.voice.phase == VoicePhase::Connecting,
        n.voice.error is None,
        n.voice.muted == o.voice.muted && n.voice.deafened == o.voice.deafened,
        e.len() == 1,
        e[0] == Effect::Voice(VoiceCmd::Connect { livekit_url, token, channel_id }),
        n == (AppState { voice: n.voice, ..o }),
{
}

/// The tokens for shared screens are kept, each with the place that was named, and none
/// where none was given.
pub proof fn screen_tokens_are_kept(
    o: AppState,
    livekit_url: String,
    token: String,
    audio_token: String,
    video_token: String,
    now: u64,
    n: AppState,
    e: Seq<Effect>,
)
    requires
        applied(
            o,
            ServerMessage::ScreenToken { livekit_url, token, audio_token, video_token },
            now,
            n,
            e,
        ),
    ensures
        n.screen_token == Some((livekit_url, token)),
        audio_token@.len() > 0 ==> n.screen_audio_token == Some((livekit_url, audio_token)),
        audio_token@.len() == 0 ==> n.screen_audio_token is None,
        video_token@.len() > 0 ==> n.screen_video_token == Some((livekit_url, video_token)),
        video_token@.len() == 0 ==> n.screen_video_token is None,
        e.len() == 0,
{
}

/// What a guild asks is answered by what it asks: nothing, by asking to join it at once;
/// rules, by showing those rules and waiting; work, by doing just the work that was set.
/// The guild and the invitation stay those that were named.
pub proof fn a_challenge_is_met(
    o: AppState,
    guild_id: Id,
    gate: JoinGate,
    rules: Option<String>,
    pow_challenge: Option<String>,
    pow_difficulty: Option<u32>,
    invite_code: Option<String>,
    now: u64,
    n: AppState,
    e: Seq<Effect>,
)
    requires
        applied(
            o,
            ServerMessage::JoinChallenge {
                guild_id,
                gate,
                rules,
                pow_challenge,
                pow_difficulty,
                invite_code,
            },
            now,
            n,
            e,
        ),
    ensures
        gate == JoinGate::Open ==> n == o && e.len() == 1 && match invite_code {
            None => e[0] == Effect::Send(
                ClientMessage::JoinGuild { guild_id, accept: false, pow_nonce: None },
            ),
            Some(code) => e[0] == Effect::Send(
                ClientMessage::JoinByInvite { code, accept: false, pow_nonce: None },
            ),
        },
        gate == JoinGate::Rules ==> {
            &&& e.len() == 0
            &&& n.rules_prompt is Some
            &&& n.rules_prompt->Some_0.guild_id == guild_id
            &&& n.rules_prompt->Some_0.invite_code == invite_code
            &&& rules is Some ==> n.rules_prompt->Some_0.rules@ == rules->Some_0@
            &&& rules is None ==> n.rules_prompt->Some_0.rules@.len() == 0
            &&& n.rules_prompt->Some_0.guild_name is Some <==> exists|i: int|
                0 <= i < o.catalog@.len() && (#[trigger] o.catalog@[i]).id == guild_id
            &&& n.rules_prompt->Some_0.guild_name is Some ==> exists|i: int|
                0 <= i < o.catalog@.len() && (#[trigger] o.catalog@[i]).id == guild_id
                    && o.catalog@[i].name == n.rules_prompt->Some_0.guild_name->Some_0
            &&& n == (AppState { rules_prompt: n.rules_prompt, ..o })
        },
        gate == JoinGate::Pow ==> n == o,
        gate == JoinGate::Pow && pow_challenge is Some && pow_difficulty is Some ==> e.len() == 1
            && e[0] == (Effect::SolvePow {
            challenge: pow_challenge->Some_0,
            bits: pow_difficulty->Some_0,
            guild_id,
            invite_code,
        }),
        gate == JoinGate::Pow && (pow_challenge is None || pow_difficulty is None) ==> e.len() == 0,
{
    if gate == JoinGate::Rules {
        let p = entry_is(guild_id);
        if any_where(o.catalog@, p) {
            let i = a_first_one(o.catalog@, p);
            assert(o.catalog@[i].id == guild_id);
            assert(n.rules_prompt->Some_0.guild_name == Some(o.catalog@[i].name));
        } else {
            assert forall|i: int| 0 <= i < o.catalog@.len() implies (#[trigger] o.catalog@[i]).id
                != guild_id by {
                assert(!p(o.catalog@[i]));
            }
        }
    }
}

/// Asking to join names the invitation where there is one, else the guild, and hands on
/// whether its rules were accepted and the work that was done.
pub proof fn a_request_to_join_is_whole(
    guild_id: Id,
    invite_code: Option<String>,
    accept: bool,
    pow_nonce: Option<String>,
)
    ensures
        join_request(guild_id, invite_code, accept, pow_nonce) matches ClientMessage::JoinGuild {
            guild_id: g,
            accept: a,
            pow_nonce: p,
        } ==> invite_code is None && g == guild_id && a == accept && p == pow_nonce,
        join_request(guild_id, invite_code, accept, pow_nonce) matches ClientMessage::JoinByInvite {
            code,
            accept: a,
            pow_nonce: p,
        } ==> invite_code == Some(code) && a == accept && p == pow_nonce,
        join_request(guild_id, invite_code, accept, pow_nonce) is JoinGuild || join_request(
            guild_id,
            invite_code,
            accept,
            pow_nonce,
        ) is JoinByInvite,
{
}

/// A key that is offered is taken exactly where it opens for us, from the one who says
/// they sent it and for its epoch, and where none of a later epoch is held, nor one of
/// the same epoch that we would rather keep. It is then the key of that call and of no
/// other, and the call is encrypted with it.
pub proof fn an_offered_key_is_taken(
    o: AppState,
    channel_id: Id,
    from: String,
    epoch: u32,
    blob: String,
    now: u64,
    n: AppState,
    e: Seq<Effect>,
)
    requires
        applied(o, ServerMessage::MediaKey { channel_id, from, epoch, blob }, now, n, e),
    ensures
        e.len() <= 1,
        forall|c: Id|
            c != channel_id ==> (#[trigger] n.media_keys@.dom().contains(c)
                <==> o.media_keys@.dom().contains(c)),
        forall|c: Id|
            c != channel_id && #[trigger] o.media_keys@.dom().contains(c) ==> n.media_keys@[c]
                == o.media_keys@[c],
        e.len() == 0 ==> n == o,
        e.len() == 1 ==> {
            &&& o.identity is Some
            &&& n.media_keys@.dom().contains(channel_id)
            &&& n.media_keys@[channel_id].0 == epoch
            &&& e[0] == (Effect::ApplyKey { key: n.media_keys@[channel_id].1, epoch })
            &&& opened_blob(
                blob@,
                from@,
                epoch,
                o.identity->Some_0.key(),
                o.identity->Some_0.pubkey@,
            ) == Ok::<Seq<u8>, Seq<char>>(n.media_keys@[channel_id].1@)
            &&& o.media_keys@.dom().contains(channel_id) ==> o.media_keys@[channel_id].0 <= epoch
            &&& !n.media_undecryptable
            &&& n == (AppState { media_keys: n.media_keys, media_undecryptable: false, ..o })
        },
        o.identity is Some && opened_blob(
            blob@,
            from@,
            epoch,
            o.identity->Some_0.key(),
            o.identity->Some_0.pubkey@,
        ) is Ok && (o.media_keys@.dom().contains(channel_id) ==> o.media_keys@[channel_id].0
            < epoch) ==> e.len() == 1,
{
}

/// Which of two keys counts: a later epoch always, an earlier one never, and of two keys
/// of one epoch the one of the lesser name. Without any key the first one counts.
pub proof fn the_later_key_counts(have: u32, epoch: u32, from: Seq<char>, me: Seq<char>)
    ensures
        superseding(None, epoch, from, Some(me)) && superseding(None, epoch, from, None),
        epoch > have ==> superseding(Some(have), epoch, from, Some(me)) && superseding(
            Some(have),
            epoch,
            from,
            None,
        ),
        epoch < have ==> !superseding(Some(have), epoch, from, Some(me)) && !superseding(
            Some(have),
            epoch,
            from,
            None,
        ),
        epoch == have ==> superseding(Some(have), epoch, from, Some(me)) == text_lt(from, me),
        epoch == have ==> !superseding(Some(have), epoch, from, None),
{
}

/// Who shares a screen in a channel is what the gateway says. What nobody shares any
/// more is no longer watched, and what somebody still shares is.
pub proof fn sharers_are_followed(
    o: AppState,
    channel_id: Id,
    sharers: Vec<String>,
    now: u64,
    n: AppState,
    e: Seq<Effect>,
)
    requires
        applied(o, ServerMessage::ScreenShareState { channel_id, sharers }, now, n, e),
    ensures
        sharers@.len() > 0 ==> n.screen_shares@.dom().contains(channel_id)
            && n.screen_shares@[channel_id] == sharers,
        sharers@.len() == 0 ==> !n.screen_shares@.dom().contains(channel_id),
        forall|c: Id|
            c != channel_id ==> (#[trigger] n.screen_shares@.dom().contains(c)
                <==> o.screen_shares@.dom().contains(c)),
        forall|c: Id|
            c != channel_id && #[trigger] o.screen_shares@.dom().contains(c)
                ==> n.screen_shares@[c] == o.screen_shares@[c],
        n.screen_viewing matches Some(pk) ==> o.screen_viewing == Some(pk) && exists|c: Id, i: int|
            n.screen_shares@.dom().contains(c) && 0 <= i < n.screen_shares@[c]@.len() && (
            #[trigger] n.screen_shares@[c]@[i])@ == pk@,
        o.screen_viewing is Some && n.screen_viewing is None ==> forall|c: Id, i: int|
            n.screen_shares@.dom().contains(c) && 0 <= i < n.screen_shares@[c]@.len() ==> (
            #[trigger] n.screen_shares@[c]@[i])@ != o.screen_viewing->Some_0@,
        n == (AppState { screen_shares: n.screen_shares, screen_viewing: n.screen_viewing, ..o }),
        e.len() == 0,
{
}

proof fn images_with_facts(images: Map<Seq<char>, String>, blobs: Seq<EmojiBlob>)
    ensures
        forall|i: int|
            0 <= i < blobs.len() ==> images_with(images, blobs).dom().contains(
                (#[trigger] blobs[i]).image@,
            ),
        forall|k: Seq<char>| #[trigger]
            images.dom().contains(k) ==> images_with(images, blobs).dom().contains(k),
        forall|k: Seq<char>| #[trigger]
            images_with(images, blobs).dom().contains(k) ==> (images.dom().contains(k)
                && images_with(images, blobs)[k] == images[k]) || exists|i: int|
                0 <= i < blobs.len() && (#[trigger] blobs[i]).image@ == k && blobs[i].data_url
                    == images_with(images, blobs)[k],
    decreases blobs.len(),
{
    if blobs.len() > 0 {
        let rest = blobs.drop_last();
        let before = images_with(images, rest);
        let all = images_with(images, blobs);
        images_with_facts(images, rest);
        assert forall|i: int| 0 <= i < blobs.len() implies all.dom().contains(
            (#[trigger] blobs[i]).image@,
        ) by {
            if i < rest.len() {
                assert(rest[i] == blobs[i]);
            }
        }
        assert forall|k: Seq<char>| #[trigger] all.dom().contains(k) implies (
        images.dom().contains(k) && all[k] == images[k]) || exists|i: int|
            0 <= i < blobs.len() && (#[trigger] blobs[i]).image@ == k && blobs[i].data_url
                == all[k] by {
            if k == blobs.last().image@ {
                assert(blobs[blobs.len() - 1].image@ == k);
            } else {
                assert(before.dom().contains(k));
                if !(images.dom().contains(k) && before[k] == images[k]) {
                    let i = choose|i: int|
                        0 <= i < rest.len() && (#[trigger] rest[i]).image@ == k && rest[i].data_url
                            == before[k];
                    assert(blobs[i] == rest[i]);
                }
            }
        }
    }
}

proof fn requests_left_facts(asked: Map<Seq<char>, u64>, blobs: Seq<EmojiBlob>)
    ensures
        forall|k: Seq<char>| #[trigger]
            requests_left(asked, blobs).dom().contains(k) <==> asked.dom().contains(k)
                && forall|i: int| 0 <= i < blobs.len() ==> (#[trigger] blobs[i]).image@ != k,
    decreases blobs.len(),
{
    if blobs.len() > 0 {
        let rest = blobs.drop_last();
        requests_left_facts(asked, rest);
        assert forall|k: Seq<char>| #[trigger] requests_left(asked, blobs).dom().contains(k)
            <==> asked.dom().contains(k) && forall|i: int|
            0 <= i < blobs.len() ==> (#[trigger] blobs[i]).image@ != k by {
            assert(requests_left(asked, blobs).dom().contains(k) == (requests_left(
                asked,
                rest,
            ).dom().contains(k) && k != blobs.last().image@));
            if requests_left(asked, blobs).dom().contains(k) {
                assert forall|i: int| 0 <= i < blobs.len() implies (#[trigger] blobs[i]).image@
                    != k by {
                    if i < rest.len() {
                        assert(rest[i] == blobs[i]);
                    }
                }
            }
            if asked.dom().contains(k) && forall|i: int|
                0 <= i < blobs.len() ==> (#[trigger] blobs[i]).image@ != k {
                assert forall|i: int| 0 <= i < rest.len() implies (#[trigger] rest[i]).image@
                    != k by {
                    assert(blobs[i] == rest[i]);
                }
                assert(blobs[blobs.len() - 1].image@ != k);
                assert(requests_left(asked, rest).dom().contains(k));
            }
        }
    }
}

proof fn stored_facts(emojis: Map<Id, Vec<GuildEmoji>>, blobs: Seq<EmojiBlob>)
    ensures
        forall|i: int|
            0 <= i < stored(emojis, blobs).len() ==> exists|k: int|
                0 <= k < blobs.len() && #[trigger] stored(emojis, blobs)[i] == (Effect::StoreEmoji {
                    image: (#[trigger] blobs[k]).image,
                    data_url: blobs[k].data_url,
                }) && blobs[k].data_url@.len() > 0 && is_emoji(emojis, blobs[k].image@),
        forall|k: int|
            0 <= k < blobs.len() && (#[trigger] blobs[k]).data_url@.len() > 0 && is_emoji(
                emojis,
                blobs[k].image@,
            ) ==> stored(emojis, blobs).contains(
                Effect::StoreEmoji { image: blobs[k].image, data_url: blobs[k].data_url },
            ),
    decreases blobs.len(),
{
    if blobs.len() > 0 {
        let rest = blobs.drop_last();
        let before = stored(emojis, rest);
        let all = stored(emojis, blobs);
        stored_facts(emojis, rest);
        assert forall|i: int| 0 <= i < all.len() implies exists|k: int|
            0 <= k < blobs.len() && #[trigger] all[i] == (Effect::StoreEmoji {
                image: (#[trigger] blobs[k]).image,
                data_url: blobs[k].data_url,
            }) && blobs[k].data_url@.len() > 0 && is_emoji(emojis, blobs[k].image@) by {
            if i < before.len() {
                assert(all[i] == before[i]);
                let k = choose|k: int|
                    0 <= k < rest.len() && before[i] == (Effect::StoreEmoji {
                        image: (#[trigger] rest[k]).image,
                        data_url: rest[k].data_url,
                    }) && rest[k].data_url@.len() > 0 && is_emoji(emojis, rest[k].image@);
                assert(blobs[k] == rest[k]);
            } else {
                assert(blobs[blobs.len() - 1] == blobs.last());
            }
        }
        assert forall|k: int|
            0 <= k < blobs.len() && (#[trigger] blobs[k]).data_url@.len() > 0 && is_emoji(
                emojis,
                blobs[k].image@,
            ) implies all.contains(
            Effect::StoreEmoji { image: blobs[k].image, data_url: blobs[k].data_url },
        ) by {
            let x = Effect::StoreEmoji { image: blobs[k].image, data_url: blobs[k].data_url };
            if k < rest.len() {
                assert(rest[k] == blobs[k]);
                let j = choose|j: int| 0 <= j < before.len() && before[j] == x;
                assert(all[j] == x);
            } else {
                assert(all[before.len() as int] == x);
            }
        }
    }
}

/// Pictures that arrive are held from then on and asked for no more; those that were
/// held stay, and requests for others stay open. What is kept on disk is a guild's emoji
/// that arrived and is not empty, and every such one.
pub proof fn pictures_that_arrive_are_held(
    o: AppState,
    blobs: Vec<EmojiBlob>,
    now: u64,
    n: AppState,
    e: Seq<Effect>,
)
    requires
        applied(o, ServerMessage::EmojiBlobs { blobs }, now, n, e),
    ensures
        forall|i: int|
            0 <= i < blobs@.len() ==> n.emoji_images@.dom().contains(
                (#[trigger] blobs@[i]).image@,
            ),
        forall|k: Seq<char>| #[trigger]
            o.emoji_images@.dom().contains(k) ==> n.emoji_images@.dom().contains(k),
        forall|k: Seq<char>| #[trigger]
            n.emoji_images@.dom().contains(k) ==> (o.emoji_images@.dom().contains(k)
                && n.emoji_images@[k] == o.emoji_images@[k]) || exists|i: int|
                0 <= i < blobs@.len() && (#[trigger] blobs@[i]).image@ == k && blobs@[i].data_url
                    == n.emoji_images@[k],
        forall|k: Seq<char>| #[trigger]
            n.emoji_requested@.dom().contains(k) <==> o.emoji_requested@.dom().contains(k)
                && forall|i: int| 0 <= i < blobs@.len() ==> (#[trigger] blobs@[i]).image@ != k,
        forall|i: int|
            0 <= i < e.len() ==> exists|k: int|
                0 <= k < blobs@.len() && #[trigger] e[i] == (Effect::StoreEmoji {
                    image: (#[trigger] blobs@[k]).image,
                    data_url: blobs@[k].data_url,
                }) && blobs@[k].data_url@.len() > 0 && exists|g: Id, j: int|
                    o.guild_emojis@.dom().contains(g) && 0 <= j < o.guild_emojis@[g]@.len() && (
                    #[trigger] o.guild_emojis@[g]@[j]).image@ == blobs@[k].image@,
        forall|k: int, g: Id, j: int|
            #![trigger blobs@[k], o.guild_emojis@[g]@[j]]
            0 <= k < blobs@.len() && blobs@[k].data_url@.len() > 0
                && o.guild_emojis@.dom().contains(g) && 0 <= j < o.guild_emojis@[g]@.len()
                && o.guild_emojis@[g]@[j].image@ == blobs@[k].image@ ==> e.contains(
                Effect::StoreEmoji { image: blobs@[k].image, data_url: blobs@[k].data_url },
            ),
        n == (AppState {
            emoji_images: n.emoji_images,
            emoji_requested: n.emoji_requested,
            ..o
        }),
{
    images_with_facts(o.emoji_images@, blobs@);
    requests_left_facts(o.emoji_requested@, blobs@);
    stored_facts(o.guild_emojis@, blobs@);
    assert forall|k: int, g: Id, j: int|
        #![trigger blobs@[k], o.guild_emojis@[g]@[j]]
        0 <= k < blobs@.len() && blobs@[k].data_url@.len() > 0 && o.guild_emojis@.dom().contains(g)
            && 0 <= j < o.guild_emojis@[g]@.len() && o.guild_emojis@[g]@[j].image@
            == blobs@[k].image@ implies e.contains(
        Effect::StoreEmoji { image: blobs@[k].image, data_url: blobs@[k].data_url },
    ) by {
        assert(is_emoji(o.guild_emojis@, blobs@[k].image@));
    }
}

proof fn profiles_facts(profiles: Seq<Profile>)
    ensures
        forall|i: int|
            0 <= i < profiles.len() ==> as_map(by_pubkey(profiles)).dom().contains(
                (#[trigger] profiles[i]).pubkey@,
            ),
        forall|k: Seq<char>| #[trigger]
            as_map(by_pubkey(profiles)).dom().contains(k) ==> profiles.contains(
                as_map(by_pubkey(profiles))[k],
            ) && as_map(by_pubkey(profiles))[k].pubkey@ == k,
    decreases profiles.len(),
{
    let all = by_pubkey(profiles);
    if profiles.len() > 0 {
        let rest = profiles.drop_last();
        profiles_facts(rest);
        assert(all.drop_last() =~= by_pubkey(rest));
        assert forall|i: int| 0 <= i < profiles.len() implies as_map(all).dom().contains(
            (#[trigger] profiles[i]).pubkey@,
        ) by {
            if i < rest.len() {
                assert(rest[i] == profiles[i]);
            }
        }
        assert forall|k: Seq<char>| #[trigger] as_map(all).dom().contains(k) implies
            profiles.contains(as_map(all)[k]) && as_map(all)[k].pubkey@ == k by {
            if k == profiles.last().pubkey@ {
                assert(profiles[profiles.len() - 1] == as_map(all)[k]);
            } else {
                let p = as_map(by_pubkey(rest))[k];
                let j = choose|j: int| 0 <= j < rest.len() && rest[j] == p;
                assert(profiles[j] == p);
            }
        }
    }
}

proof fn grouped_keys<T>(s: Seq<T>, key: spec_fn(T) -> Id)
    ensures
        forall|i: int|
            0 <= i < s.len() ==> #[trigger] grouped(s, key).dom().contains(key(s[i])),
    decreases s.len(),
{
    if s.len() > 0 {
        let rest = s.drop_last();
        grouped_keys(rest, key);
        assert forall|i: int| 0 <= i < s.len() implies #[trigger] grouped(s, key).dom().contains(
            key(s[i]),
        ) by {
            if i < rest.len() {
                assert(rest[i] == s[i]);
                assert(grouped(rest, key).dom().contains(key(rest[i])));
            }
        }
    }
}

proof fn grouped_facts<T>(s: Seq<T>, key: spec_fn(T) -> Id)
    ensures
        forall|k: Id| #[trigger]
            list_at(grouped(s, key), k) == s.filter(|x: T| key(x) == k),
    decreases s.len(),
{
    reveal(Seq::filter);
    if s.len() > 0 {
        let rest = s.drop_last();
        grouped_facts(rest, key);
        assert forall|k: Id| #[trigger] list_at(grouped(s, key), k) == s.filter(
            |x: T| key(x) == k,
        ) by {
            let p = |x: T| key(x) == k;
            assert(list_at(grouped(rest, key), k) == rest.filter(p));
            assert(s.filter(p) == if p(s.last()) {
                rest.filter(p).push(s.last())
            } else {
                rest.filter(p)
            });
        }
    } else {
        assert forall|k: Id| #[trigger] list_at(grouped(s, key), k) == s.filter(
            |x: T| key(x) == k,
        ) by {
            assert(list_at(grouped(s, key), k) =~= Seq::<T>::empty());
            assert(s.filter(|x: T| key(x) == k) =~= Seq::<T>::empty());
        }
    }
}

/// A session begins with just what the gateway lists: who we are, the guilds with their
/// channels, members, roles and emojis, the calls and the profiles. The first guild is
/// open on a text channel of its own, whose messages are asked for, and nothing of an
/// earlier session's messages is left.
#[verifier::rlimit(40)]
pub proof fn a_session_begins_afresh(
    o: AppState,
    user: User,
    guilds: Vec<Guild>,
    channels: Vec<Channel>,
    members: Vec<Member>,
    voice_states: Vec<VoiceState>,
    catalog: Vec<CatalogEntry>,
    profiles: Vec<Profile>,
    roles: Vec<Role>,
    emojis: Vec<GuildEmoji>,
    operator: bool,
    now: u64,
    n: AppState,
    e: Seq<Effect>,
)
    requires
        applied(
            o,
            ServerMessage::Ready {
                user,
                guilds,
                channels,
                members,
                voice_states,
                catalog,
                profiles,
                roles,
                emojis,
                operator,
            },
            now,
            n,
            e,
        ),
    ensures
        n.self_user == Some(user),
        n.is_operator == operator,
        n.status == ConnectionStatus::Ready,
        n.guilds@ == guilds@,
        n.channels@ == channels@,
        n.members@ == members@,
        n.voice_states@ == voice_states@,
        n.catalog@ == catalog@,
        !n.dm_mode,
        n.messages@.dom().len() == 0 && n.emoji_requested@.dom().len() == 0
            && n.screen_shares@.dom().len() == 0,
        n.screen_viewing is None,
        forall|i: int|
            0 <= i < profiles@.len() ==> n.profiles@.dom().contains(
                (#[trigger] profiles@[i]).pubkey@,
            ),
        forall|k: Seq<char>| #[trigger]
            n.profiles@.dom().contains(k) ==> profiles@.contains(n.profiles@[k])
                && n.profiles@[k].pubkey@ == k,
        forall|g: Id| #[trigger]
            n.roles@.dom().contains(g) ==> n.roles@[g]@ == roles@.filter(
                |r: Role| r.guild_id == g,
            ),
        forall|g: Id| #[trigger]
            n.guild_emojis@.dom().contains(g) ==> n.guild_emojis@[g]@ == emojis@.filter(
                |x: GuildEmoji| x.guild_id == g,
            ),
        forall|i: int|
            0 <= i < roles@.len() ==> n.roles@.dom().contains((#[trigger] roles@[i]).guild_id),
        forall|i: int|
            0 <= i < emojis@.len() ==> n.guild_emojis@.dom().contains(
                (#[trigger] emojis@[i]).guild_id,
            ),
        e.len() > 0 && e[0] == Effect::ResolveMedia && e.len() <= 2,
        guilds@.len() > 0 ==> n.selected_guild == Some(guilds@[0].id),
        guilds@.len() > 0 ==> (n.selected_channel matches Some(c) ==> exists|i: int|
            0 <= i < channels@.len() && (#[trigger] channels@[i]).id == c && channels@[i].guild_id
                == guilds@[0].id && channels@[i].kind == ChannelKind::Text),
        guilds@.len() > 0 && n.selected_channel is Some ==> e.len() == 2 && e[1] == Effect::Send(
            ClientMessage::FetchMessages {
                channel_id: n.selected_channel->Some_0,
                limit: 50,
                before_ms: None,
            },
        ),
        n.identity == o.identity && n.media_keys == o.media_keys && n.dms == o.dms,
{
    profiles_facts(profiles@);
    grouped_facts(roles@, role_guild());
    grouped_facts(emojis@, emoji_guild());
    grouped_keys(roles@, role_guild());
    grouped_keys(emojis@, emoji_guild());
    assert forall|i: int| 0 <= i < roles@.len() implies n.roles@.dom().contains(
        (#[trigger] roles@[i]).guild_id,
    ) by {
        let key = role_guild();
        assert(grouped(roles@, key).dom().contains(key(roles@[i])));
        assert(lists(n.roles@).dom().contains(roles@[i].guild_id));
    }
    assert forall|i: int| 0 <= i < emojis@.len() implies n.guild_emojis@.dom().contains(
        (#[trigger] emojis@[i]).guild_id,
    ) by {
        let key = emoji_guild();
        assert(grouped(emojis@, key).dom().contains(key(emojis@[i])));
        assert(lists(n.guild_emojis@).dom().contains(emojis@[i].guild_id));
    }
    if guilds@.len() > 0 {
        default_channel_is_text(channels@, guilds@[0].id);
    }
    assert forall|g: Id| #[trigger] n.roles@.dom().contains(g) implies n.roles@[g]@
        == roles@.filter(|r: Role| r.guild_id == g) by {
        assert(lists(n.roles@).dom().contains(g) && lists(n.roles@)[g] == n.roles@[g]@);
        assert(list_at(grouped(roles@, role_guild()), g) == n.roles@[g]@);
        let key = role_guild();
        let p = |x: Role| key(x) == g;
        let q = |r: Role| r.guild_id == g;
        assert(p =~= q);
    }
    assert forall|g: Id| #[trigger] n.guild_emojis@.dom().contains(g) implies n.guild_emojis@[g]@
        == emojis@.filter(|x: GuildEmoji| x.guild_id == g) by {
        assert(lists(n.guild_emojis@).dom().contains(g) && lists(n.guild_emojis@)[g]
            == n.guild_emojis@[g]@);
        assert(list_at(grouped(emojis@, emoji_guild()), g) == n.guild_emojis@[g]@);
        let key = emoji_guild();
        let p = |x: GuildEmoji| key(x) == g;
        let q = |x: GuildEmoji| x.guild_id == g;
        assert(p =~= q);
    }
}

/// A channel that is opened because another place is gone, or because a guild was joined,
/// has its latest messages asked for unless some are held; and nothing else is asked for.
pub proof fn an_opened_channel_is_filled(
    o: AppState,
    msg: ServerMessage,
    now: u64,
    n: AppState,
    e: Seq<Effect>,
    i: int,
)
    requires
        applied(o, msg, now, n, e),
        msg is GuildJoined || msg is GuildDelete || msg is ChannelDelete,
    ensures
        0 <= i < e.len() ==> e[i] == Effect::ResolveMedia || (n.selected_channel is Some && e[i]
            == Effect::Send(
            ClientMessage::FetchMessages {
                channel_id: n.selected_channel->Some_0,
                limit: 50,
                before_ms: None,
            },
        ) && !n.messages@.dom().contains(n.selected_channel->Some_0)),
        n.selected_channel != o.selected_channel && n.selected_channel is Some
            && !n.messages@.dom().contains(n.selected_channel->Some_0) ==> e.contains(
            Effect::Send(
                ClientMessage::FetchMessages {
                    channel_id: n.selected_channel->Some_0,
                    limit: 50,
                    before_ms: None,
                },
            ),
        ),
{
    let asks = fetched_new(n.selected_channel, n.messages@);
    if asks.len() == 1 && e.len() > 0 {
        assert(e.last() == asks[0] || e.len() == 0 || !(n.selected_channel is Some));
        assert(e[e.len() - 1] == e.last());
    }
}

} // verus!
