//! What holds of conversations, contacts and names.

use crate::crypto::{hex_text, public_x};
use crate::json::json_member_str;
use crate::list::any_where;
use crate::nostr::event::Event;
use crate::nostr::metadata::{drawable, published_name};
use crate::nostr::nip02::{
    ContactView, contact_row, contacts_in, first_at, is_pubkey, listed, others,
};
use crate::nostr::relay::Filter;
use crate::nostr::service::{
    candidates, capped, collected, contact_set, conversation, event_taken, names_asked, opened_with,
    wanted_is_tidy,
};
use crate::protocol::Id;
use crate::state::{AppState, dm_is};
use crate::text::{text_rows, texts};
use vstd::prelude::*;
use vstd::string::*;

verus! {

/// Opening a conversation shows it, listed under the key it is with, and marks it as
/// read. All other conversations stay as they are, and so does everything said.
pub proof fn an_opened_conversation_is_shown(o: AppState, peer: Seq<char>, n: AppState)
    requires
        opened_with(o, peer, n),
    ensures
        n.selected_channel == Some(conversation(peer)),
        n.dm_mode,
        !n.dm_unread@.dom().contains(conversation(peer)),
        forall|c: Id|
            c != conversation(peer) && #[trigger] o.dm_unread@.dom().contains(c)
                ==> n.dm_unread@.dom().contains(c) && n.dm_unread@[c] == o.dm_unread@[c],
        exists|i: int|
            0 <= i < n.dms@.len() && (#[trigger] n.dms@[i]).channel_id == conversation(peer),
        n.dms@.len() <= o.dms@.len() + 1,
        forall|i: int| 0 <= i < o.dms@.len() ==> #[trigger] n.dms@[i] == o.dms@[i],
        n.dms@.len() > o.dms@.len() ==> n.dms@[o.dms@.len() as int].other_pubkey@ == peer
            && n.dms@[o.dms@.len() as int].channel_id == conversation(peer) && forall|i: int|
            0 <= i < o.dms@.len() ==> (#[trigger] o.dms@[i]).channel_id != conversation(peer),
        n.messages == o.messages && n.contacts == o.contacts && n.selected_guild
            == o.selected_guild,
{
    let c = conversation(peer);
    if any_where(o.dms@, dm_is(c)) {
        let i = choose|i: int| 0 <= i < o.dms@.len() && dm_is(c)(#[trigger] o.dms@[i]);
        assert(n.dms@[i].channel_id == c);
    } else {
        assert forall|i: int| 0 <= i < o.dms@.len() implies #[trigger] n.dms@[i] == o.dms@[i] by {
            assert(n.dms@.drop_last()[i] == n.dms@[i]);
        }
        assert(n.dms@[o.dms@.len() as int].channel_id == c);
        assert forall|i: int| 0 <= i < o.dms@.len() implies (#[trigger] o.dms@[i]).channel_id
            != c by {
            assert(!dm_is(c)(o.dms@[i]));
        }
    }
}

/// Whether a key is among the contacts.
pub open spec fn is_contact(s: AppState, who: Seq<char>) -> bool {
    exists|i: int| 0 <= i < s.contacts@.len() && (#[trigger] s.contacts@[i]).pubkey == who
}

/// A contact that is added is one from then on, and one that is removed is none; every
/// other contact stays as it was. What goes out is the whole list as it now is, signed
/// by us: a row for each contact, in order, that names its key.
pub proof fn contacts_follow_the_command(
    o: AppState,
    secret: Seq<u8>,
    peer: Seq<char>,
    keep: bool,
    now: i64,
    n: AppState,
    event: Event,
)
    requires
        contact_set(o, secret, peer, keep, now, n, event),
    ensures
        is_contact(n, peer) == keep,
        forall|who: Seq<char>| who != peer ==> #[trigger] is_contact(n, who) == is_contact(o, who),
        forall|i: int|
            0 <= i < n.contacts@.len() && (#[trigger] n.contacts@[i]).pubkey != peer
                ==> o.contacts@.contains(n.contacts@[i]),
        forall|i: int|
            0 <= i < o.contacts@.len() && (#[trigger] o.contacts@[i]).pubkey != peer
                ==> n.contacts@.contains(o.contacts@[i]),
        n == (AppState { contacts: n.contacts, ..o }),
        event.verifies() && event.kind == 3 && event.pubkey@ == hex_text(public_x(secret))
            && event.created_at == now,
        event.tags@.len() == n.contacts@.len(),
        forall|i: int|
            0 <= i < n.contacts@.len() ==> texts((#[trigger] event.tags@[i])@).len() >= 2 && texts(
                event.tags@[i]@,
            )[0] == "p"@ && texts(event.tags@[i]@)[1] == n.contacts@[i].pubkey,
{
    let was = o.contacts@;
    let is = n.contacts@;
    if keep {
        let c = ContactView { pubkey: peer, relay: None, petname: None };
        if listed(was, peer) {
            let k = choose|k: int| #[trigger] first_at(was, peer, k) && is == was.update(k, c);
            assert(is[k].pubkey == peer);
            assert forall|i: int|
                0 <= i < was.len() && (#[trigger] was[i]).pubkey != peer implies is.contains(
                was[i],
            ) by {
                assert(is[i] == was[i]);
            }
            assert forall|i: int|
                0 <= i < is.len() && (#[trigger] is[i]).pubkey != peer implies was.contains(
                is[i],
            ) by {
                assert(was[i] == is[i]);
            }
        } else {
            assert(is[was.len() as int].pubkey == peer);
            assert forall|i: int| 0 <= i < was.len() implies is.contains(#[trigger] was[i]) by {
                assert(is[i] == was[i]);
            }
            assert forall|i: int|
                0 <= i < is.len() && (#[trigger] is[i]).pubkey != peer implies was.contains(
                is[i],
            ) by {
                assert(was[i] == is[i]);
            }
        }
    } else {
        let p = others(peer);
        was.filter_lemma(p);
        assert forall|i: int| 0 <= i < is.len() implies (#[trigger] is[i]).pubkey != peer by {
            was.lemma_filter_pred(p, i);
        }
        assert forall|i: int| 0 <= i < is.len() implies was.contains(#[trigger] is[i]) by {
            was.lemma_filter_contains_rev(p, is[i]);
        }
        assert forall|i: int| 0 <= i < was.len() && (#[trigger] was[i]).pubkey != peer implies
            is.contains(was[i]) by {
            assert(p(was[i]));
        }
    }
    assert forall|who: Seq<char>| who != peer implies #[trigger] is_contact(n, who) == is_contact(
        o,
        who,
    ) by {
        if is_contact(n, who) {
            let i = choose|i: int| 0 <= i < is.len() && (#[trigger] is[i]).pubkey == who;
            let j = choose|j: int| 0 <= j < was.len() && was[j] == is[i];
            assert(was[j].pubkey == who);
        }
        if is_contact(o, who) {
            let i = choose|i: int| 0 <= i < was.len() && (#[trigger] was[i]).pubkey == who;
            let j = choose|j: int| 0 <= j < is.len() && is[j] == was[i];
            assert(is[j].pubkey == who);
        }
    }
    let rows = text_rows(event.tags@);
    assert(rows.len() == is.len());
    assert forall|i: int| 0 <= i < is.len() implies texts((#[trigger] event.tags@[i])@).len() >= 2
        && texts(event.tags@[i]@)[0] == "p"@ && texts(event.tags@[i]@)[1] == is[i].pubkey by {
        assert(rows[i] == texts(event.tags@[i]@));
        assert(rows[i] == contact_row(is[i]));
    }
}

proof fn contacts_in_facts(rows: Seq<Seq<Seq<char>>>)
    ensures
        forall|i: int|
            0 <= i < contacts_in(rows).len() ==> exists|k: int|
                0 <= k < rows.len() && (#[trigger] rows[k]).len() > 1 && rows[k][0] == "p"@
                    && rows[k][1] == (#[trigger] contacts_in(rows)[i]).pubkey && is_pubkey(
                    rows[k][1],
                ),
        forall|k: int|
            0 <= k < rows.len() && (#[trigger] rows[k]).len() > 1 && rows[k][0] == "p"@
                && is_pubkey(rows[k][1]) ==> exists|i: int|
                0 <= i < contacts_in(rows).len() && (#[trigger] contacts_in(rows)[i]).pubkey
                    == rows[k][1],
    decreases rows.len(),
{
    if rows.len() > 0 {
        let rest = rows.drop_last();
        let before = contacts_in(rest);
        let all = contacts_in(rows);
        contacts_in_facts(rest);
        assert forall|i: int| 0 <= i < all.len() implies exists|k: int|
            0 <= k < rows.len() && (#[trigger] rows[k]).len() > 1 && rows[k][0] == "p"@
                && rows[k][1] == (#[trigger] all[i]).pubkey && is_pubkey(rows[k][1]) by {
            if i < before.len() {
                assert(before[i] == all[i]);
                let k = choose|k: int|
                    0 <= k < rest.len() && (#[trigger] rest[k]).len() > 1 && rest[k][0] == "p"@
                        && rest[k][1] == before[i].pubkey && is_pubkey(rest[k][1]);
                assert(rows[k] == rest[k]);
            } else {
                assert(rows[rows.len() - 1] == rows.last());
            }
        }
        assert forall|k: int|
            0 <= k < rows.len() && (#[trigger] rows[k]).len() > 1 && rows[k][0] == "p"@
                && is_pubkey(rows[k][1]) implies exists|i: int|
            0 <= i < all.len() && (#[trigger] all[i]).pubkey == rows[k][1] by {
            if k < rest.len() {
                assert(rest[k] == rows[k]);
                let i = choose|i: int|
                    0 <= i < before.len() && (#[trigger] before[i]).pubkey == rest[k][1];
                assert(all[i] == before[i]);
            } else {
                assert(all[before.len() as int].pubkey == rows[k][1]);
            }
        }
    }
}

/// Our own list replaces the contacts that were known, and nobody else's does: what is
/// known then are just the keys that the list names. A name counts unless a later one
/// is known, and it counts for the key that published it and for no other.
pub proof fn lists_and_names_are_taken(o: AppState, event: Event, us: Seq<char>, n: AppState)
    requires
        event_taken(o, event, us, n),
    ensures
        !(event.kind == 3 && event.pubkey@ == us) ==> n.contacts == o.contacts,
        event.kind != 0 ==> n.nostr_names == o.nostr_names,
        n == (AppState { contacts: n.contacts, nostr_names: n.nostr_names, ..o }),
        event.kind == 3 && event.pubkey@ == us ==> {
            let rows = text_rows(event.tags@);
            &&& forall|i: int|
                0 <= i < n.contacts@.len() ==> exists|k: int|
                    0 <= k < rows.len() && (#[trigger] rows[k]).len() > 1 && rows[k][0] == "p"@
                        && rows[k][1] == (#[trigger] n.contacts@[i]).pubkey && is_pubkey(
                        rows[k][1],
                    )
            &&& forall|k: int|
                0 <= k < rows.len() && (#[trigger] rows[k]).len() > 1 && rows[k][0] == "p"@
                    && is_pubkey(rows[k][1]) ==> exists|i: int|
                    0 <= i < n.contacts@.len() && (#[trigger] n.contacts@[i]).pubkey == rows[k][1]
        },
        forall|who: Seq<char>|
            who != event.pubkey@ ==> (#[trigger] n.nostr_names@.dom().contains(who)
                <==> o.nostr_names@.dom().contains(who)),
        forall|who: Seq<char>|
            who != event.pubkey@ && #[trigger] o.nostr_names@.dom().contains(who)
                ==> n.nostr_names@[who] == o.nostr_names@[who],
        o.nostr_names@.dom().contains(event.pubkey@) ==> n.nostr_names@.dom().contains(
            event.pubkey@,
        ) && n.nostr_names@[event.pubkey@].1 >= o.nostr_names@[event.pubkey@].1,
        event.kind == 0 && published_name(event.content@) is Some && (o.nostr_names@.dom().contains(
            event.pubkey@,
        ) ==> o.nostr_names@[event.pubkey@].1 <= event.created_at) ==> n.nostr_names@.dom().contains(
            event.pubkey@,
        ) && n.nostr_names@[event.pubkey@].0@ == published_name(event.content@)->Some_0
            && n.nostr_names@[event.pubkey@].1 == event.created_at,
{
    contacts_in_facts(text_rows(event.tags@));
}

/// The name of a key is the first usable one of the three it may publish, the one that
/// is meant to be shown before the handle.
pub proof fn the_shown_name_comes_first(content: Seq<char>)
    ensures
        json_member_str(content, "display_name"@) matches Some(raw) ==> drawable(raw).len() > 0
            ==> published_name(content) == Some(drawable(raw)),
        published_name(content) is Some ==> {
            ||| json_member_str(content, "display_name"@) matches Some(raw) && published_name(
                content,
            ) == Some(drawable(raw))
            ||| json_member_str(content, "displayName"@) matches Some(raw) && published_name(
                content,
            ) == Some(drawable(raw))
            ||| json_member_str(content, "name"@) matches Some(raw) && published_name(content)
                == Some(drawable(raw))
        },
        published_name(content) matches Some(name) ==> name.len() > 0,
        json_member_str(content, "display_name"@) is None && json_member_str(
            content,
            "displayName"@,
        ) is None ==> published_name(content) == match json_member_str(content, "name"@) {
            Some(raw) => if drawable(raw).len() > 0 {
                Some(drawable(raw))
            } else {
                None
            },
            None => None,
        },
{
}

/// Names are asked for of ourselves first, then of those we talk to, then of our
/// contacts: of each of them that has a key in form, once, up to a number. It is asked
/// again only where that changed, for names and nothing else.
pub proof fn names_are_asked_of_those_we_know(
    s: AppState,
    us: Seq<char>,
    before: Seq<Seq<char>>,
    after: Seq<Seq<char>>,
    r: Option<Filter>,
)
    requires
        names_asked(s, us, before, after, r),
    ensures
        r is None ==> after == before,
        r matches Some(f) ==> {
            &&& f.kinds is Some && f.kinds->Some_0@ == seq![0u16]
            &&& f.authors is Some && texts(f.authors->Some_0@) == after
            &&& f.p is None && f.since is None && f.limit is None
            &&& 0 < after.len() <= 256
            &&& after != before
            &&& forall|i: int, j: int|
                0 <= i < j < after.len() ==> #[trigger] after[i] != #[trigger] after[j]
            &&& forall|i: int|
                0 <= i < after.len() ==> is_pubkey(#[trigger] after[i]) && (after[i] == us || (
                exists|k: int| 0 <= k < s.dms@.len() && (#[trigger] s.dms@[k]).other_pubkey@ == after[i])
                    || is_contact(s, after[i]))
            &&& is_pubkey(us) ==> after[0] == us
        },
{
    if r is Some {
        let keys = candidates(s, us);
        let want = collected(keys);
        wanted_is_tidy(keys);
        assert forall|i: int| 0 <= i < after.len() implies is_pubkey(#[trigger] after[i]) && (
        after[i] == us || (exists|k: int|
            0 <= k < s.dms@.len() && (#[trigger] s.dms@[k]).other_pubkey@ == after[i])
            || is_contact(s, after[i])) by {
            assert(after[i] == want[i]);
            let j = choose|j: int| 0 <= j < keys.len() && keys[j] == want[i];
            if j == 0 {
            } else if j < 1 + s.dms@.len() {
                assert(s.dms@[j - 1].other_pubkey@ == want[i]);
            } else {
                assert(s.contacts@[j - 1 - s.dms@.len()].pubkey == want[i]);
            }
        }
        assert forall|i: int, j: int| 0 <= i < j < after.len() implies #[trigger] after[i]
            != #[trigger] after[j] by {
            assert(after[i] == want[i] && after[j] == want[j]);
        }
        if is_pubkey(us) {
            assert(keys.take(1) =~= seq![us]);
            let first = collected(keys.take(1));
            assert(keys.take(1).drop_last() =~= Seq::empty());
            reveal_with_fuel(collected, 3);
            assert(keys.take(1).last() == us);
            assert(collected(keys.take(1).drop_last()) =~= Seq::empty());
            assert(first =~= seq![us]);
            assert(want.take(1) == first);
            assert(want[0] == want.take(1)[0]);
        }
    }
}

/// Everybody worth a name is asked about while there is room: ourselves, everybody we
/// talk to and every contact, if their key is in form.
pub proof fn everybody_we_know_is_asked_about(s: AppState, us: Seq<char>, who: Seq<char>)
    requires
        is_pubkey(who),
        who == us || (exists|k: int|
            0 <= k < s.dms@.len() && (#[trigger] s.dms@[k]).other_pubkey@ == who) || is_contact(
            s,
            who,
        ),
        1 + s.dms@.len() + s.contacts@.len() <= 256,
    ensures
        capped(collected(candidates(s, us))).contains(who),
{
    let keys = candidates(s, us);
    assert(keys.contains(who)) by {
        if who == us {
            assert(keys[0] == who);
        } else if exists|k: int|
            0 <= k < s.dms@.len() && (#[trigger] s.dms@[k]).other_pubkey@ == who {
            let k = choose|k: int|
                0 <= k < s.dms@.len() && (#[trigger] s.dms@[k]).other_pubkey@ == who;
            assert(keys[1 + k] == who);
        } else {
            let k = choose|k: int|
                0 <= k < s.contacts@.len() && (#[trigger] s.contacts@[k]).pubkey == who;
            assert(keys[1 + s.dms@.len() + k] == who);
        }
    }
    collected_has(keys, who);
}

proof fn collected_has(keys: Seq<Seq<char>>, who: Seq<char>)
    requires
        is_pubkey(who),
        keys.contains(who),
    ensures
        collected(keys).contains(who),
        collected(keys).len() <= keys.len(),
    decreases keys.len(),
{
    let rest = keys.drop_last();
    let before = collected(rest);
    let all = collected(keys);
    let k = choose|k: int| 0 <= k < keys.len() && keys[k] == who;
    collected_is_short(rest);
    if k < rest.len() {
        assert(rest[k] == who);
        collected_has(rest, who);
        let j = choose|j: int| 0 <= j < before.len() && before[j] == who;
        assert(all[j] == who);
    } else if before.contains(who) {
        let j = choose|j: int| 0 <= j < before.len() && before[j] == who;
        assert(all[j] == who);
    } else {
        assert(all[before.len() as int] == who);
    }
}

proof fn collected_is_short(keys: Seq<Seq<char>>)
    ensures
        collected(keys).len() <= keys.len(),
    decreases keys.len(),
{
    if keys.len() > 0 {
        collected_is_short(keys.drop_last());
    }
}

} // verus!
