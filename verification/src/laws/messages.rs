//! What holds of direct messages, from the one who writes them to the one who reads
//! them.

use crate::crypto::{hex_text, names_secret, public_x};
use crate::laws::contacts::{contacts_follow_the_command, is_contact};
use crate::list::{any_where, list_at, lists};
use crate::nostr::event::{Event, Rumor, id_text, tag_value};
use crate::nostr::nip17::{ChatMessage, chat_tags};
use crate::nostr::nip59::{
    MAX_WRAPPED, a_wrap_opens, faithful, opened_gift, opened_seal, seals, taken, unwrapped, wrapped,
    wraps,
};
use crate::nostr::service::{
    NostrCmd, Source, conversation, filed, is_hidden, message_key, message_went, obeyed, reads,
    received, sent_as, shown_at, shows,
};
use crate::protocol::{Id, Message};
use crate::state::{AppState, dm_is, message_is, sorting_keeps_ids, time_sorted, time_sorted_facts};
use crate::text::{opt_text, text_rows};
use vstd::prelude::*;
use vstd::string::*;
use vstd::utf8::*;

verus! {

/// Whether a message with an identifier was held in a channel.
pub open spec fn holds_id(s: AppState, c: Id, id: Id) -> bool {
    s.messages@.dom().contains(c) && exists|i: int|
        0 <= i < s.messages@[c]@.len() && (#[trigger] s.messages@[c]@[i]).id == id
}

proof fn held_by_id(s: AppState, c: Id, id: Id)
    ensures
        any_where(list_at(lists(s.messages@), c), message_is(id)) == holds_id(s, c, id),
{
    let held = list_at(lists(s.messages@), c);
    if s.messages@.dom().contains(c) {
        assert(held == s.messages@[c]@);
    }
    if any_where(held, message_is(id)) {
        let i = choose|i: int| 0 <= i < held.len() && message_is(id)(#[trigger] held[i]);
        assert(s.messages@[c]@[i].id == id);
    }
    if holds_id(s, c, id) {
        let i = choose|i: int|
            0 <= i < s.messages@[c]@.len() && (#[trigger] s.messages@[c]@[i]).id == id;
        assert(message_is(id)(held[i]));
    }
}

/// Whether a message that stood somewhere is still in its channel.
pub open spec fn is_kept(o: AppState, n: AppState, d: Id, k: int) -> bool {
    o.messages@.dom().contains(d) && 0 <= k < o.messages@[d]@.len()
        ==> n.messages@.dom().contains(d) && n.messages@[d]@.contains(o.messages@[d]@[k])
}

/// Whether whatever was said before is still there, in its own channel.
pub open spec fn nothing_is_lost(o: AppState, n: AppState) -> bool {
    forall|d: Id, k: int| #[trigger] is_kept(o, n, d, k)
}

/// Whether whatever is there was there before, in its own channel.
pub open spec fn nothing_is_new(o: AppState, n: AppState) -> bool {
    nothing_is_lost(n, o)
}

/// Whether a message that stands somewhere was there before, or is in a channel, by an
/// author and in these words.
pub open spec fn is_old_or(
    o: AppState,
    n: AppState,
    c: Id,
    author: Seq<char>,
    words: Seq<char>,
    d: Id,
    k: int,
) -> bool {
    n.messages@.dom().contains(d) && 0 <= k < n.messages@[d]@.len() ==> {
        ||| o.messages@.dom().contains(d) && o.messages@[d]@.contains(n.messages@[d]@[k])
        ||| d == c && n.messages@[d]@[k].author.pubkey@ == author && n.messages@[d]@[k].content@
            == words && n.messages@[d]@[k].channel_id == c
    }
}

/// Whether whatever is there and was not before is in one channel, by one author and in
/// these words.
pub open spec fn nothing_else_is_new(
    o: AppState,
    n: AppState,
    c: Id,
    author: Seq<char>,
    words: Seq<char>,
) -> bool {
    forall|d: Id, k: int| #[trigger] is_old_or(o, n, c, author, words, d, k)
}

/// Whether a conversation shows a message by an author in these words, under an
/// identifier.
pub open spec fn is_shown(
    n: AppState,
    c: Id,
    id: Id,
    author: Seq<char>,
    words: Seq<char>,
    seconds: i64,
) -> bool {
    n.messages@.dom().contains(c) && exists|k: int|
        {
            &&& 0 <= k < n.messages@[c]@.len()
            &&& (#[trigger] n.messages@[c]@[k]).author.pubkey@ == author
            &&& n.messages@[c]@[k].content@ == words
            &&& n.messages@[c]@[k].channel_id == c
            &&& n.messages@[c]@[k].id == id
            &&& -8_334_601_228_800 <= seconds <= 8_210_266_876_799
                ==> n.messages@[c]@[k].created_at == seconds * 1000
        }
}

proof fn the_same_lists(o: AppState, n: AppState)
    requires
        lists(n.messages@) == lists(o.messages@),
    ensures
        nothing_is_lost(o, n),
        nothing_is_lost(n, o),
{
    assert forall|d: Id, k: int| #[trigger] is_kept(o, n, d, k) by {
        if o.messages@.dom().contains(d) && 0 <= k < o.messages@[d]@.len() {
            assert(lists(n.messages@).dom().contains(d));
            assert(lists(n.messages@)[d] == lists(o.messages@)[d]);
            assert(n.messages@[d]@[k] == o.messages@[d]@[k]);
        }
    }
    assert forall|d: Id, k: int| #[trigger] is_kept(n, o, d, k) by {
        if n.messages@.dom().contains(d) && 0 <= k < n.messages@[d]@.len() {
            assert(lists(o.messages@).dom().contains(d));
            assert(lists(n.messages@)[d] == lists(o.messages@)[d]);
            assert(n.messages@[d]@[k] == o.messages@[d]@[k]);
        }
    }
}

proof fn nothing_new_at_all(o: AppState, n: AppState, c: Id, author: Seq<char>, words: Seq<char>)
    requires
        nothing_is_new(o, n),
    ensures
        nothing_else_is_new(o, n, c, author, words),
{
    assert forall|d: Id, k: int| #[trigger] is_old_or(o, n, c, author, words, d, k) by {
        assert(is_kept(n, o, d, k));
    }
}

proof fn one_message_more(o: AppState, n: AppState, c: Id, m: Message)
    requires
        lists(n.messages@) == lists(o.messages@).insert(
            c,
            time_sorted(list_at(lists(o.messages@), c).push(m)),
        ),
        m.channel_id == c,
    ensures
        nothing_is_lost(o, n),
        nothing_else_is_new(o, n, c, m.author.pubkey@, m.content@),
        n.messages@.dom().contains(c),
        n.messages@[c]@.contains(m),
{
    let held = list_at(lists(o.messages@), c);
    let all = held.push(m);
    let is = time_sorted(all);
    time_sorted_facts(all);
    sorting_keeps_ids(all);
    all.to_multiset_ensures();
    is.to_multiset_ensures();
    assert(lists(n.messages@).dom().contains(c) && lists(n.messages@)[c] == is);
    assert(n.messages@[c]@ == is);
    assert(all[held.len() as int] == m);
    assert(is.to_multiset().count(m) > 0);
    assert forall|d: Id, k: int| #[trigger]
        is_old_or(o, n, c, m.author.pubkey@, m.content@, d, k) by {
        if n.messages@.dom().contains(d) && 0 <= k < n.messages@[d]@.len() {
            if d == c {
                assert(all.contains(is[k]));
                let j = choose|j: int| 0 <= j < all.len() && all[j] == is[k];
                if j < held.len() {
                    assert(held[j] == is[k]);
                    assert(lists(o.messages@).dom().contains(c));
                }
            } else {
                assert(lists(n.messages@).dom().contains(d));
                assert(lists(o.messages@).dom().contains(d));
                assert(lists(n.messages@)[d] == lists(o.messages@)[d]);
                assert(o.messages@[d]@[k] == n.messages@[d]@[k]);
            }
        }
    }
    assert forall|d: Id, k: int| #[trigger] is_kept(o, n, d, k) by {
        if o.messages@.dom().contains(d) && 0 <= k < o.messages@[d]@.len() {
            assert(lists(o.messages@).dom().contains(d));
            assert(lists(n.messages@).dom().contains(d));
            if d == c {
                assert(held[k] == o.messages@[d]@[k]);
                assert(all[k] == held[k]);
                assert(all.contains(held[k]));
                assert(is.to_multiset().count(held[k]) > 0);
            } else {
                assert(lists(n.messages@)[d] == lists(o.messages@)[d]);
                assert(n.messages@[d]@[k] == o.messages@[d]@[k]);
            }
        }
    }
}

/// A message that is filed is shown in the conversation with its peer, as written by its
/// author, in its words and at its time. Nothing else is added anywhere, and nothing
/// that was said before is lost. It is news where somebody else wrote it. A message that
/// is known, or that a delete hides, changes no conversation.
pub proof fn a_filed_message_is_shown(
    o: AppState,
    msg: ChatMessage,
    our_pubkey: Seq<char>,
    source: Source,
    now_ms: i64,
    n: AppState,
    news: bool,
)
    requires
        filed(o, msg, our_pubkey, source, now_ms, n, news),
    ensures
        nothing_is_lost(o, n),
        nothing_else_is_new(o, n, conversation(msg.peer@), msg.author@, msg.content@),
        news ==> msg.author@ != our_pubkey,
        n.dms@.len() >= o.dms@.len(),
        forall|i: int|
            0 <= i < n.dms@.len() ==> (i < o.dms@.len() && #[trigger] n.dms@[i] == o.dms@[i]) || (
            n.dms@[i].channel_id == conversation(msg.peer@) && n.dms@[i].other_pubkey@ == msg.peer@),
        source == Source::Relay && o.dm_cleared_at@.dom().contains(msg.peer@) && msg.created_at
            < o.dm_cleared_at@[msg.peer@] ==> n == o && !news,
        holds_id(o, conversation(msg.peer@), message_key(msg.id@)) ==> nothing_is_new(o, n)
            && !news,
        !(source == Source::Relay && o.dm_cleared_at@.dom().contains(msg.peer@) && msg.created_at
            < o.dm_cleared_at@[msg.peer@]) ==> {
            &&& exists|i: int|
                0 <= i < n.dms@.len() && (#[trigger] n.dms@[i]).channel_id == conversation(
                    msg.peer@,
                )
            &&& n.nostr_event_ids@.dom().contains(message_key(msg.id@))
            &&& n.nostr_event_ids@[message_key(msg.id@)] == msg.id
            &&& !holds_id(o, conversation(msg.peer@), message_key(msg.id@)) ==> is_shown(
                n,
                conversation(msg.peer@),
                message_key(msg.id@),
                msg.author@,
                msg.content@,
                msg.created_at,
            ) && news == (msg.author@ != our_pubkey)
        },
{
    let c = conversation(msg.peer@);
    let id = message_key(msg.id@);
    let held = list_at(lists(o.messages@), c);
    let hidden = is_hidden(o.dm_cleared_at@, msg.peer@, msg.created_at, source);
    held_by_id(o, c, id);
    if !hidden {
        if any_where(o.dms@, dm_is(c)) {
            let i = choose|i: int| 0 <= i < o.dms@.len() && dm_is(c)(#[trigger] o.dms@[i]);
            assert(n.dms@[i].channel_id == c);
        } else {
            assert(n.dms@[o.dms@.len() as int].channel_id == c);
        }
    }
    if !hidden && !any_where(held, message_is(id)) {
        let m = choose|m: Message| #[trigger]
            shows(m, msg, shown_at(msg.created_at, now_ms)) && lists(n.messages@) == lists(
                o.messages@,
            ).insert(c, time_sorted(held.push(m)));
        one_message_more(o, n, c, m);
        let is = n.messages@[c]@;
        let k = choose|k: int| 0 <= k < is.len() && is[k] == m;
        assert(n.messages@[c]@[k].author.pubkey@ == msg.author@);
        assert(is_shown(n, c, id, msg.author@, msg.content@, msg.created_at));
    } else {
        the_same_lists(o, n);
        nothing_new_at_all(o, n, c, msg.author@, msg.content@);
    }
}

/// The identifier of a message of ours, by what goes into it: who wrote it, when,
/// to whom, in answer to what, and its words.
pub open spec fn sent_id(
    from: Seq<char>,
    to: Seq<char>,
    words: Seq<char>,
    reply_to: Option<Seq<char>>,
    now: i64,
) -> Seq<char> {
    id_text(
        from,
        now as int,
        14,
        match reply_to {
            None => seq![seq!["p"@, to]],
            Some(id) => seq![seq!["p"@, to], seq!["e"@, id, Seq::empty(), "reply"@]],
        },
        words,
    )
}

/// What was sent, and what was filed for it.
#[verifier::rlimit(100)]
#[verifier::spinoff_prover]
proof fn what_went(
    o: AppState,
    secret: Seq<u8>,
    our_pubkey: Seq<char>,
    peer: Seq<char>,
    words: Seq<char>,
    reply_to: Option<Seq<char>>,
    now: i64,
    n: AppState,
    out: Seq<Event>,
) -> (r: (Rumor, ChatMessage, bool))
    requires
        message_went(o, secret, our_pubkey, peer, words, reply_to, now, n, out),
    ensures
        out.len() == 0 || out.len() == 2,
        out.len() == 0 ==> n == (AppState { error_toast: n.error_toast, ..o }) && n.error_toast
            is Some,
        out.len() == 2 ==> sent_as(
            secret,
            our_pubkey,
            peer,
            words,
            reply_to,
            now,
            r.0,
            Ok((out[0], out[1])),
        ),
        out.len() == 2 ==> filed(
            o,
            r.1,
            our_pubkey,
            Source::Ours,
            (now * 1000) as i64,
            n,
            r.2,
        ) && r.1.id == r.0.id && r.1.author@ == our_pubkey && r.1.peer@ == peer && r.1.content@
            == words && r.1.created_at == now,
{
    let (rumor, sent) = choose|rumor: Rumor, sent: Result<(Event, Event), String>|
        {
            &&& #[trigger] sent_as(secret, our_pubkey, peer, words, reply_to, now, rumor, sent)
            &&& match sent {
                Ok((theirs, ours)) => out == seq![theirs, ours] && exists|
                    msg: ChatMessage,
                    news: bool,
                |
                    {
                        &&& #[trigger] filed(
                            o,
                            msg,
                            our_pubkey,
                            Source::Ours,
                            (now * 1000) as i64,
                            n,
                            news,
                        )
                        &&& msg.id == rumor.id
                        &&& msg.author@ == our_pubkey
                        &&& msg.peer@ == peer
                        &&& msg.content@ == words
                        &&& msg.created_at == now
                    },
                Err(e) => out.len() == 0 && n == (AppState { error_toast: n.error_toast, ..o })
                    && n.error_toast is Some && n.error_toast->Some_0@ == "Not sent — "@ + e@,
            }
        };
    match sent {
        Ok((theirs, ours)) => {
            let (msg, news) = choose|msg: ChatMessage, news: bool|
                {
                    &&& #[trigger] filed(
                        o,
                        msg,
                        our_pubkey,
                        Source::Ours,
                        (now * 1000) as i64,
                        n,
                        news,
                    )
                    &&& msg.id == rumor.id
                    &&& msg.author@ == our_pubkey
                    &&& msg.peer@ == peer
                    &&& msg.content@ == words
                    &&& msg.created_at == now
                };
            assert(out[0] == theirs && out[1] == ours);
            (rumor, msg, news)
        },
        Err(e) => {
            let any: (Rumor, ChatMessage, bool) = arbitrary();
            any
        },
    }
}

/// A copy that goes out is a gift wrap that verifies and names nobody but the one it is
/// for.
proof fn a_copy_is_a_wrap(
    sender: Seq<u8>,
    recipient: Seq<char>,
    rumor: Rumor,
    now: i64,
    gift: Event,
)
    requires
        wrapped(sender, recipient, rumor, now, Ok(gift)),
    ensures
        gift.kind == 1059,
        gift.verifies(),
        text_rows(gift.tags@) == seq![seq!["p"@, recipient]],
        now - 172_800 <= gift.created_at <= now,
{
    let seal = choose|seal: Event| #[trigger]
        seals(seal, sender, recipient, rumor.json(), now) && if encode_utf8(rumor.json()).len()
            <= MAX_WRAPPED {
            wraps(gift, recipient, seal.json(), now)
        } else {
            false
        };
    assert(wraps(gift, recipient, seal.json(), now));
}

/// A message that was sent is shown at once in the conversation with the one it went to,
/// as written by us, in the words that were typed. Nothing else is added, nothing is
/// lost, and two copies go out. What could not be sent is not shown, nothing goes out,
/// and that is said.
pub proof fn a_sent_message_is_shown_as_ours(
    o: AppState,
    secret: Seq<u8>,
    our_pubkey: Seq<char>,
    peer: Seq<char>,
    words: Seq<char>,
    reply_to: Option<Seq<char>>,
    now: i64,
    n: AppState,
    out: Seq<Event>,
)
    requires
        message_went(o, secret, our_pubkey, peer, words, reply_to, now, n, out),
        i64::MIN / 1000 < now < i64::MAX / 1000,
    ensures
        out.len() == 0 || out.len() == 2,
        nothing_is_lost(o, n),
        nothing_else_is_new(o, n, conversation(peer), our_pubkey, words),
        out.len() == 2 && !holds_id(
            o,
            conversation(peer),
            message_key(sent_id(our_pubkey, peer, words, reply_to, now)),
        ) ==> is_shown(
            n,
            conversation(peer),
            message_key(sent_id(our_pubkey, peer, words, reply_to, now)),
            our_pubkey,
            words,
            now,
        ),
        out.len() == 2 ==> n.error_toast == o.error_toast,
        out.len() == 2 ==> exists|i: int|
            0 <= i < n.dms@.len() && (#[trigger] n.dms@[i]).channel_id == conversation(peer),
        out.len() == 0 ==> n.messages == o.messages && n.dms == o.dms && n.error_toast is Some,
{
    let (rumor, msg, news) = what_went(
        o,
        secret,
        our_pubkey,
        peer,
        words,
        reply_to,
        now,
        n,
        out,
    );
    if out.len() == 2 {
        a_filed_message_is_shown(o, msg, our_pubkey, Source::Ours, (now * 1000) as i64, n, news);
        the_id_of_what_was_sent(
            secret,
            our_pubkey,
            peer,
            words,
            reply_to,
            now,
            rumor,
            Ok((out[0], out[1])),
        );
    } else {
        the_same_lists(o, n);
        nothing_new_at_all(o, n, conversation(peer), our_pubkey, words);
    }
}

proof fn the_id_of_what_was_sent(
    secret: Seq<u8>,
    from: Seq<char>,
    to: Seq<char>,
    words: Seq<char>,
    reply_to: Option<Seq<char>>,
    now: i64,
    rumor: Rumor,
    r: Result<(Event, Event), String>,
)
    requires
        sent_as(secret, from, to, words, reply_to, now, rumor, r),
    ensures
        rumor.id@ == sent_id(from, to, words, reply_to, now),
{
    assert(text_rows(rumor.tags@) == match reply_to {
        None => seq![seq!["p"@, to]],
        Some(id) => seq![seq!["p"@, to], seq!["e"@, id, Seq::empty(), "reply"@]],
    });
}

/// What goes out of a message: a wrap for the one it is sent to, and one for ourselves.
/// Each verifies, is dated within the last two days, and names nobody else.
#[verifier::rlimit(100)]
#[verifier::spinoff_prover]
pub proof fn two_copies_go_out(
    o: AppState,
    secret: Seq<u8>,
    our_pubkey: Seq<char>,
    peer: Seq<char>,
    words: Seq<char>,
    reply_to: Option<Seq<char>>,
    now: i64,
    n: AppState,
    out: Seq<Event>,
)
    requires
        message_went(o, secret, our_pubkey, peer, words, reply_to, now, n, out),
        out.len() > 0,
    ensures
        out.len() == 2,
        out[0].kind == 1059 && out[0].verifies() && now - 172_800 <= out[0].created_at <= now,
        out[1].kind == 1059 && out[1].verifies() && now - 172_800 <= out[1].created_at <= now,
        text_rows(out[0].tags@) == seq![seq!["p"@, peer]],
        text_rows(out[1].tags@) == seq![seq!["p"@, hex_text(public_x(secret))]],
{
    let (rumor, msg, news) = what_went(
        o,
        secret,
        our_pubkey,
        peer,
        words,
        reply_to,
        now,
        n,
        out,
    );
    a_copy_is_a_wrap(secret, peer, rumor, now, out[0]);
    a_copy_is_a_wrap(secret, hex_text(public_x(secret)), rumor, now, out[1]);
}

/// What one sends the other receives: the copy for the recipient, received with the
/// recipient's secret, shows there, in the conversation with the sender, a message by
/// the sender's key in the words that were typed, unless it was known there or a delete
/// hides it. To them it is news.
pub proof fn what_is_sent_is_received<F, G>(
    o: AppState,
    alice: Seq<u8>,
    bob: Seq<u8>,
    words: Seq<char>,
    reply_to: Option<Seq<char>>,
    now: i64,
    n: AppState,
    out: Seq<Event>,
    at_bob: AppState,
    later_ms: i64,
    read_event: F,
    read_rumor: G,
    then: AppState,
    news: bool,
) where F: Fn(&str) -> Result<Event, String>, G: Fn(&str) -> Result<Rumor, String>
    requires
        names_secret(hex_text(public_x(alice)), alice),
        names_secret(hex_text(public_x(bob)), bob),
        hex_text(public_x(alice)) != hex_text(public_x(bob)),
        message_went(
            o,
            alice,
            hex_text(public_x(alice)),
            hex_text(public_x(bob)),
            words,
            reply_to,
            now,
            n,
            out,
        ),
        out.len() > 0,
        faithful(read_event, read_rumor),
        received(
            at_bob,
            bob,
            hex_text(public_x(bob)),
            out[0],
            later_ms,
            read_event,
            read_rumor,
            then,
            news,
        ),
    ensures
        nothing_is_lost(at_bob, then),
        nothing_else_is_new(
            at_bob,
            then,
            conversation(hex_text(public_x(alice))),
            hex_text(public_x(alice)),
            words,
        ),
        ({
            let a = hex_text(public_x(alice));
            let b = hex_text(public_x(bob));
            let id = message_key(sent_id(a, b, words, reply_to, now));
            !holds_id(at_bob, conversation(a), id) && !(at_bob.dm_cleared_at@.dom().contains(a)
                && now < at_bob.dm_cleared_at@[a]) ==> news && is_shown(
                then,
                conversation(a),
                id,
                a,
                words,
                now,
            )
        }),
{
    let a = hex_text(public_x(alice));
    let b = hex_text(public_x(bob));
    let (rumor, shown, ours) = what_went(o, alice, a, b, words, reply_to, now, n, out);
    the_id_of_what_was_sent(alice, a, b, words, reply_to, now, rumor, Ok((out[0], out[1])));
    let (opened, msg) = choose|opened: Result<Rumor, String>, msg: Result<ChatMessage, String>|
        {
            &&& #[trigger] unwrapped(bob, out[0], read_event, read_rumor, opened)
            &&& #[trigger] reads(opened, b, msg)
            &&& match msg {
                Ok(m) => filed(at_bob, m, b, Source::Relay, later_ms, then, news),
                Err(_) => then == at_bob && !news,
            }
        };
    a_wrap_opens(alice, b, bob, rumor, now, out[0], read_event, read_rumor, opened);
    the_recipient_is_named(b, reply_to);
    let m = msg->Ok_0;
    assert(msg is Ok && m.author@ == a && m.peer@ == a && m.content@ == words);
    a_filed_message_is_shown(at_bob, m, b, Source::Relay, later_ms, then, news);
}

proof fn the_recipient_is_named(to: Seq<char>, reply_to: Option<Seq<char>>)
    ensures
        tag_value(chat_tags(to, reply_to), "p"@) == Some(to),
{
    let rows = chat_tags(to, reply_to);
    assert(rows[0] =~= seq!["p"@, to]);
}

/// A gift wrap that is received shows what its rumor says: everything that is new stands
/// in the conversation with the one who wrote it, or, where we did, with the one it is
/// addressed to; it is by the key that the rumor names, and in the rumor's words. What
/// does not open, or is no chat message of ours, changes nothing.
pub proof fn a_received_message_is_shown_as_its_authors<F, G>(
    o: AppState,
    secret: Seq<u8>,
    our_pubkey: Seq<char>,
    gift: Event,
    now_ms: i64,
    read_event: F,
    read_rumor: G,
    n: AppState,
    news: bool,
) where F: Fn(&str) -> Result<Event, String>, G: Fn(&str) -> Result<Rumor, String>
    requires
        received(o, secret, our_pubkey, gift, now_ms, read_event, read_rumor, n, news),
    ensures
        nothing_is_lost(o, n),
        n == o && !news || exists|rumor: Rumor|
            {
                let to = tag_value(text_rows(rumor.tags@), "p"@)->Some_0;
                let peer = if rumor.pubkey@ == our_pubkey {
                    to
                } else {
                    rumor.pubkey@
                };
                &&& #[trigger] unwrapped(
                    secret,
                    gift,
                    read_event,
                    read_rumor,
                    Ok::<Rumor, String>(rumor),
                )
                &&& rumor.kind == 14
                &&& tag_value(text_rows(rumor.tags@), "p"@) is Some
                &&& rumor.pubkey@ == our_pubkey || to == our_pubkey
                &&& nothing_else_is_new(
                    o,
                    n,
                    conversation(peer),
                    rumor.pubkey@,
                    rumor.content@,
                )
                &&& news ==> rumor.pubkey@ != our_pubkey && is_shown(
                    n,
                    conversation(rumor.pubkey@),
                    message_key(rumor.id@),
                    rumor.pubkey@,
                    rumor.content@,
                    rumor.created_at,
                )
                &&& !holds_id(o, conversation(peer), message_key(rumor.id@)) && !(
                o.dm_cleared_at@.dom().contains(peer) && rumor.created_at < o.dm_cleared_at@[peer])
                    ==> is_shown(
                    n,
                    conversation(peer),
                    message_key(rumor.id@),
                    rumor.pubkey@,
                    rumor.content@,
                    rumor.created_at,
                )
            },
{
    let (opened, msg) = choose|opened: Result<Rumor, String>, msg: Result<ChatMessage, String>|
        {
            &&& #[trigger] unwrapped(secret, gift, read_event, read_rumor, opened)
            &&& #[trigger] reads(opened, our_pubkey, msg)
            &&& match msg {
                Ok(m) => filed(o, m, our_pubkey, Source::Relay, now_ms, n, news),
                Err(_) => n == o && !news,
            }
        };
    match msg {
        Ok(m) => {
            a_filed_message_is_shown(o, m, our_pubkey, Source::Relay, now_ms, n, news);
            let rumor = opened->Ok_0;
            let to = tag_value(text_rows(rumor.tags@), "p"@)->Some_0;
            assert(tag_value(text_rows(rumor.tags@), "p"@) == Some(to));
        },
        Err(_) => {
            the_same_lists(o, n);
        },
    }
}

/// The service does just what it is asked to: a text goes out to the one it is for and to
/// ourselves, opening a conversation sends nothing, and a contact is kept or dropped with
/// one list that goes out.
pub proof fn the_service_does_what_it_is_asked(
    o: AppState,
    secret: Seq<u8>,
    us: Seq<char>,
    cmd: NostrCmd,
    now: i64,
    n: AppState,
    out: Seq<Event>,
)
    requires
        obeyed(o, secret, us, cmd, now, n, out),
        i64::MIN / 1000 < now < i64::MAX / 1000,
    ensures
        nothing_is_lost(o, n),
        cmd matches NostrCmd::Send { peer, text, .. } ==> nothing_else_is_new(
            o,
            n,
            conversation(peer@),
            us,
            text@,
        ) && (out.len() == 0 || out.len() == 2) && n.contacts == o.contacts,
        cmd matches NostrCmd::Open { peer } ==> out.len() == 0 && n.selected_channel == Some(
            conversation(peer@),
        ) && n.messages == o.messages && n.contacts == o.contacts,
        cmd matches NostrCmd::SetContact { peer, keep } ==> out.len() == 1 && out[0].kind == 3
            && n.messages == o.messages && n.dms == o.dms && (keep == exists|i: int|
            0 <= i < n.contacts@.len() && (#[trigger] n.contacts@[i]).pubkey == peer@),
{
    match cmd {
        NostrCmd::Send { peer, text, reply_to } => {
            a_sent_message_is_shown_as_ours(
                o,
                secret,
                us,
                peer@,
                text@,
                opt_text(reply_to),
                now,
                n,
                out,
            );
            if out.len() == 2 {
                let (rumor, msg, news) = what_went(
                    o,
                    secret,
                    us,
                    peer@,
                    text@,
                    opt_text(reply_to),
                    now,
                    n,
                    out,
                );
                assert(n.contacts == o.contacts);
            } else {
                let (rumor, msg, news) = what_went(
                    o,
                    secret,
                    us,
                    peer@,
                    text@,
                    opt_text(reply_to),
                    now,
                    n,
                    out,
                );
                assert(n.contacts == o.contacts);
            }
        },
        NostrCmd::Open { .. } => {
            the_same_lists(o, n);
        },
        NostrCmd::SetContact { peer, keep } => {
            the_same_lists(o, n);
            contacts_follow_the_command(o, secret, peer@, keep, now, n, out[0]);
            assert(is_contact(n, peer@) == keep);
        },
    }
}

/// Whoever opens a wrap opens only what was signed: the wrap and the seal in it verify,
/// and the rumor that comes out names the key that signed the seal and has its own id.
pub proof fn only_what_was_signed_opens(
    secret: Seq<u8>,
    gift: Event,
    seal: Event,
    rumor: Rumor,
    r: Result<Rumor, String>,
)
    ensures
        opened_gift(secret, gift) is Ok ==> gift.kind == 1059 && gift.verifies(),
        opened_seal(secret, seal) is Ok ==> seal.kind == 13 && seal.verifies(),
        taken(seal.pubkey@, rumor, r) && r is Ok ==> r->Ok_0 == rumor && rumor.pubkey@
            == seal.pubkey@ && rumor.identified(),
        taken(seal.pubkey@, rumor, r) && rumor.pubkey@ == seal.pubkey@ && rumor.identified() ==> r
            is Ok,
{
}

} // verus!
