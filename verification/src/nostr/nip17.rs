//! NIP-17 chat: what a gift-wrapped rumor says, and to whom.
//!
//! Every message is wrapped twice, once for its recipient and once for its
//! sender, because a wrap opens only for the key it was addressed to.

use crate::crypto::{SecretKey, hex_round_trip, hex_text, names_secret, public_x};
use crate::nostr::event::{Event, Rumor, rumor, sign_with, tag_value, xonly_hex};
use crate::nostr::nip44::{fits, shared_key};
use crate::nostr::nip59::{
    MAX_BACKDATE, MAX_WRAPPED, a_wrap_opens, faithful, unwrap, unwrapped, wrap, wrapped,
};
use crate::text::{decimal, decimal_text, opt_str, opt_text, same, text_rows, texts};
use vstd::prelude::*;
use vstd::string::*;
use vstd::utf8::*;

verus! {

pub const KIND_CHAT: u16 = 14;

pub const KIND_DM_RELAYS: u16 = 10050;

/// A message of a conversation, as one of its two sides sees it.
#[derive(Debug, Clone, PartialEq, Eq)]
pub struct ChatMessage {
    pub id: String,
    pub author: String,
    pub peer: String,
    pub content: String,
    pub created_at: i64,
    pub reply_to: Option<String>,
}

/// The tags of a chat message: its recipient, and the message it answers.
pub open spec fn chat_tags(to: Seq<char>, reply_to: Option<Seq<char>>) -> Seq<Seq<Seq<char>>> {
    match reply_to {
        None => seq![seq!["p"@, to]],
        Some(id) => seq![seq!["p"@, to], seq!["e"@, id, Seq::empty(), "reply"@]],
    }
}

/// Writes a chat message.
pub fn chat_rumor(
    from_pubkey: &str,
    to_pubkey: &str,
    text: &str,
    reply_to: Option<&str>,
    now: i64,
) -> (r: Rumor)
    ensures
        r.identified(),
        r.pubkey@ == from_pubkey@,
        r.created_at == now,
        r.kind == KIND_CHAT,
        r.content@ == text@,
        text_rows(r.tags@) == chat_tags(to_pubkey@, opt_str(reply_to)),
{
    let mut recipient: Vec<String> = Vec::new();
    recipient.push("p".to_owned());
    recipient.push(to_pubkey.to_owned());
    assert(texts(recipient@) =~= seq!["p"@, to_pubkey@]);
    let mut tags: Vec<Vec<String>> = Vec::new();
    tags.push(recipient);
    if let Some(id) = reply_to {
        let mut parent: Vec<String> = Vec::new();
        parent.push("e".to_owned());
        parent.push(id.to_owned());
        parent.push(String::new());
        parent.push("reply".to_owned());
        assert(texts(parent@) =~= seq!["e"@, id@, Seq::empty(), "reply"@]);
        tags.push(parent);
    }
    assert(text_rows(tags@) =~= chat_tags(to_pubkey@, opt_str(reply_to)));
    rumor(from_pubkey, now, KIND_CHAT, tags, text.to_owned())
}

/// Wraps a rumor for its recipient and for its sender.
pub fn wrap_both(sender_secret: &SecretKey, recipient_pubkey: &str, rumor: &Rumor, now: i64) -> (r:
    Result<(Event, Event), String>)
    requires
        now >= i64::MIN + MAX_BACKDATE,
    ensures
        r is Ok <==> shared_key(sender_secret@, recipient_pubkey@) is Ok && fits(
            encode_utf8(rumor.json()).len(),
        ) && encode_utf8(rumor.json()).len() <= MAX_WRAPPED,
        r is Ok ==> wrapped(sender_secret@, recipient_pubkey@, *rumor, now, Ok(r->Ok_0.0)),
        r is Ok ==> wrapped(
            sender_secret@,
            hex_text(public_x(sender_secret@)),
            *rumor,
            now,
            Ok(r->Ok_0.1),
        ),
        r is Err ==> wrapped(sender_secret@, recipient_pubkey@, *rumor, now, Err(r->Err_0)),
{
    let theirs: Event = match wrap(sender_secret, recipient_pubkey, rumor, now) {
        Ok(theirs) => theirs,
        Err(e) => {
            return Err(e);
        },
    };
    let our_pubkey: String = xonly_hex(sender_secret);
    proof {
        hex_round_trip(public_x(sender_secret@));
        assert(shared_key(sender_secret@, our_pubkey@) is Ok);
    }
    match wrap(sender_secret, our_pubkey.as_str(), rumor, now) {
        Ok(ours) => Ok((theirs, ours)),
        Err(e) => Err(e),
    }
}

/// Whom a chat message is addressed to.
pub fn recipient_of(rumor: &Rumor) -> (r: Option<String>)
    ensures
        opt_text(r) == tag_value(text_rows(rumor.tags@), "p"@),
{
    match rumor.tag("p") {
        Some(p) => Some(p.to_owned()),
        None => None,
    }
}

/// Whether a rumor becomes this message, or is refused with these words, for the
/// one whose key is `our_pubkey`.
pub open spec fn read_as(rumor: Rumor, our_pubkey: Seq<char>, r: Result<ChatMessage, String>)
    -> bool {
    let recipient = tag_value(text_rows(rumor.tags@), "p"@);
    if rumor.kind != KIND_CHAT {
        r is Err && r->Err_0@ == "not a chat message (kind "@ + decimal(rumor.kind as nat) + ")"@
    } else if recipient is None {
        r is Err && r->Err_0@ == "a chat message must name its recipient"@
    } else if rumor.pubkey@ != our_pubkey && recipient != Some(our_pubkey) {
        r is Err && r->Err_0@ == "this message is not part of a conversation we are in"@
    } else {
        &&& r is Ok
        &&& r->Ok_0.id@ == rumor.id@
        &&& r->Ok_0.author@ == rumor.pubkey@
        &&& r->Ok_0.peer@ == if rumor.pubkey@ == our_pubkey {
            recipient->Some_0
        } else {
            rumor.pubkey@
        }
        &&& r->Ok_0.content@ == rumor.content@
        &&& r->Ok_0.created_at == rumor.created_at
        &&& opt_text(r->Ok_0.reply_to) == tag_value(text_rows(rumor.tags@), "e"@)
    }
}

/// Reads a rumor as a chat message of ours.
pub fn chat_message(rumor: &Rumor, our_pubkey: &str) -> (r: Result<ChatMessage, String>)
    ensures
        read_as(*rumor, our_pubkey@, r),
{
    if rumor.kind != KIND_CHAT {
        return Err(
            "not a chat message (kind ".to_owned().concat(
                decimal_text(rumor.kind as u64).as_str(),
            ).concat(")"),
        );
    }
    let recipient: String = match recipient_of(rumor) {
        Some(recipient) => recipient,
        None => {
            return Err("a chat message must name its recipient".to_owned());
        },
    };
    let ours: bool = same(rumor.pubkey.as_str(), our_pubkey);
    if !ours && !same(recipient.as_str(), our_pubkey) {
        return Err("this message is not part of a conversation we are in".to_owned());
    }
    let peer: String = if ours {
        recipient
    } else {
        rumor.pubkey.clone()
    };
    let reply_to: Option<String> = match rumor.tag("e") {
        Some(id) => Some(id.to_owned()),
        None => None,
    };
    Ok(
        ChatMessage {
            id: rumor.id.clone(),
            author: rumor.pubkey.clone(),
            peer,
            content: rumor.content.clone(),
            created_at: rumor.created_at,
            reply_to,
        },
    )
}

/// Opens a gift wrap and reads it as a chat message of ours. The two readers turn
/// JSON into an event and into a rumor.
pub fn open_chat<F, G>(
    our_secret: &SecretKey,
    our_pubkey: &str,
    gift: &Event,
    read_event: F,
    read_rumor: G,
) -> (r: Result<ChatMessage, String>) where
    F: Fn(&str) -> Result<Event, String>,
    G: Fn(&str) -> Result<Rumor, String>,

    requires
        forall|text: &str| read_event.requires((text,)),
        forall|text: &str| read_rumor.requires((text,)),
    ensures
        exists|opened: Result<Rumor, String>|
            {
                &&& #[trigger] unwrapped(our_secret@, *gift, read_event, read_rumor, opened)
                &&& match opened {
                    Err(e) => r is Err && r->Err_0@ == e@,
                    Ok(rumor) => read_as(rumor, our_pubkey@, r),
                }
            },
{
    let opened: Result<Rumor, String> = unwrap(our_secret, gift, read_event, read_rumor);
    assert(unwrapped(our_secret@, *gift, read_event, read_rumor, opened));
    match &opened {
        Ok(rumor) => chat_message(rumor, our_pubkey),
        Err(e) => Err(e.clone()),
    }
}

/// Both sides read one message: the recipient sees its author as the peer, the
/// author sees its recipient, and the rest is the same.
pub proof fn both_sides_agree(
    rumor: Rumor,
    from: Seq<char>,
    to: Seq<char>,
    reply_to: Option<Seq<char>>,
    at_recipient: Result<ChatMessage, String>,
    at_author: Result<ChatMessage, String>,
)
    requires
        rumor.kind == KIND_CHAT,
        rumor.pubkey@ == from,
        text_rows(rumor.tags@) == chat_tags(to, reply_to),
        read_as(rumor, to, at_recipient),
        read_as(rumor, from, at_author),
    ensures
        at_recipient is Ok && at_author is Ok,
        at_author->Ok_0.peer@ == to,
        from != to ==> at_recipient->Ok_0.peer@ == from,
        at_recipient->Ok_0.id@ == at_author->Ok_0.id@,
        at_recipient->Ok_0.author@ == from && at_author->Ok_0.author@ == from,
        at_recipient->Ok_0.content@ == at_author->Ok_0.content@,
        opt_text(at_recipient->Ok_0.reply_to) == reply_to,
        opt_text(at_author->Ok_0.reply_to) == reply_to,
{
    let rows = chat_tags(to, reply_to);
    reveal_strlit("p");
    reveal_strlit("e");
    assert("p"@[0] != "e"@[0]);
    assert(rows[0] =~= seq!["p"@, to]);
    assert(tag_value(rows, "p"@) == Some(to));
    match reply_to {
        None => {
            assert(rows.drop_first() =~= Seq::empty());
            assert(tag_value(rows.drop_first(), "e"@) is None);
        },
        Some(id) => {
            assert(rows.drop_first()[0] =~= seq!["e"@, id, Seq::empty(), "reply"@]);
            assert(tag_value(rows.drop_first(), "e"@) == Some(id));
        },
    }
}

/// A chat message that was wrapped for both sides is read alike on both: with the
/// same id, author, content and parent, each side naming the other as its peer.
pub proof fn both_copies_read_alike<F, G>(
    alice: Seq<u8>,
    bob: Seq<u8>,
    rumor: Rumor,
    reply_to: Option<Seq<char>>,
    now: i64,
    copies: (Event, Event),
    read_event: F,
    read_rumor: G,
    opened: (Result<Rumor, String>, Result<Rumor, String>),
    at_bob: Result<ChatMessage, String>,
    at_alice: Result<ChatMessage, String>,
) where F: Fn(&str) -> Result<Event, String>, G: Fn(&str) -> Result<Rumor, String>
    requires
        rumor.identified(),
        rumor.kind == KIND_CHAT,
        rumor.pubkey@ == hex_text(public_x(alice)),
        text_rows(rumor.tags@) == chat_tags(hex_text(public_x(bob)), reply_to),
        names_secret(hex_text(public_x(alice)), alice),
        names_secret(hex_text(public_x(bob)), bob),
        wrapped(alice, hex_text(public_x(bob)), rumor, now, Ok(copies.0)),
        wrapped(alice, hex_text(public_x(alice)), rumor, now, Ok(copies.1)),
        faithful(read_event, read_rumor),
        unwrapped(bob, copies.0, read_event, read_rumor, opened.0),
        unwrapped(alice, copies.1, read_event, read_rumor, opened.1),
        opened.0 is Ok ==> read_as(opened.0->Ok_0, hex_text(public_x(bob)), at_bob),
        opened.1 is Ok ==> read_as(opened.1->Ok_0, hex_text(public_x(alice)), at_alice),
    ensures
        opened.0 == Ok::<Rumor, String>(rumor) && opened.1 == Ok::<Rumor, String>(rumor),
        at_bob is Ok && at_alice is Ok,
        at_alice->Ok_0.peer@ == hex_text(public_x(bob)),
        at_bob->Ok_0.author@ == hex_text(public_x(alice)),
        at_alice->Ok_0.author@ == hex_text(public_x(alice)),
        at_bob->Ok_0.id@ == at_alice->Ok_0.id@,
        at_bob->Ok_0.content@ == at_alice->Ok_0.content@,
        opt_text(at_bob->Ok_0.reply_to) == reply_to,
        opt_text(at_alice->Ok_0.reply_to) == reply_to,
        hex_text(public_x(alice)) != hex_text(public_x(bob)) ==> at_bob->Ok_0.peer@ == hex_text(
            public_x(alice),
        ),
{
    let a = hex_text(public_x(alice));
    let b = hex_text(public_x(bob));
    a_wrap_opens(alice, b, bob, rumor, now, copies.0, read_event, read_rumor, opened.0);
    a_wrap_opens(alice, a, alice, rumor, now, copies.1, read_event, read_rumor, opened.1);
    both_sides_agree(rumor, a, b, reply_to, at_bob, at_alice);
}

/// The rows of a list of relays.
pub open spec fn relay_rows(relays: Seq<Seq<char>>) -> Seq<Seq<Seq<char>>> {
    relays.map_values(|r: Seq<char>| seq!["relay"@, r])
}

/// The relays that rows name.
pub open spec fn relays_in(rows: Seq<Seq<Seq<char>>>) -> Seq<Seq<char>>
    decreases rows.len(),
{
    if rows.len() == 0 {
        Seq::empty()
    } else {
        let row = rows.last();
        let before = relays_in(rows.drop_last());
        if row.len() > 1 && row[0] == "relay"@ {
            before.push(row[1])
        } else {
            before
        }
    }
}

/// Publishes where direct messages for us should be sent.
pub fn dm_relay_list(secret: &SecretKey, relays: &Vec<String>, now: i64) -> (r: Event)
    ensures
        r.verifies(),
        r.pubkey@ == hex_text(public_x(secret@)),
        r.created_at == now,
        r.kind == KIND_DM_RELAYS,
        r.content@ == Seq::<char>::empty(),
        text_rows(r.tags@) == relay_rows(texts(relays@)),
{
    let mut tags: Vec<Vec<String>> = Vec::new();
    let mut i: usize = 0;
    while i < relays.len()
        invariant
            i <= relays@.len(),
            tags@.len() == i,
            forall|j: int|
                0 <= j < i ==> texts((#[trigger] tags@[j])@) == seq!["relay"@, relays@[j]@],
        decreases relays@.len() - i,
    {
        let mut tag: Vec<String> = Vec::new();
        tag.push("relay".to_owned());
        tag.push(relays[i].clone());
        assert(texts(tag@) =~= seq!["relay"@, relays@[i as int]@]);
        tags.push(tag);
        i = i + 1;
    }
    assert(text_rows(tags@) =~= relay_rows(texts(relays@)));
    sign_with(secret, now, KIND_DM_RELAYS, tags, String::new())
}

/// The relays that an event of the right kind names.
pub fn parse_dm_relay_list(event: &Event) -> (r: Vec<String>)
    ensures
        texts(r@) == if event.kind == KIND_DM_RELAYS {
            relays_in(text_rows(event.tags@))
        } else {
            Seq::empty()
        },
{
    let mut out: Vec<String> = Vec::new();
    assert(texts(out@) =~= Seq::empty());
    if event.kind != KIND_DM_RELAYS {
        return out;
    }
    let ghost rows = text_rows(event.tags@);
    let mut i: usize = 0;
    assert(rows.take(0) =~= Seq::empty());
    while i < event.tags.len()
        invariant
            i <= event.tags@.len(),
            rows == text_rows(event.tags@),
            texts(out@) == relays_in(rows.take(i as int)),
        decreases event.tags@.len() - i,
    {
        let row: &Vec<String> = &event.tags[i];
        let ghost before = out@;
        assert(rows.take(i + 1).drop_last() =~= rows.take(i as int));
        assert(rows.take(i + 1).last() == texts(row@));
        if row.len() > 1 && same(row[0].as_str(), "relay") {
            out.push(row[1].clone());
            assert(texts(out@) =~= texts(before).push(row@[1]@));
        }
        i = i + 1;
    }
    assert(rows.take(i as int) =~= rows);
    out
}

/// Reading a published relay list gives the list that was published.
pub proof fn relay_list_round_trip(relays: Seq<Seq<char>>)
    ensures
        relays_in(relay_rows(relays)) == relays,
    decreases relays.len(),
{
    if relays.len() > 0 {
        relay_list_round_trip(relays.drop_last());
        assert(relay_rows(relays).drop_last() =~= relay_rows(relays.drop_last()));
        assert(relays.drop_last().push(relays.last()) =~= relays);
    } else {
        assert(relays =~= Seq::empty());
    }
}

} // verus!
