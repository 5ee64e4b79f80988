//! Direct messages over relays: how conversations and messages are named, filed
//! and sent.
//!
//! Conversations and messages are known elsewhere by identifiers of one size, so
//! theirs are derived: the same key gives the same identifier on every device.

use crate::crypto::{SecretKey, be_int, hex_text, is_hex_digit, public_x, sha256, sha256_digest};
use crate::identity::{Identity, ascii_is_cuttable, cuttable, truncate_pubkey, truncated};
use crate::list::{any_where, list_at, lists};
use crate::nostr::event::{Event, Rumor};
use crate::nostr::metadata::{KIND_METADATA, name_from, published_name};
use crate::nostr::nip02::{
    Contact, ContactList, ContactView, KIND_CONTACTS, contact_list_event, contact_row, contacts_in,
    is_pubkey, is_pubkey_text, others, parse_contact_list, replaced,
};
use crate::nostr::nip17::{
    ChatMessage, KIND_CHAT, KIND_DM_RELAYS, chat_message, chat_rumor, chat_tags, read_as, wrap_both,
};
use crate::nostr::nip59::{KIND_GIFT_WRAP, opened_by_its_author, unwrap, unwrapped, wrapped};
use crate::nostr::relay::{Filter, RelayEvent};
use crate::protocol::{Id, Message, User, copy_texts};
use crate::state::{
    AppState, DmInfo, by_time, dm_is, holds_message, ids_differ, message_is, sort_by_time,
    sorting_keeps_ids, time_sorted, time_sorted_facts,
};
use crate::table::IdTable;
use crate::text::{append_bytes, contains_text, opt_text, same, text_rows, texts};
use vstd::prelude::*;
use vstd::string::*;
use vstd::utf8::*;

verus! {

/// The subscription that carries gift wraps and our own lists.
pub const SUB_DM: &'static str = "dxf-dm";

/// The subscription that carries names. It has an id of its own because it is
/// asked for again whenever somebody new appears.
pub const SUB_NAMES: &'static str = "dxf-names";

/// How many keys the name subscription asks about at most.
pub const NAME_AUTHOR_CAP: usize = 256;

/// The identifier that a digest begins with.
pub open spec fn leading_id(digest: Seq<u8>) -> Id {
    Id { value: be_int(digest.take(16)) as u128 }
}

/// The identifier of the conversation with a key.
pub open spec fn conversation(peer: Seq<char>) -> Id {
    leading_id(sha256(encode_utf8("dxf/nostr-dm/conversation/v1"@) + encode_utf8(peer)))
}

/// The identifier of a message.
pub open spec fn message_key(event_id: Seq<char>) -> Id {
    leading_id(sha256(encode_utf8("dxf/nostr-dm/message/v1"@) + encode_utf8(event_id)))
}

/// Two hundred and fifty-six to a power.
pub open spec fn pow256(n: nat) -> int
    decreases n,
{
    if n == 0 {
        1
    } else {
        256 * pow256((n - 1) as nat)
    }
}

proof fn be_int_bound(b: Seq<u8>)
    ensures
        0 <= be_int(b) < pow256(b.len()),
    decreases b.len(),
{
    if b.len() > 0 {
        be_int_bound(b.drop_last());
    }
}

proof fn pow256_grows(n: nat, m: nat)
    requires
        n <= m,
    ensures
        1 <= pow256(n) <= pow256(m),
    decreases m,
{
    if n < m {
        pow256_grows(n, (m - 1) as nat);
    } else if n > 0 {
        pow256_grows((n - 1) as nat, (n - 1) as nat);
    }
}

fn id_from(digest: &[u8; 32]) -> (r: Id)
    ensures
        r == leading_id(digest@),
{
    let mut value: u128 = 0;
    let mut i: usize = 0;
    assert(digest@.take(0) =~= Seq::empty());
    while i < 16
        invariant
            i <= 16,
            value == be_int(digest@.take(i as int)),
        decreases 16 - i,
    {
        proof {
            assert(digest@.take(i + 1).drop_last() =~= digest@.take(i as int));
            assert(digest@.take(i + 1).last() == digest@[i as int]);
            be_int_bound(digest@.take(i + 1));
            pow256_grows((i + 1) as nat, 16);
            reveal_with_fuel(pow256, 17);
            assert(pow256(16) == 0x1_0000_0000_0000_0000 * 0x1_0000_0000_0000_0000);
        }
        value = value * 256 + digest[i] as u128;
        i = i + 1;
    }
    Id { value }
}

fn derived_id(domain: &str, name: &str) -> (r: Id)
    ensures
        r == leading_id(sha256(encode_utf8(domain@) + encode_utf8(name@))),
{
    let mut message: Vec<u8> = Vec::new();
    append_bytes(&mut message, domain.as_bytes());
    append_bytes(&mut message, name.as_bytes());
    assert(message@ =~= encode_utf8(domain@) + encode_utf8(name@));
    id_from(&sha256_digest(message.as_slice()))
}

/// The identifier of the conversation with a key.
pub fn conversation_id(peer_pubkey: &str) -> (r: Id)
    ensures
        r == conversation(peer_pubkey@),
{
    derived_id("dxf/nostr-dm/conversation/v1", peer_pubkey)
}

/// The identifier of a message.
pub fn message_id(event_id: &str) -> (r: Id)
    ensures
        r == message_key(event_id@),
{
    derived_id("dxf/nostr-dm/message/v1", event_id)
}

proof fn be_int_tells_apart(a: Seq<u8>, b: Seq<u8>)
    requires
        a.len() == b.len(),
        be_int(a) == be_int(b),
    ensures
        a == b,
    decreases a.len(),
{
    if a.len() > 0 {
        be_int_tells_apart(a.drop_last(), b.drop_last());
        assert(a =~= a.drop_last().push(a.last()));
        assert(b =~= b.drop_last().push(b.last()));
    } else {
        assert(a =~= b);
    }
}

proof fn ids_of_digests(x: Seq<u8>, y: Seq<u8>)
    requires
        x.len() == 32,
        y.len() == 32,
        leading_id(x) == leading_id(y),
    ensures
        x.take(16) == y.take(16),
{
    be_int_bound(x.take(16));
    be_int_bound(y.take(16));
    reveal_with_fuel(pow256, 17);
    assert(pow256(16) == 0x1_0000_0000_0000_0000 * 0x1_0000_0000_0000_0000);
    be_int_tells_apart(x.take(16), y.take(16));
}

/// Whether two different texts behind a prefix have digests that begin alike.
pub open spec fn begin_alike(prefix: Seq<char>, a: Seq<char>, b: Seq<char>) -> bool {
    let x = encode_utf8(prefix) + encode_utf8(a);
    let y = encode_utf8(prefix) + encode_utf8(b);
    x != y && sha256(x).take(16) == sha256(y).take(16)
}

/// Every key has a conversation of its own, and every message an identifier of its own:
/// two share one only where the digests of two different texts begin with the same
/// sixteen bytes.
pub proof fn conversations_are_told_apart(a: Seq<char>, b: Seq<char>)
    requires
        a != b,
        sha256(encode_utf8("dxf/nostr-dm/conversation/v1"@) + encode_utf8(a)).len() == 32,
        sha256(encode_utf8("dxf/nostr-dm/conversation/v1"@) + encode_utf8(b)).len() == 32,
        sha256(encode_utf8("dxf/nostr-dm/message/v1"@) + encode_utf8(a)).len() == 32,
        sha256(encode_utf8("dxf/nostr-dm/message/v1"@) + encode_utf8(b)).len() == 32,
    ensures
        conversation(a) == conversation(b) ==> begin_alike("dxf/nostr-dm/conversation/v1"@, a, b),
        message_key(a) == message_key(b) ==> begin_alike("dxf/nostr-dm/message/v1"@, a, b),
{
    encode_utf8_decode_utf8(a);
    encode_utf8_decode_utf8(b);
    let p = encode_utf8("dxf/nostr-dm/conversation/v1"@);
    let q = encode_utf8("dxf/nostr-dm/message/v1"@);
    assert((p + encode_utf8(a)).skip(p.len() as int) =~= encode_utf8(a));
    assert((p + encode_utf8(b)).skip(p.len() as int) =~= encode_utf8(b));
    assert((q + encode_utf8(a)).skip(q.len() as int) =~= encode_utf8(a));
    assert((q + encode_utf8(b)).skip(q.len() as int) =~= encode_utf8(b));
    if conversation(a) == conversation(b) {
        ids_of_digests(sha256(p + encode_utf8(a)), sha256(p + encode_utf8(b)));
    }
    if message_key(a) == message_key(b) {
        ids_of_digests(sha256(q + encode_utf8(a)), sha256(q + encode_utf8(b)));
    }
}

/// The keys worth a name, each once and well formed, in the order given.
pub open spec fn collected(keys: Seq<Seq<char>>) -> Seq<Seq<char>>
    decreases keys.len(),
{
    if keys.len() == 0 {
        Seq::empty()
    } else {
        let before = collected(keys.drop_last());
        let k = keys.last();
        if is_pubkey(k) && !before.contains(k) {
            before.push(k)
        } else {
            before
        }
    }
}

/// Ourselves, then the people we talk to, then the rest of our contacts.
pub open spec fn candidates(s: AppState, our_pubkey: Seq<char>) -> Seq<Seq<char>> {
    seq![our_pubkey] + s.dms@.map_values(|d: DmInfo| d.other_pubkey@) + s.contacts@.map_values(
        |c: ContactView| c.pubkey,
    )
}

/// At most the first keys of a list.
pub open spec fn capped(keys: Seq<Seq<char>>) -> Seq<Seq<char>> {
    if keys.len() <= NAME_AUTHOR_CAP {
        keys
    } else {
        keys.take(NAME_AUTHOR_CAP as int)
    }
}

fn push_key(out: &mut Vec<String>, key: &str, seen: Ghost<Seq<Seq<char>>>)
    requires
        texts(old(out)@) == collected(seen@),
    ensures
        texts(final(out)@) == collected(seen@.push(key@)),
{
    let ghost before = out@;
    assert(seen@.push(key@).drop_last() =~= seen@);
    if is_pubkey_text(key) && !contains_text(out, key) {
        out.push(key.to_owned());
        assert(texts(out@) =~= texts(before).push(key@));
    }
}

/// Whose name is worth asking a relay for, in the order it matters.
pub fn names_wanted(s: &AppState, our_pubkey: &str) -> (r: Vec<String>)
    ensures
        texts(r@) == capped(collected(candidates(*s, our_pubkey@))),
{
    let mut out: Vec<String> = Vec::new();
    let ghost all = candidates(*s, our_pubkey@);
    let ghost mut done: Seq<Seq<char>> = Seq::empty();
    assert(texts(out@) =~= collected(done));
    push_key(&mut out, our_pubkey, Ghost(done));
    proof {
        done = done.push(our_pubkey@);
        assert(done =~= all.take(1));
    }
    let mut i: usize = 0;
    while i < s.dms.len()
        invariant
            i <= s.dms@.len(),
            all == candidates(*s, our_pubkey@),
            done == all.take(1 + i),
            texts(out@) == collected(done),
        decreases s.dms@.len() - i,
    {
        push_key(&mut out, s.dms[i].other_pubkey.as_str(), Ghost(done));
        proof {
            done = done.push(s.dms@[i as int].other_pubkey@);
            assert(done =~= all.take(2 + i));
        }
        i = i + 1;
    }
    let mut k: usize = 0;
    while k < s.contacts.contacts.len()
        invariant
            k <= s.contacts.contacts@.len(),
            all == candidates(*s, our_pubkey@),
            done == all.take(1 + s.dms@.len() + k),
            texts(out@) == collected(done),
        decreases s.contacts.contacts@.len() - k,
    {
        push_key(&mut out, s.contacts.contacts[k].pubkey.as_str(), Ghost(done));
        proof {
            assert(s.contacts@[k as int] == s.contacts.contacts@[k as int]@);
            done = done.push(s.contacts.contacts@[k as int].pubkey@);
            assert(done =~= all.take(2 + s.dms@.len() + k));
        }
        k = k + 1;
    }
    assert(all.take(all.len() as int) =~= all);
    let ghost full = texts(out@);
    if out.len() > NAME_AUTHOR_CAP {
        out.truncate(NAME_AUTHOR_CAP);
        assert(texts(out@) =~= full.take(NAME_AUTHOR_CAP as int));
    }
    out
}

/// Nobody is asked about twice, nobody with a malformed key at all, and what is
/// cut off is the far end of the list.
pub proof fn wanted_is_tidy(keys: Seq<Seq<char>>)
    ensures
        collected(keys).no_duplicates(),
        forall|i: int|
            0 <= i < collected(keys).len() ==> is_pubkey(#[trigger] collected(keys)[i])
                && keys.contains(collected(keys)[i]),
        capped(collected(keys)).len() <= NAME_AUTHOR_CAP,
        forall|n: int|
            0 <= n <= keys.len() ==> #[trigger] collected(keys.take(n)).len() <= collected(
                keys,
            ).len() && collected(keys.take(n)) == collected(keys).take(
                collected(keys.take(n)).len() as int,
            ),
    decreases keys.len(),
{
    if keys.len() > 0 {
        let rest = keys.drop_last();
        wanted_is_tidy(rest);
        let r = collected(keys);
        let p = collected(rest);
        assert forall|i: int| 0 <= i < r.len() implies is_pubkey(#[trigger] r[i])
            && keys.contains(r[i]) by {
            if i < p.len() {
                assert(r[i] == p[i]);
                let j = choose|j: int| 0 <= j < rest.len() && rest[j] == p[i];
                assert(keys[j] == p[i]);
            } else {
                assert(keys[keys.len() - 1] == r[i]);
            }
        }
        assert forall|n: int| 0 <= n <= keys.len() implies #[trigger] collected(
            keys.take(n),
        ).len() <= r.len() && collected(keys.take(n)) == r.take(
            collected(keys.take(n)).len() as int,
        ) by {
            if n < keys.len() {
                assert(keys.take(n) =~= rest.take(n));
                let q = collected(rest.take(n));
                assert(q == p.take(q.len() as int));
                assert(r.take(q.len() as int) =~= p.take(q.len() as int));
            } else {
                assert(keys.take(n) =~= keys);
                assert(r.take(r.len() as int) =~= r);
            }
        }
    } else {
        assert forall|n: int| 0 <= n <= keys.len() implies #[trigger] collected(
            keys.take(n),
        ).len() <= collected(keys).len() && collected(keys.take(n)) == collected(keys).take(
            collected(keys.take(n)).len() as int,
        ) by {
            assert(keys.take(n) =~= keys);
            assert(collected(keys).take(0) =~= collected(keys));
        }
    }
}

fn same_list(a: &Vec<String>, b: &Vec<String>) -> (r: bool)
    ensures
        r == (texts(a@) == texts(b@)),
{
    if a.len() != b.len() {
        assert(texts(a@).len() != texts(b@).len());
        return false;
    }
    let mut i: usize = 0;
    while i < a.len()
        invariant
            i <= a@.len(),
            a@.len() == b@.len(),
            forall|j: int| 0 <= j < i ==> (#[trigger] a@[j])@ == b@[j]@,
        decreases a@.len() - i,
    {
        if !same(a[i].as_str(), b[i].as_str()) {
            assert(texts(a@)[i as int] != texts(b@)[i as int]);
            return false;
        }
        i = i + 1;
    }
    assert(texts(a@) =~= texts(b@));
    true
}

/// Whether names are asked for again: when the people worth one have changed.
pub open spec fn names_asked(
    s: AppState,
    our_pubkey: Seq<char>,
    before: Seq<Seq<char>>,
    after: Seq<Seq<char>>,
    r: Option<Filter>,
) -> bool {
    let want = capped(collected(candidates(s, our_pubkey)));
    if want == before || want.len() == 0 {
        r is None && after == before
    } else {
        &&& after == want
        &&& r is Some
        &&& r->Some_0.kinds is Some
        &&& r->Some_0.kinds->Some_0@ == seq![KIND_METADATA]
        &&& r->Some_0.authors is Some
        &&& texts(r->Some_0.authors->Some_0@) == want
        &&& r->Some_0.p is None && r->Some_0.since is None && r->Some_0.limit is None
    }
}

/// Asks for names again when the people worth one have changed. `asked` is what
/// the standing subscription covers.
pub fn request_names(s: &AppState, our_pubkey: &str, asked: &mut Vec<String>) -> (r: Option<
    Filter,
>)
    ensures
        names_asked(*s, our_pubkey@, texts(old(asked)@), texts(final(asked)@), r),
{
    let want: Vec<String> = names_wanted(s, our_pubkey);
    if want.len() == 0 || same_list(&want, asked) {
        return None;
    }
    *asked = copy_texts(&want);
    let mut kinds: Vec<u16> = Vec::new();
    kinds.push(KIND_METADATA);
    assert(kinds@ =~= seq![KIND_METADATA]);
    Some(Filter { kinds: Some(kinds), p: None, authors: Some(want), since: None, limit: None })
}

/// What is asked of every relay from the start: gift wraps addressed to us, and
/// our own lists. Wraps are signed by throwaway keys, so their author says
/// nothing.
pub fn message_filters(our_pubkey: &str) -> (r: Vec<Filter>)
    ensures
        r@.len() == 2,
        r@[0].kinds matches Some(k) && k@ == seq![KIND_GIFT_WRAP],
        r@[0].p matches Some(p) && texts(p@) == seq![our_pubkey@],
        r@[0].authors is None && r@[0].since is None && r@[0].limit == Some(500u32),
        r@[1].kinds matches Some(k) && k@ == seq![KIND_CONTACTS, KIND_DM_RELAYS],
        r@[1].authors matches Some(a) && texts(a@) == seq![our_pubkey@],
        r@[1].p is None && r@[1].since is None && r@[1].limit == Some(4u32),
{
    let mut wraps: Vec<u16> = Vec::new();
    wraps.push(KIND_GIFT_WRAP);
    assert(wraps@ =~= seq![KIND_GIFT_WRAP]);
    let mut lists: Vec<u16> = Vec::new();
    lists.push(KIND_CONTACTS);
    lists.push(KIND_DM_RELAYS);
    assert(lists@ =~= seq![KIND_CONTACTS, KIND_DM_RELAYS]);
    let mut to_us: Vec<String> = Vec::new();
    to_us.push(our_pubkey.to_owned());
    assert(texts(to_us@) =~= seq![our_pubkey@]);
    let mut by_us: Vec<String> = Vec::new();
    by_us.push(our_pubkey.to_owned());
    assert(texts(by_us@) =~= seq![our_pubkey@]);
    let mut out: Vec<Filter> = Vec::new();
    out.push(
        Filter {
            kinds: Some(wraps),
            p: Some(to_us),
            authors: None,
            since: None,
            limit: Some(500),
        },
    );
    out.push(
        Filter { kinds: Some(lists), p: None, authors: Some(by_us), since: None, limit: Some(4) },
    );
    out
}

/// Whether a conversation was put into the list where it was not, and opened.
pub open spec fn opened_with(o: AppState, peer: Seq<char>, n: AppState) -> bool {
    &&& n == (AppState {
        dms: n.dms,
        dm_mode: true,
        selected_channel: Some(conversation(peer)),
        dm_unread: n.dm_unread,
        ..o
    })
    &&& any_where(o.dms@, dm_is(conversation(peer))) ==> n.dms@ == o.dms@
    &&& !any_where(o.dms@, dm_is(conversation(peer))) ==> n.dms@.len() == o.dms@.len() + 1
        && n.dms@.drop_last() == o.dms@ && n.dms@.last().channel_id == conversation(peer)
        && n.dms@.last().other_pubkey@ == peer
    &&& n.dm_unread@ == o.dm_unread@.remove(conversation(peer))
}

/// Makes sure that a conversation is in the list, and opens it.
pub fn open_conversation(s: &mut AppState, peer: &str)
    ensures
        opened_with(*old(s), peer@, *final(s)),
{
    let cid: Id = conversation_id(peer);
    if !s.has_dm(cid) {
        let ghost before = s.dms@;
        s.dms.push(DmInfo { channel_id: cid, other_pubkey: peer.to_owned() });
        assert(s.dms@.drop_last() =~= before);
    }
    s.dm_mode = true;
    s.selected_channel = Some(cid);
    s.mark_dm_read(cid);
}

/// Where a message came from. Only a relay can be replaying deleted history.
#[derive(Debug, Clone, Copy, PartialEq, Eq, Structural)]
pub enum Source {
    Ours,
    Relay,
}

/// Whether a delete still hides a message: it came from a relay, and it is older
/// than the delete.
pub open spec fn is_hidden(
    cleared: Map<Seq<char>, i64>,
    peer: Seq<char>,
    created_at: i64,
    source: Source,
) -> bool {
    source == Source::Relay && cleared.dom().contains(peer) && created_at < cleared[peer]
}

/// Whether a delete still hides a message.
pub fn hidden_by_delete(s: &AppState, msg: &ChatMessage, source: Source) -> (r: bool)
    ensures
        r == is_hidden(s.dm_cleared_at@, msg.peer@, msg.created_at, source),
{
    if source != Source::Relay {
        return false;
    }
    match s.dm_cleared_at.get(msg.peer.as_str()) {
        Some(at) => msg.created_at < *at,
        None => false,
    }
}

/// The first second of the year -262143, counted from the epoch.
pub const FIRST_MOMENT: i64 = -8_334_601_228_800;

/// The last second of the year 262142, counted from the epoch.
pub const LAST_MOMENT: i64 = 8_210_266_876_799;

/// Whether a number of seconds names a moment that can be shown.
pub open spec fn is_moment(seconds: i64) -> bool {
    FIRST_MOMENT <= seconds <= LAST_MOMENT
}

/// `chrono::DateTime::from_timestamp` gives a moment for the seconds of its calendar,
/// from the first of the year -262143 to the last of the year 262142.
#[verifier::external_body]
fn has_moment(seconds: i64) -> (r: bool)
    ensures
        r == is_moment(seconds),
{
    chrono::DateTime::from_timestamp(seconds, 0).is_some()
}

/// The time of a message in milliseconds: its own, or the present one when its own
/// cannot be shown.
pub open spec fn shown_at(created_at: i64, now_ms: i64) -> int {
    if is_moment(created_at) {
        created_at * 1000
    } else {
        now_ms as int
    }
}

fn stamp(created_at: i64, now_ms: i64) -> (r: i64)
    ensures
        r == shown_at(created_at, now_ms),
{
    if has_moment(created_at) {
        created_at * 1000
    } else {
        now_ms
    }
}

/// Whether a message is how a chat message is shown.
pub open spec fn shows(m: Message, msg: ChatMessage, at: int) -> bool {
    &&& m.id == message_key(msg.id@)
    &&& m.channel_id == conversation(msg.peer@)
    &&& m.author.pubkey == msg.author
    &&& m.author.username@ == truncated(msg.author@)
    &&& m.content == msg.content
    &&& m.image is None
    &&& m.reactions@.len() == 0
    &&& m.reply_to is None
    &&& m.created_at == at
}

/// What filing a message does to what is known, and whether it is news: neither
/// hidden, nor known, nor our own.
pub open spec fn filed(
    o: AppState,
    msg: ChatMessage,
    our_pubkey: Seq<char>,
    source: Source,
    now_ms: i64,
    n: AppState,
    news: bool,
) -> bool {
    let cid = conversation(msg.peer@);
    let mid = message_key(msg.id@);
    let held = list_at(lists(o.messages@), cid);
    if is_hidden(o.dm_cleared_at@, msg.peer@, msg.created_at, source) {
        n == o && !news
    } else {
        &&& n == (AppState {
            dms: n.dms,
            nostr_event_ids: n.nostr_event_ids,
            messages: n.messages,
            ..o
        })
        &&& n.dms@ == if any_where(o.dms@, dm_is(cid)) {
            o.dms@
        } else {
            o.dms@.push(DmInfo { channel_id: cid, other_pubkey: msg.peer })
        }
        &&& n.nostr_event_ids@ == o.nostr_event_ids@.insert(mid, msg.id)
        &&& if any_where(held, message_is(mid)) {
            lists(n.messages@) == lists(o.messages@) && !news
        } else {
            &&& news == (msg.author@ != our_pubkey)
            &&& exists|m: Message| #[trigger]
                shows(m, msg, shown_at(msg.created_at, now_ms)) && lists(n.messages@) == lists(
                    o.messages@,
                ).insert(cid, time_sorted(held.push(m)))
        }
    }
}

fn message_from(msg: &ChatMessage, now_ms: i64) -> (r: Message)
    requires
        cuttable(msg.author@),
    ensures
        shows(r, *msg, shown_at(msg.created_at, now_ms)),
{
    Message {
        id: message_id(msg.id.as_str()),
        channel_id: conversation_id(msg.peer.as_str()),
        author: User {
            pubkey: msg.author.clone(),
            username: truncate_pubkey(msg.author.as_str()),
        },
        content: msg.content.clone(),
        image: None,
        reactions: Vec::new(),
        reply_to: None,
        created_at: stamp(msg.created_at, now_ms),
    }
}

fn file_in_time(table: &mut IdTable<Vec<Message>>, cid: Id, m: Message)
    ensures
        lists(final(table)@) == lists(old(table)@).insert(
            cid,
            time_sorted(list_at(lists(old(table)@), cid).push(m)),
        ),
{
    let ghost before = table@;
    let mut list: Vec<Message> = match table.remove(cid) {
        Some(list) => list,
        None => Vec::new(),
    };
    assert(list@ =~= list_at(lists(before), cid));
    list.push(m);
    let sorted: Vec<Message> = sort_by_time(list);
    table.insert(cid, sorted);
    assert(lists(table@) =~= lists(before).insert(cid, sorted@));
}

fn is_filed(table: &IdTable<Vec<Message>>, cid: Id, mid: Id) -> (r: bool)
    ensures
        r == any_where(list_at(lists(table@), cid), message_is(mid)),
{
    match table.get(cid) {
        Some(list) => {
            assert(list_at(lists(table@), cid) == list@);
            holds_message(list, mid)
        },
        None => {
            assert(list_at(lists(table@), cid) =~= Seq::empty());
            false
        },
    }
}

/// Puts a message into the conversation it belongs to, in order of time and never
/// twice, and says whether it is news.
pub fn insert_message(
    s: &mut AppState,
    msg: &ChatMessage,
    our_pubkey: &str,
    source: Source,
    now_ms: i64,
) -> (r: bool)
    requires
        cuttable(msg.author@),
    ensures
        filed(*old(s), *msg, our_pubkey@, source, now_ms, *final(s), r),
{
    let cid: Id = conversation_id(msg.peer.as_str());
    let mid: Id = message_id(msg.id.as_str());
    if hidden_by_delete(s, msg, source) {
        return false;
    }
    if !s.has_dm(cid) {
        s.dms.push(DmInfo { channel_id: cid, other_pubkey: msg.peer.clone() });
    }
    s.nostr_event_ids.insert(mid, msg.id.clone());
    if is_filed(&s.messages, cid, mid) {
        return false;
    }
    let m: Message = message_from(msg, now_ms);
    file_in_time(&mut s.messages, cid, m);
    assert(shows(m, *msg, shown_at(msg.created_at, now_ms)));
    !same(msg.author.as_str(), our_pubkey)
}

/// A message that was filed is known from then on, so that its echo changes
/// nothing, and its conversation is in order of time.
pub proof fn filed_once(
    o: AppState,
    msg: ChatMessage,
    our_pubkey: Seq<char>,
    source: Source,
    now_ms: i64,
    n: AppState,
    news: bool,
)
    requires
        filed(o, msg, our_pubkey, source, now_ms, n, news),
        !is_hidden(o.dm_cleared_at@, msg.peer@, msg.created_at, source),
    ensures
        any_where(
            list_at(lists(n.messages@), conversation(msg.peer@)),
            message_is(message_key(msg.id@)),
        ),
        any_where(n.dms@, dm_is(conversation(msg.peer@))),
        !any_where(
            list_at(lists(o.messages@), conversation(msg.peer@)),
            message_is(message_key(msg.id@)),
        ) ==> by_time(list_at(lists(n.messages@), conversation(msg.peer@))),
{
    let cid = conversation(msg.peer@);
    let mid = message_key(msg.id@);
    let held = list_at(lists(o.messages@), cid);
    if !any_where(held, message_is(mid)) {
        let m = choose|m: Message| #[trigger]
            shows(m, msg, shown_at(msg.created_at, now_ms)) && lists(n.messages@) == lists(
                o.messages@,
            ).insert(cid, time_sorted(held.push(m)));
        let all = held.push(m);
        let sorted = time_sorted(all);
        time_sorted_facts(all);
        assert(all[held.len() as int] == m);
        vstd::seq_lib::to_multiset_build(held, m);
        assert(sorted.to_multiset().count(m) > 0);
        sorted.to_multiset_ensures();
        assert(sorted.contains(m));
        let k = choose|k: int| 0 <= k < sorted.len() && sorted[k] == m;
        assert(message_is(mid)(sorted[k]));
        assert(list_at(lists(n.messages@), cid) == sorted);
    }
    if !any_where(o.dms@, dm_is(cid)) {
        let last = n.dms@[o.dms@.len() as int];
        assert(dm_is(cid)(last));
    } else {
        let k = choose|k: int| 0 <= k < o.dms@.len() && dm_is(cid)(#[trigger] o.dms@[k]);
        assert(dm_is(cid)(n.dms@[k]));
    }
}

/// Filing keeps a conversation in order of time and its ids distinct. Unless a delete
/// hides the message, the conversation is what it was and the message, if that is new
/// to it; the list of conversations has one more iff this one was absent; and no other
/// conversation changes.
pub proof fn filing_keeps_order(
    o: AppState,
    msg: ChatMessage,
    our_pubkey: Seq<char>,
    source: Source,
    now_ms: i64,
    n: AppState,
    news: bool,
)
    requires
        filed(o, msg, our_pubkey, source, now_ms, n, news),
        by_time(list_at(lists(o.messages@), conversation(msg.peer@))),
        ids_differ(list_at(lists(o.messages@), conversation(msg.peer@))),
    ensures
        ({
            let cid = conversation(msg.peer@);
            let mid = message_key(msg.id@);
            let held = list_at(lists(o.messages@), cid);
            let now = list_at(lists(n.messages@), cid);
            let hidden = is_hidden(o.dm_cleared_at@, msg.peer@, msg.created_at, source);
            let known = any_where(held, message_is(mid));
            &&& by_time(now)
            &&& ids_differ(now)
            &&& hidden || known ==> now == held
            &&& !hidden && !known ==> exists|m: Message| #[trigger]
                shows(m, msg, shown_at(msg.created_at, now_ms)) && now.to_multiset()
                    == held.to_multiset().insert(m)
            &&& n.dms@.len() == o.dms@.len() + if !hidden && !any_where(o.dms@, dm_is(cid)) {
                1int
            } else {
                0int
            }
            &&& forall|c: Id|
                c != cid ==> #[trigger] list_at(lists(n.messages@), c) == list_at(
                    lists(o.messages@),
                    c,
                )
        }),
{
    let cid = conversation(msg.peer@);
    let mid = message_key(msg.id@);
    let held = list_at(lists(o.messages@), cid);
    let hidden = is_hidden(o.dm_cleared_at@, msg.peer@, msg.created_at, source);
    if !hidden && !any_where(held, message_is(mid)) {
        let m = choose|m: Message| #[trigger]
            shows(m, msg, shown_at(msg.created_at, now_ms)) && lists(n.messages@) == lists(
                o.messages@,
            ).insert(cid, time_sorted(held.push(m)));
        let all = held.push(m);
        time_sorted_facts(all);
        vstd::seq_lib::to_multiset_build(held, m);
        assert forall|i: int, j: int|
            0 <= i < all.len() && 0 <= j < all.len() && i != j implies (#[trigger] all[i]).id != (
        #[trigger] all[j]).id by {
            if i < held.len() && j < held.len() {
                assert(held[i].id != held[j].id);
            } else if i < held.len() {
                assert(!message_is(mid)(held[i]));
            } else {
                assert(!message_is(mid)(held[j]));
            }
        }
        sorting_keeps_ids(all);
        assert(list_at(lists(n.messages@), cid) == time_sorted(all));
        assert(shows(m, msg, shown_at(msg.created_at, now_ms)));
    }
}

/// Filing a message again, from whatever relay and whenever, changes nothing: neither
/// the conversations nor what they hold.
pub proof fn filing_again_changes_nothing(
    o: AppState,
    msg: ChatMessage,
    our_pubkey: Seq<char>,
    source: Source,
    now_ms: i64,
    n: AppState,
    news: bool,
    later_ms: i64,
    n_later: AppState,
    news_later: bool,
)
    requires
        filed(o, msg, our_pubkey, source, now_ms, n, news),
        filed(n, msg, our_pubkey, source, later_ms, n_later, news_later),
    ensures
        lists(n_later.messages@) == lists(n.messages@),
        n_later.dms@ == n.dms@,
        n_later.nostr_event_ids@ == n.nostr_event_ids@,
        !news_later,
{
    if !is_hidden(o.dm_cleared_at@, msg.peer@, msg.created_at, source) {
        filed_once(o, msg, our_pubkey, source, now_ms, n, news);
        assert(n_later.nostr_event_ids@ =~= n.nostr_event_ids@);
    }
}

/// Whether somebody's message was sent with these two wraps, or refused with these
/// words.
pub open spec fn sent_as(
    secret: Seq<u8>,
    from: Seq<char>,
    to: Seq<char>,
    text: Seq<char>,
    reply_to: Option<Seq<char>>,
    now: i64,
    rumor: Rumor,
    r: Result<(Event, Event), String>,
) -> bool {
    &&& rumor.identified()
    &&& rumor.pubkey@ == from
    &&& rumor.created_at == now
    &&& rumor.kind == KIND_CHAT
    &&& rumor.content@ == text
    &&& text_rows(rumor.tags@) == chat_tags(to, reply_to)
    &&& match r {
        Ok((theirs, ours)) => wrapped(secret, to, rumor, now, Ok(theirs)) && wrapped(
            secret,
            hex_text(public_x(secret)),
            rumor,
            now,
            Ok(ours),
        ),
        Err(e) => wrapped(secret, to, rumor, now, Err(e)),
    }
}

/// Whether a message was written and wrapped, shown, and given in both copies; or
/// why it could not be wrapped was said.
pub open spec fn message_went(
    o: AppState,
    secret: Seq<u8>,
    our_pubkey: Seq<char>,
    peer: Seq<char>,
    text: Seq<char>,
    reply_to: Option<Seq<char>>,
    now: i64,
    n: AppState,
    out: Seq<Event>,
) -> bool {
    exists|rumor: Rumor, sent: Result<(Event, Event), String>|
        {
            &&& #[trigger] sent_as(secret, our_pubkey, peer, text, reply_to, now, rumor, sent)
            &&& match sent {
                Ok((theirs, ours)) => out == seq![theirs, ours] && exists|
                    msg: ChatMessage,
                    news: bool,
                |
                    {
                        &&& #[trigger] filed(
                            o,
                            msg,
                            our_pubkey,
                            Source::Ours,
                            (now * 1000) as i64,
                            n,
                            news,
                        )
                        &&& msg.id == rumor.id
                        &&& msg.author@ == our_pubkey
                        &&& msg.peer@ == peer
                        &&& msg.content@ == text
                        &&& msg.created_at == now
                    },
                Err(e) => out.len() == 0 && n == (AppState { error_toast: n.error_toast, ..o })
                    && n.error_toast is Some && n.error_toast->Some_0@ == "Not sent — "@ + e@,
            }
        }
}

/// Writes and wraps a message, shows it at once, and gives what is to be
/// published: the recipient's copy and our own. What cannot be wrapped is not
/// sent, and that is said.
pub fn send_message(
    s: &mut AppState,
    secret: &SecretKey,
    our_pubkey: &str,
    peer: &str,
    text: &str,
    reply_to: Option<String>,
    now: i64,
) -> (r: Vec<Event>)
    requires
        cuttable(our_pubkey@),
        i64::MIN / 1000 < now < i64::MAX / 1000,
    ensures
        message_went(
            *old(s),
            secret@,
            our_pubkey@,
            peer@,
            text@,
            opt_text(reply_to),
            now,
            *final(s),
            r@,
        ),
{
    let parent: Option<&str> = match &reply_to {
        Some(id) => Some(id.as_str()),
        None => None,
    };
    let rumor: Rumor = chat_rumor(our_pubkey, peer, text, parent, now);
    let sent: Result<(Event, Event), String> = wrap_both(secret, peer, &rumor, now);
    assert(sent_as(
        secret@,
        our_pubkey@,
        peer@,
        text@,
        opt_text(reply_to),
        now,
        rumor,
        sent,
    ));
    let mut out: Vec<Event> = Vec::new();
    match sent {
        Ok((theirs, ours)) => {
            let msg: ChatMessage = ChatMessage {
                id: rumor.id.clone(),
                author: our_pubkey.to_owned(),
                peer: peer.to_owned(),
                content: text.to_owned(),
                created_at: now,
                reply_to,
            };
            let news: bool = insert_message(s, &msg, our_pubkey, Source::Ours, now * 1000);
            out.push(theirs);
            out.push(ours);
            assert(out@ =~= seq![theirs, ours]);
            assert(filed(
                *old(s),
                msg,
                our_pubkey@,
                Source::Ours,
                (now * 1000) as i64,
                *s,
                news,
            ));
        },
        Err(e) => {
            s.error_toast = Some("Not sent — ".to_owned().concat(e.as_str()));
        },
    }
    out
}

/// Files a chat message that was opened, and says whether it is news. What could
/// not be opened, or is no message of ours, changes nothing: other applications
/// wrap other things.
pub fn file_opened(
    s: &mut AppState,
    opened: Result<ChatMessage, String>,
    our_pubkey: &str,
    now_ms: i64,
) -> (r: bool)
    requires
        opened is Ok ==> cuttable(opened->Ok_0.author@),
    ensures
        match opened {
            Ok(msg) => filed(*old(s), msg, our_pubkey@, Source::Relay, now_ms, *final(s), r),
            Err(_) => *final(s) == *old(s) && !r,
        },
{
    match opened {
        Ok(msg) => insert_message(s, &msg, our_pubkey, Source::Relay, now_ms),
        Err(_) => false,
    }
}

/// Whether what a gift wrap opened to is read as this message of ours.
pub open spec fn reads(
    opened: Result<Rumor, String>,
    our_pubkey: Seq<char>,
    msg: Result<ChatMessage, String>,
) -> bool {
    match opened {
        Err(_) => msg is Err,
        Ok(rumor) => read_as(rumor, our_pubkey, msg),
    }
}

/// Whether a gift wrap was received: the message it opens to is filed, and anything
/// else changes nothing.
pub open spec fn received<F, G>(
    o: AppState,
    secret: Seq<u8>,
    our_pubkey: Seq<char>,
    gift: Event,
    now_ms: i64,
    read_event: F,
    read_rumor: G,
    n: AppState,
    news: bool,
) -> bool where F: Fn(&str) -> Result<Event, String>, G: Fn(&str) -> Result<Rumor, String> {
    exists|opened: Result<Rumor, String>, msg: Result<ChatMessage, String>|
        {
            &&& #[trigger] unwrapped(secret, gift, read_event, read_rumor, opened)
            &&& #[trigger] reads(opened, our_pubkey, msg)
            &&& match msg {
                Ok(m) => filed(o, m, our_pubkey, Source::Relay, now_ms, n, news),
                Err(_) => n == o && !news,
            }
        }
}

/// Receives a gift wrap, and says whether it is news. The two readers turn JSON into
/// an event and into a rumor.
pub fn receive<F, G>(
    s: &mut AppState,
    secret: &SecretKey,
    our_pubkey: &str,
    gift: &Event,
    now_ms: i64,
    read_event: F,
    read_rumor: G,
) -> (r: bool) where
    F: Fn(&str) -> Result<Event, String>,
    G: Fn(&str) -> Result<Rumor, String>,

    requires
        forall|text: &str| read_event.requires((text,)),
        forall|text: &str| read_rumor.requires((text,)),
    ensures
        received(
            *old(s),
            secret@,
            our_pubkey@,
            *gift,
            now_ms,
            read_event,
            read_rumor,
            *final(s),
            r,
        ),
{
    let opened: Result<Rumor, String> = unwrap(secret, gift, read_event, read_rumor);
    let msg: Result<ChatMessage, String> = match &opened {
        Ok(rumor) => chat_message(rumor, our_pubkey),
        Err(e) => Err(e.clone()),
    };
    proof {
        if msg is Ok {
            opened_by_its_author(secret@, *gift, read_event, read_rumor, opened);
            let author = opened->Ok_0.pubkey@;
            assert(is_ascii_chars(author)) by {
                assert(forall|i: int|
                    0 <= i < author.len() ==> is_hex_digit(#[trigger] author[i]));
            }
            ascii_is_cuttable(author);
        }
    }
    assert(reads(opened, our_pubkey@, msg));
    let ghost before = *s;
    let news: bool = file_opened(s, msg, our_pubkey, now_ms);
    assert(received(
        before,
        secret@,
        our_pubkey@,
        *gift,
        now_ms,
        read_event,
        read_rumor,
        *s,
        news,
    ));
    news
}

/// Whether a contact was added or removed, and the whole list written to publish.
pub open spec fn contact_set(
    o: AppState,
    secret: Seq<u8>,
    peer: Seq<char>,
    keep: bool,
    now: i64,
    n: AppState,
    event: Event,
) -> bool {
    &&& n == (AppState { contacts: n.contacts, ..o })
    &&& if keep {
        replaced(o.contacts@, ContactView { pubkey: peer, relay: None, petname: None }, n.contacts@)
    } else {
        n.contacts@ == o.contacts@.filter(others(peer))
    }
    &&& event.verifies()
    &&& event.kind == KIND_CONTACTS
    &&& event.pubkey@ == hex_text(public_x(secret))
    &&& event.created_at == now
    &&& event.content@.len() == 0
    &&& text_rows(event.tags@) == n.contacts@.map_values(|c: ContactView| contact_row(c))
}

/// Adds or removes a contact, and gives the whole list to publish.
pub fn set_contact(s: &mut AppState, secret: &SecretKey, peer: &str, keep: bool, now: i64) -> (r:
    Event)
    ensures
        contact_set(*old(s), secret@, peer@, keep, now, *final(s), r),
{
    let mut current: ContactList = ContactList::default();
    core::mem::swap(&mut current, &mut s.contacts);
    let next: ContactList = if keep {
        current.with(Contact { pubkey: peer.to_owned(), relay: None, petname: None })
    } else {
        current.without(peer)
    };
    let event: Event = contact_list_event(secret, &next, now);
    s.contacts = next;
    event
}

/// What an event that is not a gift wrap does to what is known: our own contact
/// list replaces the one held, and a name is remembered unless a later one is.
pub open spec fn event_taken(o: AppState, event: Event, our_pubkey: Seq<char>, n: AppState) -> bool {
    if event.kind == KIND_CONTACTS && event.pubkey@ == our_pubkey {
        &&& n == (AppState { contacts: n.contacts, ..o })
        &&& n.contacts@ == contacts_in(text_rows(event.tags@))
    } else if event.kind == KIND_METADATA && published_name(event.content@) is Some {
        &&& n == (AppState { nostr_names: n.nostr_names, ..o })
        &&& if o.nostr_names@.dom().contains(event.pubkey@) && o.nostr_names@[event.pubkey@].1
            > event.created_at {
            n.nostr_names@ == o.nostr_names@
        } else {
            exists|name: String| #[trigger]
                name@ == published_name(event.content@)->Some_0 && n.nostr_names@
                    == o.nostr_names@.insert(event.pubkey@, (name, event.created_at))
        }
    } else {
        n == o
    }
}

/// Takes in an event that is not a gift wrap.
pub fn take_event(s: &mut AppState, event: &Event, our_pubkey: &str)
    ensures
        event_taken(*old(s), *event, our_pubkey@, *final(s)),
{
    if event.kind == KIND_CONTACTS {
        if same(event.pubkey.as_str(), our_pubkey) {
            s.contacts = parse_contact_list(event);
        }
    } else if event.kind == KIND_METADATA {
        if let Some(name) = name_from(event) {
            assert(name@ == published_name(event.content@)->Some_0);
            s.note_name(event.pubkey.as_str(), name, event.created_at);
        }
    }
}

/// What the service is asked to do.
#[derive(Debug, Clone, PartialEq, Eq)]
pub enum NostrCmd {
    /// Send a text, perhaps as an answer.
    Send { peer: String, text: String, reply_to: Option<String> },
    /// Open a conversation.
    Open { peer: String },
    /// Add or remove a contact.
    SetContact { peer: String, keep: bool },
}

/// Whether the service did what it was asked to, and what it publishes.
pub open spec fn obeyed(
    o: AppState,
    secret: Seq<u8>,
    our_pubkey: Seq<char>,
    cmd: NostrCmd,
    now: i64,
    n: AppState,
    out: Seq<Event>,
) -> bool {
    match cmd {
        NostrCmd::Send { peer, text, reply_to } => message_went(
            o,
            secret,
            our_pubkey,
            peer@,
            text@,
            opt_text(reply_to),
            now,
            n,
            out,
        ),
        NostrCmd::Open { peer } => opened_with(o, peer@, n) && out.len() == 0,
        NostrCmd::SetContact { peer, keep } => out.len() == 1 && contact_set(
            o,
            secret,
            peer@,
            keep,
            now,
            n,
            out[0],
        ),
    }
}

/// Does what the service is asked to, gives what is to be published, and asks for
/// names again where that introduced somebody.
pub fn on_command(
    s: &mut AppState,
    secret: &SecretKey,
    our_pubkey: &str,
    cmd: NostrCmd,
    now: i64,
    asked: &mut Vec<String>,
) -> (r: (Vec<Event>, Option<Filter>))
    requires
        cuttable(our_pubkey@),
        i64::MIN / 1000 < now < i64::MAX / 1000,
    ensures
        obeyed(*old(s), secret@, our_pubkey@, cmd, now, *final(s), r.0@),
        names_asked(*final(s), our_pubkey@, texts(old(asked)@), texts(final(asked)@), r.1),
{
    let mut out: Vec<Event> = Vec::new();
    match cmd {
        NostrCmd::Send { peer, text, reply_to } => {
            out = send_message(s, secret, our_pubkey, peer.as_str(), text.as_str(), reply_to, now);
        },
        NostrCmd::Open { peer } => {
            open_conversation(s, peer.as_str());
        },
        NostrCmd::SetContact { peer, keep } => {
            out.push(set_contact(s, secret, peer.as_str(), keep, now));
        },
    }
    let filter: Option<Filter> = request_names(s, our_pubkey, asked);
    (out, filter)
}

/// Shows us under the name of our identity until a gateway gives another.
pub fn introduce(s: &mut AppState, identity: &Identity)
    ensures
        match old(s).self_user {
            Some(_) => *final(s) == *old(s),
            None => *final(s) == (AppState { self_user: final(s).self_user, ..*old(s) })
                && final(s).self_user is Some && final(s).self_user->Some_0.pubkey@
                == identity.pubkey@ && final(s).self_user->Some_0.username@
                == identity.display_name@,
        },
{
    if s.self_user.is_none() {
        s.self_user = Some(
            User { pubkey: identity.pubkey.clone(), username: identity.display_name.clone() },
        );
    }
}

/// Keeps account of the relays that are connected. `nostr_relays_up` holds exactly
/// those.
pub fn on_relay_status(s: &mut AppState, event: &RelayEvent)
    ensures
        *final(s) == (AppState { nostr_relays_up: final(s).nostr_relays_up, ..*old(s) }),
        final(s).nostr_relays_up@ == match *event {
            RelayEvent::Connected(url) => old(s).nostr_relays_up@.insert(url@, true),
            RelayEvent::Disconnected { relay, .. } => old(s).nostr_relays_up@.remove(relay@),
            _ => old(s).nostr_relays_up@,
        },
{
    match event {
        RelayEvent::Connected(url) => {
            s.nostr_relays_up.insert(url.clone(), true);
        },
        RelayEvent::Disconnected { relay, .. } => {
            s.nostr_relays_up.remove(relay.as_str());
        },
        _ => {},
    }
}

} // verus!
