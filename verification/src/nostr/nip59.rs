//! NIP-59 gift wrap: what hides who is talking from the relay.
//!
//! A rumor is the message itself, unsigned. A seal is the rumor encrypted to its
//! recipient and signed by its author. A gift wrap is the seal encrypted once
//! more and signed by a key that was made for this one message. The two outer
//! layers are dated up to two days back, because an exact time would link them.

use crate::crypto::{
    SecretKey, base64_bytes, hex_bytes, hex_round_trip, hex_text, is_base64_char, is_hex_digit,
    is_secret_key, names_secret, public_x, random_bytes, random_up_to,
};
use crate::json::{is_plain, json_rows, json_string, plain_is_itself};
use crate::nostr::event::{
    Event, Rumor, altered_content_is_noticed, collide, event_id, form_of, sign_with,
    signed_with,
};
use crate::nostr::nip44::{
    a_payload_opens_by_its_code, code_under, conversation_key, decrypt, decrypted,
    encrypt_with_nonce, encrypted, fits, length_refusal, padded_len_steps, payload_len,
    payload_shaped, shared_key,
};
use crate::text::{
    decimal, decimal_int, decimal_is_short, decimal_text, power_of_ten, same, text_outcome,
    text_rows, texts, to_array,
};
use vstd::prelude::*;
use vstd::string::*;
use vstd::utf8::*;

verus! {

/// The kind of the middle layer.
pub const KIND_SEAL: u16 = 13;

/// The kind of the outermost layer, the only one a relay indexes.
pub const KIND_GIFT_WRAP: u16 = 1059;

/// How far back a timestamp may be pushed, in seconds.
pub const MAX_BACKDATE: i64 = 2 * 24 * 60 * 60;

/// The longest rumor that can be wrapped, in bytes of its JSON: a longer one makes a
/// seal that does not fit into a gift wrap.
pub const MAX_WRAPPED: usize = 40960;

/// A time put back by some seconds.
pub fn put_back(now: i64, seconds: i64) -> (r: i64)
    requires
        i64::MIN <= now - seconds <= i64::MAX,
    ensures
        r == now - seconds,
{
    now - seconds
}

/// A time somewhere in the last two days. How far back it lies is chance.
pub fn fuzzed(now: i64) -> (r: i64)
    requires
        now >= i64::MIN + MAX_BACKDATE,
    ensures
        now - MAX_BACKDATE <= r <= now,
{
    put_back(now, random_up_to(MAX_BACKDATE))
}

/// What the holder of a secret finds in a gift wrap: the JSON of a seal.
pub open spec fn opened_gift(secret: Seq<u8>, gift: Event) -> Result<Seq<char>, Seq<char>> {
    if gift.kind != KIND_GIFT_WRAP {
        Err("not a gift wrap (kind "@ + decimal(gift.kind as nat) + ")"@)
    } else if !gift.verifies() {
        Err("gift wrap signature does not verify"@)
    } else {
        match shared_key(secret, gift.pubkey@) {
            Err(e) => Err(e),
            Ok(key) => decrypted(key, gift.content@),
        }
    }
}

/// What the holder of a secret finds in a seal: the JSON of a rumor.
pub open spec fn opened_seal(secret: Seq<u8>, seal: Event) -> Result<Seq<char>, Seq<char>> {
    if seal.kind != KIND_SEAL {
        Err("inner event is not a seal (kind "@ + decimal(seal.kind as nat) + ")"@)
    } else if !seal.verifies() {
        Err("seal signature does not verify"@)
    } else {
        match shared_key(secret, seal.pubkey@) {
            Err(e) => Err(e),
            Ok(key) => decrypted(key, seal.content@),
        }
    }
}

/// What a seal over a text shows: its author's signature, no tags, a fuzzed date,
/// and content that the recipient alone can read.
pub open spec fn seals(seal: Event, author: Seq<u8>, recipient: Seq<char>, text: Seq<char>, now: i64)
    -> bool {
    &&& seal.kind == KIND_SEAL
    &&& seal.verifies()
    &&& seal.pubkey@ == hex_text(public_x(author))
    &&& seal.tags@.len() == 0
    &&& now - MAX_BACKDATE <= seal.created_at <= now
    &&& shared_key(author, recipient) is Ok
    &&& exists|nonce: Seq<u8>|
        nonce.len() == 32 && seal.content@ == #[trigger] encrypted(
            shared_key(author, recipient)->Ok_0,
            nonce,
            text,
        )
    &&& forall|reader: Seq<u8>| #[trigger]
        names_secret(recipient, reader) ==> opened_seal(reader, seal) == Ok::<
            Seq<char>,
            Seq<char>,
        >(text)
}

/// What a gift wrap over a text shows: a signature by some throwaway key, the
/// recipient and nothing else in its tags, a fuzzed date, and content that the
/// recipient alone can read.
pub open spec fn wraps(gift: Event, recipient: Seq<char>, text: Seq<char>, now: i64) -> bool {
    &&& gift.kind == KIND_GIFT_WRAP
    &&& gift.verifies()
    &&& text_rows(gift.tags@) == seq![seq!["p"@, recipient]]
    &&& now - MAX_BACKDATE <= gift.created_at <= now
    &&& exists|throwaway: Seq<u8>, nonce: Seq<u8>|
        {
            &&& is_secret_key(throwaway)
            &&& gift.pubkey@ == hex_text(public_x(throwaway))
            &&& shared_key(throwaway, recipient) is Ok
            &&& nonce.len() == 32
            &&& gift.content@ == #[trigger] encrypted(
                shared_key(throwaway, recipient)->Ok_0,
                nonce,
                text,
            )
        }
    &&& forall|reader: Seq<u8>| #[trigger]
        names_secret(recipient, reader) ==> opened_gift(reader, gift) == Ok::<
            Seq<char>,
            Seq<char>,
        >(text)
}

/// Whether every character of a text is a hexadecimal digit.
pub open spec fn is_hex_text(t: Seq<char>) -> bool {
    forall|i: int| 0 <= i < t.len() ==> is_hex_digit(#[trigger] t[i])
}

/// Whether the fields of a seal over a text of `n` bytes have their shapes.
pub open spec fn well_shaped(seal: Event, n: nat) -> bool {
    &&& seal.id@.len() == 64 && is_hex_text(seal.id@)
    &&& seal.pubkey@.len() == 64 && is_hex_text(seal.pubkey@)
    &&& seal.sig@.len() == 128 && is_hex_text(seal.sig@)
    &&& payload_shaped(seal.content@, n)
}

proof fn ascii_sum(a: Seq<char>, b: Seq<char>)
    requires
        is_ascii_chars(a),
        is_ascii_chars(b),
    ensures
        is_ascii_chars(a + b),
        (a + b).len() == a.len() + b.len(),
{
    assert forall|i: int| 0 <= i < (a + b).len() implies '\0' <= #[trigger] (a + b)[i]
        <= '\u{7f}' by {
        if i < a.len() {
            assert((a + b)[i] == a[i]);
        } else {
            assert((a + b)[i] == b[i - a.len()]);
        }
    }
}

proof fn quoted_shape(t: Seq<char>)
    requires
        forall|i: int|
            0 <= i < t.len() ==> is_hex_digit(#[trigger] t[i]) || is_base64_char(t[i]),
    ensures
        is_ascii_chars(json_string(t)),
        json_string(t).len() == t.len() + 2,
{
    reveal(json_string);
    assert forall|i: int| 0 <= i < t.len() implies is_plain(#[trigger] t[i]) by {}
    plain_is_itself(t);
    assert(is_ascii_chars(t));
    ascii_sum(seq!['"'], t);
    ascii_sum(seq!['"'] + t, seq!['"']);
}

proof fn time_shape(t: i64)
    ensures
        is_ascii_chars(decimal_int(t as int)),
        1 <= decimal_int(t as int).len() <= 20,
{
    let n: nat = if t < 0 {
        (-(t as int)) as nat
    } else {
        t as nat
    };
    assert(power_of_ten(19) == 10_000_000_000_000_000_000) by {
        reveal_with_fuel(power_of_ten, 20);
    }
    decimal_is_short(n, 19);
    assert(is_ascii_chars(decimal(n)));
    ascii_sum(seq!['-'], decimal(n));
}

/// A seal's JSON is a little longer than its content, by what the other fields take.
proof fn seal_len(seal: Event, n: nat)
    requires
        seal.kind == KIND_SEAL,
        seal.tags@.len() == 0,
        well_shaped(seal, n),
    ensures
        334 + payload_len(n) <= encode_utf8(seal.json()).len() <= 353 + payload_len(n),
{
    reveal_strlit("{\"id\":");
    reveal_strlit(",\"pubkey\":");
    reveal_strlit(",\"created_at\":");
    reveal_strlit(",\"kind\":");
    reveal_strlit(",\"tags\":");
    reveal_strlit(",\"content\":");
    reveal_strlit(",\"sig\":");
    reveal_strlit("}");
    quoted_shape(seal.id@);
    quoted_shape(seal.pubkey@);
    quoted_shape(seal.content@);
    quoted_shape(seal.sig@);
    time_shape(seal.created_at);
    let kind = decimal(13);
    reveal_with_fuel(decimal, 3);
    assert(kind =~= seq!['1', '3']);
    let rows = json_rows(text_rows(seal.tags@));
    assert(rows =~= seq!['[', ']']) by {
        reveal(json_rows);
        reveal_strlit("[");
        reveal_strlit("]");
        assert(text_rows(seal.tags@) =~= Seq::empty());
    }
    let t1 = "{\"id\":"@ + json_string(seal.id@);
    ascii_sum("{\"id\":"@, json_string(seal.id@));
    let t2 = t1 + ",\"pubkey\":"@;
    ascii_sum(t1, ",\"pubkey\":"@);
    let t3 = t2 + json_string(seal.pubkey@);
    ascii_sum(t2, json_string(seal.pubkey@));
    let t4 = t3 + ",\"created_at\":"@;
    ascii_sum(t3, ",\"created_at\":"@);
    let t5 = t4 + decimal_int(seal.created_at as int);
    ascii_sum(t4, decimal_int(seal.created_at as int));
    let t6 = t5 + ",\"kind\":"@;
    ascii_sum(t5, ",\"kind\":"@);
    let t7 = t6 + kind;
    ascii_sum(t6, kind);
    let t8 = t7 + ",\"tags\":"@;
    ascii_sum(t7, ",\"tags\":"@);
    let t9 = t8 + rows;
    ascii_sum(t8, rows);
    let t10 = t9 + ",\"content\":"@;
    ascii_sum(t9, ",\"content\":"@);
    let t11 = t10 + json_string(seal.content@);
    ascii_sum(t10, json_string(seal.content@));
    let t12 = t11 + ",\"sig\":"@;
    ascii_sum(t11, ",\"sig\":"@);
    let t13 = t12 + json_string(seal.sig@);
    ascii_sum(t12, json_string(seal.sig@));
    let t14 = t13 + "}"@;
    ascii_sum(t13, "}"@);
    assert(t14 == seal.json());
    is_ascii_chars_encode_utf8(seal.json());
}

/// Whether a seal over a text was made of these: its author's signature, a date, and
/// a nonce. Nothing in it is left open.
pub open spec fn seals_under(
    seal: Event,
    author: Seq<u8>,
    at: i64,
    nonce: Seq<u8>,
    recipient: Seq<char>,
    text: Seq<char>,
) -> bool {
    &&& seal.kind == KIND_SEAL
    &&& signed_with(seal, author)
    &&& seal.tags@.len() == 0
    &&& seal.created_at == at
    &&& seal.content@ == encrypted(shared_key(author, recipient)->Ok_0, nonce, text)
}

/// Whether a gift wrap over a text was made of these: the throwaway key that signed
/// it, a date, and a nonce. Nothing in it is left open.
pub open spec fn wraps_under(
    gift: Event,
    throwaway: Seq<u8>,
    at: i64,
    nonce: Seq<u8>,
    recipient: Seq<char>,
    text: Seq<char>,
) -> bool {
    &&& gift.kind == KIND_GIFT_WRAP
    &&& signed_with(gift, throwaway)
    &&& text_rows(gift.tags@) == seq![seq!["p"@, recipient]]
    &&& gift.created_at == at
    &&& gift.content@ == encrypted(shared_key(throwaway, recipient)->Ok_0, nonce, text)
}

/// Encrypts a rumor's JSON to a recipient under a given nonce, and signs it as its
/// author at a given date.
pub fn seal_under(
    author: &SecretKey,
    at: i64,
    nonce: &[u8; 32],
    recipient_pubkey: &str,
    json: &str,
) -> (r: Result<Event, String>)
    ensures
        match shared_key(author@, recipient_pubkey@) {
            Err(e) => r is Err && r->Err_0@ == e,
            Ok(_) => if fits(encode_utf8(json@).len()) {
                &&& r is Ok
                &&& seals_under(r->Ok_0, author@, at, nonce@, recipient_pubkey@, json@)
                &&& r->Ok_0.verifies()
                &&& well_shaped(r->Ok_0, encode_utf8(json@).len())
            } else {
                r is Err && r->Err_0@ == length_refusal(encode_utf8(json@).len())
            },
        },
        r is Ok ==> forall|reader: Seq<u8>| #[trigger]
            names_secret(recipient_pubkey@, reader) ==> opened_seal(reader, r->Ok_0) == Ok::<
                Seq<char>,
                Seq<char>,
            >(json@),
{
    let key: [u8; 32] = match conversation_key(author, recipient_pubkey) {
        Ok(key) => key,
        Err(e) => {
            return Err(e);
        },
    };
    let sealed: String = match encrypt_with_nonce(&key, nonce, json) {
        Ok(sealed) => sealed,
        Err(e) => {
            return Err(e);
        },
    };
    let seal: Event = sign_with(author, at, KIND_SEAL, Vec::new(), sealed);
    proof {
        hex_round_trip(public_x(author@));
        assert(well_shaped(seal, encode_utf8(json@).len()));
        assert forall|reader: Seq<u8>| #[trigger]
            names_secret(recipient_pubkey@, reader) implies opened_seal(reader, seal) == Ok::<
            Seq<char>,
            Seq<char>,
        >(json@) by {}
    }
    Ok(seal)
}

/// Encrypts a seal's JSON to a recipient under a key made for this one message and a
/// given nonce, and signs it with that key at a given date.
pub fn gift_under(
    throwaway: &SecretKey,
    at: i64,
    nonce: &[u8; 32],
    recipient_pubkey: &str,
    json: &str,
) -> (r: Result<Event, String>)
    ensures
        match shared_key(throwaway@, recipient_pubkey@) {
            Err(e) => r is Err && r->Err_0@ == e,
            Ok(key) => if fits(encode_utf8(json@).len()) {
                &&& r is Ok
                &&& wraps_under(r->Ok_0, throwaway@, at, nonce@, recipient_pubkey@, json@)
                &&& r->Ok_0.pubkey@ == hex_text(public_x(throwaway@))
                &&& r->Ok_0.created_at == at
                &&& r->Ok_0.content@ == encrypted(key, nonce@, json@)
                &&& r->Ok_0.verifies()
            } else {
                r is Err && r->Err_0@ == length_refusal(encode_utf8(json@).len())
            },
        },
        r is Ok ==> forall|reader: Seq<u8>| #[trigger]
            names_secret(recipient_pubkey@, reader) ==> opened_gift(reader, r->Ok_0) == Ok::<
                Seq<char>,
                Seq<char>,
            >(json@),
{
    let key: [u8; 32] = match conversation_key(throwaway, recipient_pubkey) {
        Ok(key) => key,
        Err(e) => {
            return Err(e);
        },
    };
    let wrapped: String = match encrypt_with_nonce(&key, nonce, json) {
        Ok(wrapped) => wrapped,
        Err(e) => {
            return Err(e);
        },
    };
    let mut tag: Vec<String> = Vec::new();
    tag.push("p".to_owned());
    tag.push(recipient_pubkey.to_owned());
    assert(texts(tag@) =~= seq!["p"@, recipient_pubkey@]);
    let mut tags: Vec<Vec<String>> = Vec::new();
    tags.push(tag);
    assert(text_rows(tags@) =~= seq![seq!["p"@, recipient_pubkey@]]);
    let gift: Event = sign_with(throwaway, at, KIND_GIFT_WRAP, tags, wrapped);
    proof {
        assert forall|reader: Seq<u8>| #[trigger]
            names_secret(recipient_pubkey@, reader) implies opened_gift(reader, gift) == Ok::<
            Seq<char>,
            Seq<char>,
        >(json@) by {}
    }
    Ok(gift)
}

/// What wrapping a rumor gives: a refusal of the recipient or of a length, or a
/// gift around a seal around the rumor.
pub open spec fn wrapped(
    sender: Seq<u8>,
    recipient: Seq<char>,
    rumor: Rumor,
    now: i64,
    r: Result<Event, String>,
) -> bool {
    let n = encode_utf8(rumor.json()).len();
    match shared_key(sender, recipient) {
        Err(e) => r is Err && r->Err_0@ == e,
        Ok(_) => if !fits(n) {
            r is Err && r->Err_0@ == length_refusal(n)
        } else {
            &&& r is Ok <==> n <= MAX_WRAPPED
            &&& exists|seal: Event| #[trigger]
                seals(seal, sender, recipient, rumor.json(), now) && if n <= MAX_WRAPPED {
                    wraps(r->Ok_0, recipient, seal.json(), now)
                } else {
                    r->Err_0@ == length_refusal(encode_utf8(seal.json()).len())
                }
        },
    }
}

/// The date and the nonce of a layer.
#[derive(Debug, Clone, Copy, PartialEq, Eq)]
pub struct Layer {
    pub at: i64,
    pub nonce: [u8; 32],
}

/// Draws the date and the nonce of a layer.
fn draw_layer(now: i64) -> (r: Layer)
    requires
        now >= i64::MIN + MAX_BACKDATE,
    ensures
        now - MAX_BACKDATE <= r.at <= now,
{
    Layer { at: fuzzed(now), nonce: to_array(random_bytes(32).as_slice()) }
}

/// Whether whoever holds the recipient's secret reads a text in a seal.
pub open spec fn seal_opens(seal: Event, recipient: Seq<char>, text: Seq<char>) -> bool {
    forall|reader: Seq<u8>| #[trigger]
        names_secret(recipient, reader) ==> opened_seal(reader, seal) == Ok::<
            Seq<char>,
            Seq<char>,
        >(text)
}

/// Whether whoever holds the recipient's secret reads a text in a gift wrap.
pub open spec fn gift_opens(gift: Event, recipient: Seq<char>, text: Seq<char>) -> bool {
    forall|reader: Seq<u8>| #[trigger]
        names_secret(recipient, reader) ==> opened_gift(reader, gift) == Ok::<
            Seq<char>,
            Seq<char>,
        >(text)
}

/// What wrapping a rumor gives with a throwaway key and the date and the nonce of each
/// layer: the seal is its author's, the gift is the throwaway key's.
pub open spec fn wrapped_under(
    sender: Seq<u8>,
    throwaway: Seq<u8>,
    inner: Layer,
    outer: Layer,
    recipient: Seq<char>,
    rumor: Rumor,
    r: Result<Event, String>,
) -> bool {
    let n = encode_utf8(rumor.json()).len();
    match shared_key(sender, recipient) {
        Err(e) => r is Err && r->Err_0@ == e,
        Ok(_) => if !fits(n) {
            r is Err && r->Err_0@ == length_refusal(n)
        } else {
            &&& r is Ok <==> n <= MAX_WRAPPED
            &&& exists|seal: Event|
                {
                    &&& #[trigger] seals_under(
                        seal,
                        sender,
                        inner.at,
                        inner.nonce@,
                        recipient,
                        rumor.json(),
                    )
                    &&& seal.verifies() && seal_opens(seal, recipient, rumor.json())
                    &&& if n <= MAX_WRAPPED {
                        &&& wraps_under(
                            r->Ok_0,
                            throwaway,
                            outer.at,
                            outer.nonce@,
                            recipient,
                            seal.json(),
                        )
                        &&& r->Ok_0.verifies() && gift_opens(r->Ok_0, recipient, seal.json())
                    } else {
                        r->Err_0@ == length_refusal(encode_utf8(seal.json()).len())
                    }
                }
        },
    }
}

/// Wraps a rumor for one recipient, with a throwaway key and the date and the nonce of
/// each layer.
pub fn wrap_under(
    sender_secret: &SecretKey,
    throwaway: &SecretKey,
    inner: &Layer,
    outer: &Layer,
    recipient_pubkey: &str,
    rumor: &Rumor,
) -> (r: Result<Event, String>)
    ensures
        wrapped_under(
            sender_secret@,
            throwaway@,
            *inner,
            *outer,
            recipient_pubkey@,
            *rumor,
            r,
        ),
        r is Ok ==> r->Ok_0.pubkey@ == hex_text(public_x(throwaway@)),
        r is Ok ==> r->Ok_0.created_at == outer.at,
{
    let seal: Event = match seal_under(
        sender_secret,
        inner.at,
        &inner.nonce,
        recipient_pubkey,
        rumor.to_json().as_str(),
    ) {
        Ok(seal) => seal,
        Err(e) => {
            return Err(e);
        },
    };
    let r: Result<Event, String> = gift_under(
        throwaway,
        outer.at,
        &outer.nonce,
        recipient_pubkey,
        seal.to_json().as_str(),
    );
    proof {
        let n = encode_utf8(rumor.json()).len();
        seal_len(seal, n);
        padded_len_steps(n);
        assert(n <= MAX_WRAPPED ==> payload_len(n) <= 54704);
        assert(n > MAX_WRAPPED ==> payload_len(n) >= 65628);
        assert(fits(encode_utf8(seal.json()).len()) <==> n <= MAX_WRAPPED);
        assert(seals_under(
            seal,
            sender_secret@,
            inner.at,
            inner.nonce@,
            recipient_pubkey@,
            rumor.json(),
        ));
    }
    r
}

/// Wraps a rumor for one recipient. The throwaway key, and the date and the nonce of
/// each layer, are drawn here.
pub fn wrap(sender_secret: &SecretKey, recipient_pubkey: &str, rumor: &Rumor, now: i64) -> (r:
    Result<Event, String>)
    requires
        now >= i64::MIN + MAX_BACKDATE,
    ensures
        wrapped(sender_secret@, recipient_pubkey@, *rumor, now, r),
{
    let throwaway: SecretKey = SecretKey::random();
    let inner: Layer = draw_layer(now);
    let outer: Layer = draw_layer(now);
    let r: Result<Event, String> = wrap_under(
        sender_secret,
        &throwaway,
        &inner,
        &outer,
        recipient_pubkey,
        rumor,
    );
    proof {
        if shared_key(sender_secret@, recipient_pubkey@) is Ok && fits(
            encode_utf8(rumor.json()).len(),
        ) {
            let seal = choose|seal: Event|
                {
                    &&& #[trigger] seals_under(
                        seal,
                        sender_secret@,
                        inner.at,
                        inner.nonce@,
                        recipient_pubkey@,
                        rumor.json(),
                    )
                    &&& seal.verifies() && seal_opens(seal, recipient_pubkey@, rumor.json())
                    &&& if encode_utf8(rumor.json()).len() <= MAX_WRAPPED {
                        &&& wraps_under(
                            r->Ok_0,
                            throwaway@,
                            outer.at,
                            outer.nonce@,
                            recipient_pubkey@,
                            seal.json(),
                        )
                        &&& r->Ok_0.verifies() && gift_opens(
                            r->Ok_0,
                            recipient_pubkey@,
                            seal.json(),
                        )
                    } else {
                        r->Err_0@ == length_refusal(encode_utf8(seal.json()).len())
                    }
                };
            assert(seals(seal, sender_secret@, recipient_pubkey@, rumor.json(), now));
        }
    }
    r
}

proof fn differing_hex(a: Seq<u8>, b: Seq<u8>)
    requires
        a != b,
    ensures
        hex_text(a) != hex_text(b),
{
    hex_round_trip(a);
    hex_round_trip(b);
}

/// A relay learns the recipient and nothing of the sender: a wrap made with a key that
/// is not the sender's names that key as its author, and its one tag is the recipient.
pub proof fn the_sender_is_not_on_the_wrap(
    sender: Seq<u8>,
    throwaway: Seq<u8>,
    inner: Layer,
    outer: Layer,
    recipient: Seq<char>,
    rumor: Rumor,
    gift: Event,
)
    requires
        wrapped_under(sender, throwaway, inner, outer, recipient, rumor, Ok(gift)),
        public_x(throwaway) != public_x(sender),
    ensures
        gift.pubkey@ == hex_text(public_x(throwaway)),
        gift.pubkey@ != hex_text(public_x(sender)),
        text_rows(gift.tags@) == seq![seq!["p"@, recipient]],
        gift.created_at == outer.at,
{
    let n = encode_utf8(rumor.json()).len();
    assert(n <= MAX_WRAPPED);
    let seal = choose|seal: Event|
        {
            &&& #[trigger] seals_under(
                seal,
                sender,
                inner.at,
                inner.nonce@,
                recipient,
                rumor.json(),
            )
            &&& wraps_under(gift, throwaway, outer.at, outer.nonce@, recipient, seal.json())
        };
    assert(wraps_under(gift, throwaway, outer.at, outer.nonce@, recipient, seal.json()));
    differing_hex(public_x(throwaway), public_x(sender));
}

/// Opens the outer layer: the JSON of the seal inside.
pub fn open_gift(our_secret: &SecretKey, gift: &Event) -> (r: Result<String, String>)
    ensures
        text_outcome(r) == opened_gift(our_secret@, *gift),
{
    if gift.kind != KIND_GIFT_WRAP {
        return Err(
            "not a gift wrap (kind ".to_owned().concat(
                decimal_text(gift.kind as u64).as_str(),
            ).concat(")"),
        );
    }
    if !gift.verify() {
        return Err("gift wrap signature does not verify".to_owned());
    }
    match conversation_key(our_secret, gift.pubkey.as_str()) {
        Ok(key) => decrypt(&key, gift.content.as_str()),
        Err(e) => Err(e),
    }
}

/// Opens the middle layer: the JSON of the rumor inside.
pub fn open_seal(our_secret: &SecretKey, seal: &Event) -> (r: Result<String, String>)
    ensures
        text_outcome(r) == opened_seal(our_secret@, *seal),
{
    if seal.kind != KIND_SEAL {
        return Err(
            "inner event is not a seal (kind ".to_owned().concat(
                decimal_text(seal.kind as u64).as_str(),
            ).concat(")"),
        );
    }
    if !seal.verify() {
        return Err("seal signature does not verify".to_owned());
    }
    match conversation_key(our_secret, seal.pubkey.as_str()) {
        Ok(key) => decrypt(&key, seal.content.as_str()),
        Err(e) => Err(e),
    }
}

/// Whether a rumor found in a seal is taken: its author must have sealed it, and
/// its id must be its own.
pub open spec fn taken(author: Seq<char>, rumor: Rumor, r: Result<Rumor, String>) -> bool {
    if rumor.pubkey@ != author {
        r is Err && r->Err_0@ == "the message claims an author who did not seal it"@
    } else if !rumor.identified() {
        r is Err && r->Err_0@ == "the message id does not match its content"@
    } else {
        r == Ok::<Rumor, String>(rumor)
    }
}

/// Takes the rumor that a seal held, unless it claims another author or another
/// id than its own.
pub fn take_rumor(seal_pubkey: &str, rumor: Rumor) -> (r: Result<Rumor, String>)
    ensures
        taken(seal_pubkey@, rumor, r),
{
    if !same(rumor.pubkey.as_str(), seal_pubkey) {
        return Err("the message claims an author who did not seal it".to_owned());
    }
    let expected: String = event_id(
        rumor.pubkey.as_str(),
        rumor.created_at,
        rumor.kind,
        rumor.tags.as_slice(),
        rumor.content.as_str(),
    );
    if expected != rumor.id {
        return Err("the message id does not match its content".to_owned());
    }
    Ok(rumor)
}

/// What follows once a seal was read.
pub open spec fn unwrapped_seal<G>(
    secret: Seq<u8>,
    seal: Event,
    read_rumor: G,
    r: Result<Rumor, String>,
) -> bool where G: Fn(&str) -> Result<Rumor, String> {
    match opened_seal(secret, seal) {
        Err(e) => r is Err && r->Err_0@ == e,
        Ok(json) => exists|text: &str, read: Result<Rumor, String>|
            {
                &&& text@ == json
                &&& #[trigger] read_rumor.ensures((text,), read)
                &&& match read {
                    Err(e) => r is Err && r->Err_0@ == "decode rumor: "@ + e@,
                    Ok(rumor) => taken(seal.pubkey@, rumor, r),
                }
            },
    }
}

/// What opening a gift wrap gives, whatever the two readers make of the JSON.
pub open spec fn unwrapped<F, G>(
    secret: Seq<u8>,
    gift: Event,
    read_event: F,
    read_rumor: G,
    r: Result<Rumor, String>,
) -> bool where F: Fn(&str) -> Result<Event, String>, G: Fn(&str) -> Result<Rumor, String> {
    match opened_gift(secret, gift) {
        Err(e) => r is Err && r->Err_0@ == e,
        Ok(json) => exists|text: &str, read: Result<Event, String>|
            {
                &&& text@ == json
                &&& #[trigger] read_event.ensures((text,), read)
                &&& match read {
                    Err(e) => r is Err && r->Err_0@ == "decode seal: "@ + e@,
                    Ok(seal) => unwrapped_seal(secret, seal, read_rumor, r),
                }
            },
    }
}

/// Opens a gift wrap addressed to us and gives the rumor inside. The two readers
/// turn JSON into an event and into a rumor.
pub fn unwrap<F, G>(our_secret: &SecretKey, gift: &Event, read_event: F, read_rumor: G) -> (r:
    Result<Rumor, String>) where
    F: Fn(&str) -> Result<Event, String>,
    G: Fn(&str) -> Result<Rumor, String>,

    requires
        forall|text: &str| read_event.requires((text,)),
        forall|text: &str| read_rumor.requires((text,)),
    ensures
        unwrapped(our_secret@, *gift, read_event, read_rumor, r),
{
    let seal_json: String = match open_gift(our_secret, gift) {
        Ok(json) => json,
        Err(e) => {
            return Err(e);
        },
    };
    let seal_text: &str = seal_json.as_str();
    let seal: Event = match read_event(seal_text) {
        Ok(seal) => seal,
        Err(e) => {
            return Err("decode seal: ".to_owned().concat(e.as_str()));
        },
    };
    let rumor_json: String = match open_seal(our_secret, &seal) {
        Ok(json) => json,
        Err(e) => {
            return Err(e);
        },
    };
    let rumor_text: &str = rumor_json.as_str();
    match read_rumor(rumor_text) {
        Ok(rumor) => take_rumor(seal.pubkey.as_str(), rumor),
        Err(e) => Err("decode rumor: ".to_owned().concat(e.as_str())),
    }
}

/// What opens was sealed by the author it names: a seal that verifies under that
/// name held it, and its id is its own.
pub proof fn opened_by_its_author<F, G>(
    secret: Seq<u8>,
    gift: Event,
    read_event: F,
    read_rumor: G,
    r: Result<Rumor, String>,
) where F: Fn(&str) -> Result<Event, String>, G: Fn(&str) -> Result<Rumor, String>
    requires
        unwrapped(secret, gift, read_event, read_rumor, r),
        r is Ok,
    ensures
        r->Ok_0.identified(),
        hex_bytes(r->Ok_0.pubkey@) is Some,
        exists|seal: Event| #[trigger] seal.verifies() && seal.pubkey@ == r->Ok_0.pubkey@,
{
    let json = opened_gift(secret, gift)->Ok_0;
    let (text, read) = choose|text: &str, read: Result<Event, String>|
        {
            &&& text@ == json
            &&& #[trigger] read_event.ensures((text,), read)
            &&& match read {
                Err(e) => r is Err && r->Err_0@ == "decode seal: "@ + e@,
                Ok(seal) => unwrapped_seal(secret, seal, read_rumor, r),
            }
        };
    let seal = read->Ok_0;
    assert(seal.verifies());
}

/// Whether two readers give back what was written as JSON.
pub open spec fn faithful<F, G>(read_event: F, read_rumor: G) -> bool where
    F: Fn(&str) -> Result<Event, String>,
    G: Fn(&str) -> Result<Rumor, String>,
 {
    &&& forall|e: Event, text: &str, read: Result<Event, String>|
        #![trigger e.json(), read_event.ensures((text,), read)]
        text@ == e.json() && read_event.ensures((text,), read) ==> read == Ok::<Event, String>(e)
    &&& forall|m: Rumor, text: &str, read: Result<Rumor, String>|
        #![trigger m.json(), read_rumor.ensures((text,), read)]
        text@ == m.json() && read_rumor.ensures((text,), read) ==> read == Ok::<Rumor, String>(m)
}

/// What one wraps the other opens, and its author survives: the recipient finds the
/// rumor that was wrapped, provided it names the one who wrapped it and has its own
/// id. A rumor that names another is refused.
pub proof fn a_wrap_opens<F, G>(
    sender: Seq<u8>,
    recipient: Seq<char>,
    reader: Seq<u8>,
    rumor: Rumor,
    now: i64,
    gift: Event,
    read_event: F,
    read_rumor: G,
    r: Result<Rumor, String>,
) where F: Fn(&str) -> Result<Event, String>, G: Fn(&str) -> Result<Rumor, String>
    requires
        wrapped(sender, recipient, rumor, now, Ok(gift)),
        names_secret(recipient, reader),
        faithful(read_event, read_rumor),
        unwrapped(reader, gift, read_event, read_rumor, r),
    ensures
        taken(hex_text(public_x(sender)), rumor, r),
        rumor.pubkey@ == hex_text(public_x(sender)) && rumor.identified() ==> r == Ok::<
            Rumor,
            String,
        >(rumor),
        rumor.pubkey@ != hex_text(public_x(sender)) ==> r is Err && r->Err_0@
            == "the message claims an author who did not seal it"@,
{
    let seal = choose|seal: Event| #[trigger]
        seals(seal, sender, recipient, rumor.json(), now) && wraps(
            gift,
            recipient,
            seal.json(),
            now,
        );
    assert(opened_gift(reader, gift) == Ok::<Seq<char>, Seq<char>>(seal.json()));
    let (text, read) = choose|text: &str, read: Result<Event, String>|
        {
            &&& text@ == seal.json()
            &&& #[trigger] read_event.ensures((text,), read)
            &&& match read {
                Err(e) => r is Err && r->Err_0@ == "decode seal: "@ + e@,
                Ok(seal) => unwrapped_seal(reader, seal, read_rumor, r),
            }
        };
    assert(read == Ok::<Event, String>(seal));
    assert(opened_seal(reader, seal) == Ok::<Seq<char>, Seq<char>>(rumor.json()));
    let (inner, found) = choose|inner: &str, found: Result<Rumor, String>|
        {
            &&& inner@ == rumor.json()
            &&& #[trigger] read_rumor.ensures((inner,), found)
            &&& match found {
                Err(e) => r is Err && r->Err_0@ == "decode rumor: "@ + e@,
                Ok(rumor) => taken(seal.pubkey@, rumor, r),
            }
        };
    assert(found == Ok::<Rumor, String>(rumor));
}

/// A gift wrap whose content was altered is refused: it opens only where two different
/// texts have one digest.
pub proof fn an_altered_wrap_is_refused<F, G>(
    secret: Seq<u8>,
    gift: Event,
    altered: Event,
    read_event: F,
    read_rumor: G,
    r: Result<Rumor, String>,
) where F: Fn(&str) -> Result<Event, String>, G: Fn(&str) -> Result<Rumor, String>
    requires
        gift.verifies(),
        altered == (Event { content: altered.content, ..gift }),
        altered.content@ != gift.content@,
        unwrapped(secret, altered, read_event, read_rumor, r),
    ensures
        r is Ok ==> collide(form_of(gift), form_of(altered)),
        !collide(form_of(gift), form_of(altered)) && gift.kind == KIND_GIFT_WRAP ==> r is Err
            && r->Err_0@ == "gift wrap signature does not verify"@,
{
    altered_content_is_noticed(gift, altered);
}

/// A second reader is refused: what one secret opens another opens only where both of
/// their keys give the payload one code.
pub proof fn another_reader_is_refused<F, G>(
    reader: Seq<u8>,
    other: Seq<u8>,
    gift: Event,
    read_event: F,
    read_rumor: G,
    r: Result<Rumor, String>,
) where F: Fn(&str) -> Result<Event, String>, G: Fn(&str) -> Result<Rumor, String>
    requires
        opened_gift(reader, gift) is Ok,
        unwrapped(other, gift, read_event, read_rumor, r),
    ensures
        r is Ok ==> (shared_key(reader, gift.pubkey@) matches Ok(key) && shared_key(
            other,
            gift.pubkey@,
        ) matches Ok(second) && base64_bytes(gift.content@) matches Ok(raw) && code_under(
            key,
            raw,
        ) == code_under(second, raw)),
{
    if r is Ok {
        let raw = base64_bytes(gift.content@)->Ok_0;
        a_payload_opens_by_its_code(
            shared_key(reader, gift.pubkey@)->Ok_0,
            shared_key(other, gift.pubkey@)->Ok_0,
            raw,
            raw,
        );
    }
}

} // verus!
