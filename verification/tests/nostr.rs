use discordia::crypto::SecretKey;
use discordia::identity::Identity;
use discordia::nostr::event::{canonical, event_id, rumor, sign_with, xonly_hex, Event, Rumor};
use discordia::nostr::metadata::{name_from, own_metadata_event, sanitize, KIND_METADATA, MAX_NAME_CHARS};
use discordia::nostr::nip02::{
    contact_list_event, parse_contact_list, Contact, ContactList, KIND_CONTACTS,
};
use discordia::nostr::nip17::{
    chat_rumor, dm_relay_list, open_chat, parse_dm_relay_list, wrap_both, ChatMessage,
    KIND_DM_RELAYS,
};
use discordia::nostr::nip44::{
    calc_padded_len, conversation_key, decrypt, encrypt, encrypt_with_nonce, message_keys, pad,
    unpad,
};
use discordia::nostr::nip59::{
    fuzzed, gift_under, put_back, seal_under, take_rumor, unwrap, wrap, wrap_under, Layer, KIND_GIFT_WRAP,
    MAX_BACKDATE, MAX_WRAPPED,
};
use discordia::nostr::relay::{
    default_relays, handle_relay_message, next_backoff, publish_frame, request_frame, Filter,
    RelayEvent, SeenSet, RECONNECT_MAX, RECONNECT_MIN,
};
use discordia::nostr::service::{
    conversation_id, hidden_by_delete, insert_message, introduce, message_filters, message_id,
    names_wanted, on_command, on_relay_status, open_conversation, receive, request_names,
    send_message, set_contact, take_event, NostrCmd, Source, FIRST_MOMENT,
    LAST_MOMENT, NAME_AUTHOR_CAP,
};
use discordia::nostr::xp::{
    parse_xp, xp_event, GlobalXp, Publisher, D_TAG, KIND_APP_DATA, MAX_XP, PUBLISH_COOLDOWN,
};
use discordia::state::{AppState, DmInfo};
use serde_json::Value;
use sha2::Digest;

fn key(seed: u8) -> SecretKey {
    SecretKey::from_slice(&[seed; 32]).expect("valid key")
}

fn hex32(s: &str) -> [u8; 32] {
    hex::decode(s).expect("valid hex").try_into().expect("32 bytes")
}

fn seckey(s: &str) -> SecretKey {
    SecretKey::from_slice(&hex32(s)).expect("valid secret key")
}

fn text_of(v: &Value, name: &str) -> Option<String> {
    v.get(name)?.as_str().map(str::to_string)
}

fn rows_of(v: &Value) -> Option<Vec<Vec<String>>> {
    let mut rows = Vec::new();
    for row in v.get("tags")?.as_array()? {
        let mut items = Vec::new();
        for item in row.as_array()? {
            items.push(item.as_str()?.to_string());
        }
        rows.push(items);
    }
    Some(rows)
}

fn rumor_of(v: &Value) -> Option<Rumor> {
    Some(Rumor {
        id: text_of(v, "id")?,
        pubkey: text_of(v, "pubkey")?,
        created_at: v.get("created_at")?.as_i64()?,
        kind: u16::try_from(v.get("kind")?.as_u64()?).ok()?,
        tags: rows_of(v)?,
        content: text_of(v, "content")?,
    })
}

fn event_of(v: &Value) -> Option<Event> {
    let r = rumor_of(v)?;
    Some(Event {
        id: r.id,
        pubkey: r.pubkey,
        created_at: r.created_at,
        kind: r.kind,
        tags: r.tags,
        content: r.content,
        sig: text_of(v, "sig")?,
    })
}

fn read_event(text: &str) -> Result<Event, String> {
    let v: Value = serde_json::from_str(text).map_err(|e| e.to_string())?;
    event_of(&v).ok_or_else(|| "not an event".to_string())
}

fn read_rumor(text: &str) -> Result<Rumor, String> {
    let v: Value = serde_json::from_str(text).map_err(|e| e.to_string())?;
    rumor_of(&v).ok_or_else(|| "not a rumor".to_string())
}

fn read_xp(text: &str) -> Option<GlobalXp> {
    let v: Value = serde_json::from_str(text).ok()?;
    Some(GlobalXp {
        xp: v.get("xp").and_then(Value::as_u64).unwrap_or(0),
        servers: v.get("servers").and_then(Value::as_u64).unwrap_or(0) as u32,
    })
}

fn open(secret: &SecretKey, gift: &Event) -> Result<Rumor, String> {
    unwrap(secret, gift, read_event, read_rumor)
}

fn chat_of(secret: &SecretKey, us: &str, gift: &Event) -> Result<ChatMessage, String> {
    open_chat(secret, us, gift, read_event, read_rumor)
}

// Events.

#[test]
fn a_signed_event_verifies() {
    let e = sign_with(&key(1), 1_700_000_000, 1, vec![], "hello".into());
    assert!(e.verify());
    assert_eq!(e.id.len(), 64);
    assert_eq!(e.pubkey, xonly_hex(&key(1)));
}

#[test]
fn editing_any_field_breaks_it() {
    let base = sign_with(
        &key(2),
        1_700_000_000,
        14,
        vec![vec!["p".into(), "abc".into()]],
        "pay me".into(),
    );
    for mutate in [
        (|e: &mut Event| e.content = "pay them".into()) as fn(&mut Event),
        |e: &mut Event| e.created_at += 1,
        |e: &mut Event| e.kind = 1,
        |e: &mut Event| e.tags.clear(),
    ] {
        let mut tampered = base.clone();
        mutate(&mut tampered);
        assert!(!tampered.verify(), "a rewritten event must not verify");
    }
    let mut resigned = base.clone();
    resigned.sig = sign_with(
        &key(3),
        base.created_at,
        base.kind,
        base.tags.clone(),
        base.content.clone(),
    )
    .sig;
    assert!(!resigned.verify(), "a signature by another key must not verify");
}

#[test]
fn the_canonical_form_is_exactly_the_spec_s() {
    let s = canonical("ab", 1, 14, &[vec!["p".into(), "cd".into()]], "hi \"you\"\n");
    assert_eq!(s, r#"[0,"ab",1,14,[["p","cd"]],"hi \"you\"\n"]"#);
}

#[test]
fn the_canonical_form_escapes_seven_characters_only() {
    let s = canonical("", -5, 0, &[], "\u{8}\t\n\u{c}\r\"\\\u{1}\u{7f}é");
    assert_eq!(s, "[0,\"\",-5,0,[],\"\\b\\t\\n\\f\\r\\\"\\\\\u{1}\u{7f}é\"]");
}

#[test]
fn a_rumor_has_an_id_and_no_signature() {
    let pk = xonly_hex(&key(4));
    let r = rumor(&pk, 1_700_000_000, 14, vec![], "unsigned".into());
    assert_eq!(
        r.id,
        event_id(&pk, 1_700_000_000, 14, &[], "unsigned"),
        "a rumor is identified exactly like an event"
    );
    let json = r.to_json();
    assert!(!json.contains("\"sig\""), "a rumor must carry no signature");
}

#[test]
fn an_event_is_read_back_from_its_json() {
    let e = sign_with(
        &key(5),
        1_700_000_000,
        7,
        vec![vec!["p".into(), "x\"y".into()], vec![]],
        "two\nlines \u{1}".into(),
    );
    assert_eq!(read_event(&e.to_json()).expect("an event"), e);
    let r = rumor(&xonly_hex(&key(5)), 3, 14, vec![vec!["e".into()]], "\\".into());
    assert_eq!(read_rumor(&r.to_json()).expect("a rumor"), r);
}

#[test]
fn a_tag_is_the_first_of_its_name() {
    let e = sign_with(
        &key(5),
        1,
        1,
        vec![
            vec!["e".into()],
            vec!["p".into(), "one".into()],
            vec!["p".into(), "two".into()],
        ],
        String::new(),
    );
    assert_eq!(e.tag("p"), Some("one"));
    assert_eq!(e.tag("e"), None);
    assert_eq!(e.tag("q"), None);
}

// Encryption.

#[test]
fn conversation_keys_match_the_spec() {
    for (sec1, pub2, want) in [
        (
            "315e59ff51cb9209768cf7da80791ddcaae56ac9775eb25b6dee1234bc5d2268",
            "c2f9d9948dc8c7c38321e4b85c8558872eafa0641cd269db76848a6073e69133",
            "3dfef0ce2a4d80a25e7a328accf73448ef67096f65f79588e358d9a0eb9013f1",
        ),
        (
            "0000000000000000000000000000000000000000000000000000000000000001",
            "c6047f9441ed7d6d3045406e95c07cd85c778e4b8cef3ca7abac09b95c709ee5",
            "c41c775356fd92eadc63ff5a0dc1da211b268cbea22316767095b2871ea1412d",
        ),
    ] {
        let got = conversation_key(&seckey(sec1), pub2).expect("a key");
        assert_eq!(hex::encode(got), want);
    }
}

#[test]
fn message_keys_match_the_spec() {
    let ck = hex32("a1a3d60f3470a8612633924e91febf96dc5366ce130f658b1f0fc652c20b3b54");
    let (key, nonce, hmac) = message_keys(
        &ck,
        &hex32("e1e6f880560d6d149ed83dcc7e5861ee62a5ee051f7fde9975fe5d25d2a02d72"),
    );
    assert_eq!(
        hex::encode(key),
        "f145f3bed47cb70dbeaac07f3a3fe683e822b3715edb7c4fe310829014ce7d76"
    );
    assert_eq!(hex::encode(nonce), "c4ad129bb01180c0933a160c");
    assert_eq!(
        hex::encode(hmac),
        "027c1db445f05e2eee864a0975b0ddef5b7110583c8c192de3732571ca5838c4"
    );
}

#[test]
fn padded_lengths_match_the_spec() {
    for (unpadded, padded) in [
        (16, 32),
        (32, 32),
        (33, 64),
        (37, 64),
        (45, 64),
        (49, 64),
        (64, 64),
        (65, 96),
        (100, 128),
        (111, 128),
        (200, 224),
        (250, 256),
        (320, 320),
        (383, 384),
        (384, 384),
        (400, 448),
        (500, 512),
        (512, 512),
        (515, 640),
        (700, 768),
        (800, 896),
        (900, 1024),
        (1020, 1024),
        (65536, 65536),
    ] {
        assert_eq!(calc_padded_len(unpadded), padded, "calc_padded_len({unpadded})");
    }
}

#[test]
fn encrypt_and_decrypt_match_the_spec() {
    let one = "0000000000000000000000000000000000000000000000000000000000000001";
    let two = "0000000000000000000000000000000000000000000000000000000000000002";
    for (sec1, sec2, nonce, plaintext, payload) in [
        (
            one,
            two,
            one,
            "a",
            "AgAAAAAAAAAAAAAAAAAAAAAAAAAAAAAAAAAAAAAAAAABee0G5VSK0/9YypIObAtDKfYEAjD35uVkHyB0F4DwrcNaCXlCWZKaArsGrY6M9wnuTMxWfp1RTN9Xga8no+kF5Vsb",
        ),
        (
            two,
            one,
            "f00000000000000000000000000000f00000000000000000000000000000000f",
            "🍕🫃",
            "AvAAAAAAAAAAAAAAAAAAAPAAAAAAAAAAAAAAAAAAAAAPSKSK6is9ngkX2+cSq85Th16oRTISAOfhStnixqZziKMDvB0QQzgFZdjLTPicCJaV8nDITO+QfaQ61+KbWQIOO2Yj",
        ),
    ] {
        let ck = conversation_key(&seckey(sec1), &xonly_hex(&seckey(sec2))).expect("a key");
        let mirrored = conversation_key(&seckey(sec2), &xonly_hex(&seckey(sec1))).expect("a key");
        assert_eq!(ck, mirrored, "conversation key is not symmetric");
        let got = encrypt_with_nonce(&ck, &hex32(nonce), plaintext).expect("encrypt");
        assert_eq!(got, payload);
        assert_eq!(decrypt(&ck, &got).expect("decrypt"), plaintext);
    }
}

#[test]
fn long_messages_match_the_spec() {
    let ck = hex32("8fc262099ce0d0bb9b89bac05bb9e04f9bc0090acc181fef6840ccee470371ed");
    let nonce = hex32("326bcb2c943cd6bb717588c9e5a7e738edf6ed14ec5f5344caa6ef56f0b9cff7");
    let plaintext = "x".repeat(65535);
    assert_eq!(
        hex::encode(sha2::Sha256::digest(plaintext.as_bytes())),
        "09ab7495d3e61a76f0deb12cb0306f0696cbb17ffc12131368c7a939f12f56d3"
    );
    let payload = encrypt_with_nonce(&ck, &nonce, &plaintext).expect("encrypt");
    assert_eq!(
        hex::encode(sha2::Sha256::digest(payload.as_bytes())),
        "90714492225faba06310bff2f249ebdc2a5e609d65a629f1c87f2d4ffc55330a"
    );
    assert_eq!(decrypt(&ck, &payload).expect("decrypt"), plaintext);
}

#[test]
fn the_spec_s_invalid_payloads_are_all_refused() {
    let ck = [7u8; 32];
    let good = encrypt_with_nonce(&ck, &[9u8; 32], "words").expect("encrypt");
    let marked = format!("#{}", &good[1..]);
    let other_version = format!("B{}", &good[1..]);
    let not_base64 = format!("{}!", &good[..good.len() - 1]);
    let last = if good.ends_with('A') { "B" } else { "A" };
    let mut wrong_mac = good.clone();
    wrong_mac.truncate(good.len() - 4);
    wrong_mac.push_str(&last.repeat(4));
    for payload in [
        marked.as_str(),
        other_version.as_str(),
        not_base64.as_str(),
        wrong_mac.as_str(),
        "",
        &good[..40],
    ] {
        assert!(decrypt(&ck, payload).is_err(), "{payload} should have been refused");
    }
    assert!(decrypt(&[8u8; 32], &good).is_err());
    for len in [0, 65536, 100000] {
        assert!(
            encrypt_with_nonce(&[1u8; 32], &[2u8; 32], &"a".repeat(len)).is_err(),
            "length {len} should have been refused"
        );
    }
    let one = "0000000000000000000000000000000000000000000000000000000000000001";
    for pub2 in [
        "ffffffffffffffffffffffffffffffffffffffffffffffffffffffffffffffff",
        "0000000000000000000000000000000000000000000000000000000000000000",
        "1234567890abcdef1234567890abcdef1234567890abcdef1234567890abcdef",
    ] {
        assert!(conversation_key(&seckey(one), pub2).is_err(), "{pub2}");
    }
    assert!(SecretKey::from_slice(&[0xff; 32]).is_err());
    assert!(SecretKey::from_slice(&[0; 32]).is_err());
}

#[test]
fn the_same_message_encrypts_differently_each_time() {
    let ck = [7u8; 32];
    let a = encrypt(&ck, "same words").expect("encrypt");
    let b = encrypt(&ck, "same words").expect("encrypt");
    assert_ne!(a, b, "a reused nonce would reveal the xor of two messages");
    assert_eq!(decrypt(&ck, &a).expect("decrypt"), "same words");
    assert_eq!(decrypt(&ck, &b).expect("decrypt"), "same words");
}

#[test]
fn padding_is_undone_and_bad_padding_refused() {
    let padded = pad(b"abc").expect("pad");
    assert_eq!(padded.len(), 2 + 32);
    assert_eq!(&padded[..5], &[0, 3, b'a', b'b', b'c']);
    assert_eq!(unpad(&padded).expect("unpad"), "abc");
    assert!(pad(b"").is_err());
    assert!(pad(&vec![b'a'; 65536]).is_err());
    assert!(unpad(&padded[..33]).is_err());
    let mut empty = padded.clone();
    empty[1] = 0;
    assert!(unpad(&empty).is_err());
    assert!(unpad(&[0]).is_err());
}

// Gift wraps.

fn a_rumor(from: &SecretKey, text: &str) -> Rumor {
    rumor(&xonly_hex(from), 1_700_000_000, 14, vec![], text.into())
}

#[test]
fn a_wrapped_message_opens_for_its_recipient() {
    let (alice, bob) = (key(1), key(2));
    let r = a_rumor(&alice, "meet at the usual place");
    let gift = wrap(&alice, &xonly_hex(&bob), &r, 1_700_000_000).expect("wrap");
    let got = open(&bob, &gift).expect("unwrap");
    assert_eq!(got.content, "meet at the usual place");
    assert_eq!(got.pubkey, xonly_hex(&alice), "authorship survives the wrap");
}

#[test]
fn the_relay_learns_nothing_but_the_recipient() {
    let (alice, bob) = (key(1), key(2));
    let gift =
        wrap(&alice, &xonly_hex(&bob), &a_rumor(&alice, "secret"), 1_700_000_000).expect("wrap");
    assert_ne!(gift.pubkey, xonly_hex(&alice), "the sender must not be on the wrap");
    assert_ne!(gift.pubkey, xonly_hex(&bob));
    assert_eq!(gift.kind, KIND_GIFT_WRAP);
    assert_eq!(gift.tag("p"), Some(xonly_hex(&bob).as_str()));
    assert!(!gift.content.contains("secret"));
    assert_eq!(gift.tags.len(), 1, "nothing but the recipient may be in the clear");
}

#[test]
fn two_wraps_of_one_message_are_unlinkable() {
    let (alice, bob) = (key(1), key(2));
    let r = a_rumor(&alice, "same words");
    let a = wrap(&alice, &xonly_hex(&bob), &r, 1_700_000_000).expect("wrap");
    let b = wrap(&alice, &xonly_hex(&bob), &r, 1_700_000_000).expect("wrap");
    assert_ne!(a.pubkey, b.pubkey, "each wrap needs its own throwaway key");
    assert_ne!(a.content, b.content);
    assert_ne!(a.id, b.id);
}

#[test]
fn an_outsider_cannot_open_it() {
    let (alice, bob, mallory) = (key(1), key(2), key(3));
    let gift =
        wrap(&alice, &xonly_hex(&bob), &a_rumor(&alice, "private"), 1_700_000_000).expect("wrap");
    assert!(open(&mallory, &gift).is_err());
}

#[test]
fn a_rumor_cannot_claim_an_author_who_did_not_seal_it() {
    let (alice, bob, mallory) = (key(1), key(2), key(3));
    let forged = rumor(
        &xonly_hex(&alice),
        1_700_000_000,
        14,
        vec![],
        "transfer everything to mallory".into(),
    );
    let gift = wrap(&mallory, &xonly_hex(&bob), &forged, 1_700_000_000).expect("wrap");
    let err = open(&bob, &gift).expect_err("must be refused");
    assert!(err.contains("did not seal it"), "unexpected error: {err}");
}

#[test]
fn timestamps_are_fuzzed_into_the_past() {
    let (alice, bob) = (key(1), key(2));
    let now = 1_700_000_000;
    let stamps: Vec<i64> = (0..12)
        .map(|_| {
            wrap(&alice, &xonly_hex(&bob), &a_rumor(&alice, "x"), now)
                .expect("wrap")
                .created_at
        })
        .collect();
    assert!(stamps.iter().all(|t| *t <= now && *t >= now - MAX_BACKDATE));
    assert!(
        stamps.iter().collect::<std::collections::HashSet<_>>().len() > 1,
        "an unfuzzed timestamp would correlate sender and recipient"
    );
}

#[test]
fn a_tampered_wrap_is_refused() {
    let (alice, bob) = (key(1), key(2));
    let mut gift =
        wrap(&alice, &xonly_hex(&bob), &a_rumor(&alice, "original"), 1_700_000_000).expect("wrap");
    gift.content.push('A');
    assert!(open(&bob, &gift).is_err());
}

#[test]
fn a_rumor_is_wrapped_up_to_a_length() {
    let (alice, bob) = (key(1), key(2));
    let empty = a_rumor(&alice, "").to_json().len();
    let fits = a_rumor(&alice, &"x".repeat(MAX_WRAPPED - empty));
    assert_eq!(fits.to_json().len(), MAX_WRAPPED);
    let gift = wrap(&alice, &xonly_hex(&bob), &fits, 1_700_000_000).expect("wrap");
    assert_eq!(open(&bob, &gift), Ok(fits));
    let long = a_rumor(&alice, &"x".repeat(MAX_WRAPPED - empty + 1));
    assert!(wrap(&alice, &xonly_hex(&bob), &long, 1_700_000_000).is_err());
}

#[test]
fn a_rumor_with_another_id_is_refused() {
    let r = a_rumor(&key(1), "words");
    assert_eq!(take_rumor(&xonly_hex(&key(1)), r.clone()), Ok(r.clone()));
    let mut other = r;
    other.content = "other words".into();
    assert_eq!(
        take_rumor(&xonly_hex(&key(1)), other),
        Err("the message id does not match its content".to_string())
    );
}

#[test]
fn only_a_gift_wrap_is_unwrapped() {
    let e = sign_with(&key(1), 1, 1, vec![], "hello".into());
    assert!(open(&key(2), &e).is_err());
}

// Chat.

#[test]
fn both_sides_read_the_same_conversation() {
    let (alice, bob) = (key(1), key(2));
    let (a_pub, b_pub) = (xonly_hex(&alice), xonly_hex(&bob));
    let r = chat_rumor(&a_pub, &b_pub, "are you there?", None, 1_700_000_000);
    let (theirs, ours) = wrap_both(&alice, &b_pub, &r, 1_700_000_000).expect("wrap");

    let at_bob = chat_of(&bob, &b_pub, &theirs).expect("bob reads it");
    assert_eq!(at_bob.content, "are you there?");
    assert_eq!(at_bob.author, a_pub);
    assert_eq!(at_bob.peer, a_pub, "for bob the peer is alice");

    let at_alice = chat_of(&alice, &a_pub, &ours).expect("alice reads her own copy");
    assert_eq!(at_alice.content, "are you there?");
    assert_eq!(at_alice.peer, b_pub, "for alice the peer is bob");
    assert_eq!(at_alice.id, at_bob.id, "one message, one id, two copies");
}

#[test]
fn our_own_copy_is_addressed_to_us() {
    let (alice, bob) = (key(1), key(2));
    let (a_pub, b_pub) = (xonly_hex(&alice), xonly_hex(&bob));
    let r = chat_rumor(&a_pub, &b_pub, "note to self", None, 1_700_000_000);
    let (theirs, ours) = wrap_both(&alice, &b_pub, &r, 1_700_000_000).expect("wrap");
    assert_eq!(ours.tag("p"), Some(a_pub.as_str()));
    assert_eq!(theirs.tag("p"), Some(b_pub.as_str()));
    assert_ne!(ours.pubkey, theirs.pubkey);
}

#[test]
fn a_reply_points_at_its_parent() {
    let (alice, bob) = (key(1), key(2));
    let (a_pub, b_pub) = (xonly_hex(&alice), xonly_hex(&bob));
    let first = chat_rumor(&a_pub, &b_pub, "question", None, 1_700_000_000);
    let second = chat_rumor(&b_pub, &a_pub, "answer", Some(&first.id), 1_700_000_100);
    let (to_alice, _) = wrap_both(&bob, &a_pub, &second, 1_700_000_100).expect("wrap");
    let got = chat_of(&alice, &a_pub, &to_alice).expect("open");
    assert_eq!(got.reply_to.as_deref(), Some(first.id.as_str()));
}

#[test]
fn a_message_between_other_people_is_refused() {
    let (alice, bob, carol) = (key(1), key(2), key(3));
    let (b_pub, c_pub) = (xonly_hex(&bob), xonly_hex(&carol));
    let r = chat_rumor(&b_pub, &c_pub, "about alice…", None, 1_700_000_000);
    let to_alice = wrap(&bob, &xonly_hex(&alice), &r, 1_700_000_000).expect("wrap");
    let err = chat_of(&alice, &xonly_hex(&alice), &to_alice).expect_err("refused");
    assert!(err.contains("not part of a conversation we are in"), "{err}");
}

#[test]
fn only_chat_kinds_become_messages() {
    let (alice, bob) = (key(1), key(2));
    let b_pub = xonly_hex(&bob);
    let not_chat = rumor(&xonly_hex(&alice), 1_700_000_000, 9999, vec![], "x".into());
    let gift = wrap(&alice, &b_pub, &not_chat, 1_700_000_000).expect("wrap");
    assert!(chat_of(&bob, &b_pub, &gift).is_err());
}

#[test]
fn the_dm_relay_list_round_trips() {
    let relays = vec!["wss://a.example".to_string(), "wss://b.example".to_string()];
    let e = dm_relay_list(&key(1), &relays, 1_700_000_000);
    assert_eq!(e.kind, KIND_DM_RELAYS);
    assert!(e.content.is_empty(), "the list carries no content");
    assert!(e.verify());
    assert_eq!(parse_dm_relay_list(&e), relays);
}

// Contacts.

fn pk(c: char) -> String {
    c.to_string().repeat(64)
}

fn contact(pubkey: String, petname: Option<&str>) -> Contact {
    Contact {
        pubkey,
        relay: None,
        petname: petname.map(str::to_string),
    }
}

#[test]
fn a_contact_list_round_trips() {
    let list = ContactList::default()
        .with(Contact {
            pubkey: pk('a'),
            relay: Some("wss://r.example".into()),
            petname: Some("Ana".into()),
        })
        .with(contact(pk('b'), None));
    let e = contact_list_event(&key(1), &list, 1_700_000_000);
    assert!(e.verify());
    assert_eq!(parse_contact_list(&e), list);
}

#[test]
fn a_petname_without_a_relay_stays_a_petname() {
    let list = ContactList::default().with(contact(pk('c'), Some("Cy")));
    let parsed = parse_contact_list(&contact_list_event(&key(1), &list, 1));
    assert_eq!(parsed.contacts[0].petname.as_deref(), Some("Cy"));
    assert_eq!(parsed.contacts[0].relay, None);
}

#[test]
fn editing_a_contact_does_not_duplicate_it() {
    let list = ContactList::default()
        .with(contact(pk('a'), Some("old")))
        .with(contact(pk('a'), Some("new")));
    assert_eq!(list.contacts.len(), 1);
    assert_eq!(list.petname(&pk('a')), Some("new"));
}

#[test]
fn removing_one_contact_keeps_the_others() {
    let list = ContactList::default()
        .with(contact(pk('a'), None))
        .with(contact(pk('b'), None))
        .without(&pk('a'));
    assert!(!list.contains(&pk('a')));
    assert!(list.contains(&pk('b')));
}

#[test]
fn malformed_entries_are_skipped() {
    let e = sign_with(
        &key(1),
        1,
        KIND_CONTACTS,
        vec![
            vec!["p".into(), "not-a-key".into()],
            vec!["p".into(), pk('d')],
            vec!["e".into(), pk('e')],
        ],
        String::new(),
    );
    let parsed = parse_contact_list(&e);
    assert_eq!(parsed.contacts.len(), 1);
    assert_eq!(parsed.contacts[0].pubkey, pk('d'));
}

// Names.

fn metadata(content: &str) -> Event {
    sign_with(&key(9), 1_700_000_000, KIND_METADATA, vec![], content.to_string())
}

#[test]
fn the_display_name_wins_over_the_handle() {
    let e = metadata(r#"{"name":"ana_r","display_name":"Ana Rivas","about":"hi"}"#);
    assert_eq!(name_from(&e).as_deref(), Some("Ana Rivas"));
}

#[test]
fn the_legacy_spelling_is_read_too() {
    let e = metadata(r#"{"name":"ana_r","displayName":"Ana"}"#);
    assert_eq!(name_from(&e).as_deref(), Some("Ana"));
}

#[test]
fn the_handle_is_used_when_it_is_all_there_is() {
    let e = metadata(r#"{"name":"ana_r"}"#);
    assert_eq!(name_from(&e).as_deref(), Some("ana_r"));
}

#[test]
fn an_empty_display_name_falls_through_to_the_handle() {
    let e = metadata(r#"{"display_name":"   ","name":"ana_r"}"#);
    assert_eq!(name_from(&e).as_deref(), Some("ana_r"));
}

#[test]
fn unusable_content_yields_no_name() {
    assert_eq!(name_from(&metadata("not json")), None);
    assert_eq!(name_from(&metadata("{}")), None);
    assert_eq!(name_from(&metadata(r#"{"name":42}"#)), None);
    assert_eq!(name_from(&metadata(r#"{"name":""}"#)), None);
}

#[test]
fn only_kind_zero_carries_a_name() {
    let mut e = metadata(r#"{"name":"ana"}"#);
    e.kind = 1;
    assert_eq!(name_from(&e), None);
}

#[test]
fn a_name_cannot_span_two_lines() {
    assert_eq!(
        sanitize("Ana\nadmin — verified").as_deref(),
        Some("Ana admin — verified")
    );
    assert_eq!(sanitize("Ana\t\tRivas").as_deref(), Some("Ana Rivas"));
    assert_eq!(sanitize("  Ana  ").as_deref(), Some("Ana"));
}

#[test]
fn invisible_characters_are_removed_and_useful_ones_are_not() {
    assert_eq!(sanitize("A\u{202E}na").as_deref(), Some("Ana"));
    assert_eq!(sanitize("An\u{200B}a").as_deref(), Some("Ana"));
    assert_eq!(sanitize("\u{FEFF}Ana").as_deref(), Some("Ana"));
    assert_eq!(
        sanitize("\u{1F468}\u{200D}\u{1F469}\u{200D}\u{1F467}").as_deref(),
        Some("\u{1F468}\u{200D}\u{1F469}\u{200D}\u{1F467}")
    );
    assert_eq!(
        sanitize("\u{645}\u{200C}\u{6CC}").as_deref(),
        Some("\u{645}\u{200C}\u{6CC}")
    );
}

#[test]
fn a_name_made_only_of_nothing_is_no_name() {
    assert_eq!(sanitize("\u{200B}\u{202E}  \n"), None);
    assert_eq!(sanitize(""), None);
}

#[test]
fn a_long_name_is_cut_to_the_cap() {
    let cut = sanitize(&"ñ".repeat(200)).expect("some name");
    assert_eq!(cut.chars().count(), MAX_NAME_CHARS);
}

#[test]
fn a_name_is_cut_where_the_cap_falls() {
    let a = "a".repeat(47);
    assert_eq!(sanitize(&format!("{a} b")), Some(format!("{a} ")));
    assert_eq!(sanitize(&format!("{a}a b")), Some(format!("{a}a")));
    assert_eq!(sanitize(&format!("{a}  ")), Some(a));
}

// Totals.

#[test]
fn a_total_round_trips_and_is_signed() {
    let mine = GlobalXp { xp: 1_234, servers: 3 };
    let e = xp_event(&key(1), &mine, 1_700_000_000);
    assert!(e.verify());
    assert_eq!(parse_xp(&e, read_xp), Some(mine));
}

#[test]
fn another_apps_note_under_the_same_kind_is_not_ours() {
    let e = sign_with(
        &key(1),
        1,
        KIND_APP_DATA,
        vec![vec!["d".into(), "someone-else:prefs".into()]],
        r#"{"xp":9000}"#.into(),
    );
    assert_eq!(parse_xp(&e, read_xp), None);
}

#[test]
fn an_untagged_note_is_not_ours_either() {
    let e = sign_with(&key(1), 1, KIND_APP_DATA, vec![], r#"{"xp":1}"#.into());
    assert_eq!(parse_xp(&e, read_xp), None);
}

#[test]
fn a_wild_claim_is_clamped_rather_than_dropped() {
    let e = sign_with(
        &key(1),
        1,
        KIND_APP_DATA,
        vec![vec!["d".into(), D_TAG.into()]],
        format!(r#"{{"xp":{}}}"#, u64::MAX),
    );
    assert_eq!(parse_xp(&e, read_xp).map(|x| x.xp), Some(MAX_XP));
}

#[test]
fn a_missing_field_reads_as_zero_rather_than_failing() {
    let e = sign_with(
        &key(1),
        1,
        KIND_APP_DATA,
        vec![vec!["d".into(), D_TAG.into()]],
        "{}".into(),
    );
    assert_eq!(parse_xp(&e, read_xp), Some(GlobalXp::default()));
}

fn xp(n: u64) -> GlobalXp {
    GlobalXp { xp: n, servers: 1 }
}

#[test]
fn a_burst_sends_the_first_total_now_and_the_last_one_later() {
    let t0 = 1_000;
    let mut p = Publisher::default();
    assert_eq!(p.offer(xp(10), t0), Some(xp(10)));
    assert_eq!(p.offer(xp(11), t0 + 1_000), None);
    assert_eq!(p.offer(xp(12), t0 + 2_000), None);
    assert_eq!(p.due_at(), Some(t0 + PUBLISH_COOLDOWN));
    assert_eq!(p.take_due(t0 + 10_000), None);
    assert_eq!(p.take_due(t0 + PUBLISH_COOLDOWN), Some(xp(12)));
    assert_eq!(p.due_at(), None, "nothing left waiting");
}

#[test]
fn an_unchanged_total_is_never_resent() {
    let t0 = 1_000;
    let mut p = Publisher::default();
    assert_eq!(p.offer(xp(10), t0), Some(xp(10)));
    assert_eq!(p.offer(xp(11), t0 + 1_000), None);
    assert_eq!(p.offer(xp(10), t0 + 2_000), None);
    assert_eq!(p.due_at(), None, "back to the published total: nothing to send");
    assert_eq!(p.offer(xp(10), t0 + PUBLISH_COOLDOWN * 2), None);
}

#[test]
fn after_the_cooldown_a_new_total_goes_at_once() {
    let t0 = 1_000;
    let mut p = Publisher::default();
    assert_eq!(p.offer(xp(10), t0), Some(xp(10)));
    let later = t0 + PUBLISH_COOLDOWN + 1_000;
    assert_eq!(p.offer(xp(20), later), Some(xp(20)));
    assert_eq!(p.offer(xp(21), later + 1_000), None);
    assert_eq!(p.due_at(), Some(later + PUBLISH_COOLDOWN));
}

// Relays.

#[test]
fn a_filter_serializes_the_way_relays_read_it() {
    let f = Filter {
        kinds: Some(vec![1059]),
        p: Some(vec!["abc".into()]),
        limit: Some(100),
        ..Default::default()
    };
    let json = f.to_json();
    assert_eq!(json, r##"{"kinds":[1059],"#p":["abc"],"limit":100}"##);
    assert!(!json.contains("null"), "absent fields must be omitted");
}

#[test]
fn the_same_event_is_delivered_once() {
    let mut seen = SeenSet::default();
    assert!(seen.insert_new("a"));
    assert!(!seen.insert_new("a"));
    assert!(seen.insert_new("b"));
}

#[test]
fn the_seen_set_is_bounded() {
    let mut seen = SeenSet::default();
    for i in 0..SeenSet::CAP + 100 {
        seen.insert_new(&i.to_string());
    }
    assert!(seen.len() <= SeenSet::CAP, "seen set grew to {}", seen.len());
    assert!(!seen.insert_new(&(SeenSet::CAP + 99).to_string()));
}

fn feed(frames: &[&str]) -> Vec<RelayEvent> {
    let mut seen = SeenSet::default();
    let mut out = Vec::new();
    for f in frames {
        let read = |text: &str| read_event(text).ok();
        if let Some(ev) = handle_relay_message("wss://r.test", f, &mut seen, read) {
            out.push(ev);
        }
    }
    out
}

fn signed_event() -> Event {
    sign_with(&key(7), 1_700_000_000, 1, vec![], "hello".into())
}

fn event_frame(e: &Event) -> String {
    format!(r#"["EVENT","sub",{}]"#, e.to_json())
}

#[test]
fn an_event_that_does_not_verify_never_reaches_the_app() {
    let mut forged = signed_event();
    forged.content = "hello, but rewritten in flight".into();
    let frame = event_frame(&forged);
    assert!(feed(&[&frame]).is_empty(), "a rewritten event must not be delivered");
}

#[test]
fn a_verifying_event_arrives_exactly_once() {
    let frame = event_frame(&signed_event());
    let out = feed(&[&frame, &frame]);
    assert_eq!(out.len(), 1, "the duplicate must be dropped");
    assert!(matches!(out[0], RelayEvent::Event(_)));
}

#[test]
fn a_rejection_keeps_the_reason_the_relay_gave() {
    let out = feed(&[r#"["OK","abc123",false,"rate-limited: slow down"]"#]);
    match out.as_slice() {
        [RelayEvent::Published { relay, id, accepted, message }] => {
            assert_eq!(relay, "wss://r.test");
            assert_eq!(id, "abc123");
            assert!(!accepted);
            assert_eq!(message, "rate-limited: slow down");
        }
        other => panic!("expected one Published, got {other:?}"),
    }
}

#[test]
fn end_of_stored_names_the_relay_that_finished() {
    let out = feed(&[r#"["EOSE","sub"]"#]);
    assert!(
        matches!(&out[..], [RelayEvent::EndOfStored { relay }] if relay == "wss://r.test"),
        "got {out:?}"
    );
}

#[test]
fn unknown_and_malformed_frames_are_ignored() {
    let out = feed(&[
        "not json at all",
        "{}",
        r#"["NOTICE","the relay says something"]"#,
        r#"["EVENT"]"#,
    ]);
    assert!(out.is_empty(), "got {out:?}");
}

#[test]
fn requests_and_events_are_framed() {
    let f = Filter { kinds: Some(vec![0]), ..Default::default() };
    assert_eq!(request_frame("s\"1", &vec![f]), r#"["REQ","s\"1",{"kinds":[0]}]"#);
    let e = signed_event();
    let frame: Value = serde_json::from_str(&publish_frame(&e)).expect("json");
    assert_eq!(frame[0].as_str(), Some("EVENT"));
    assert_eq!(event_of(&frame[1]), Some(e));
}

#[test]
fn waiting_doubles_up_to_a_limit() {
    assert_eq!(next_backoff(RECONNECT_MIN), 4);
    assert_eq!(next_backoff(40), RECONNECT_MAX);
    assert_eq!(next_backoff(RECONNECT_MAX), RECONNECT_MAX);
    assert!(default_relays().iter().all(|r| r.starts_with("wss://")));
}

// Conversations.

#[test]
fn derived_ids_are_stable_and_distinct() {
    let a = "a".repeat(64);
    let b = "b".repeat(64);
    assert_eq!(conversation_id(&a), conversation_id(&a));
    assert_ne!(conversation_id(&a), conversation_id(&b));
    assert_eq!(message_id("beef"), message_id("beef"));
    assert_ne!(message_id("beef"), message_id("cafe"));
    assert_ne!(conversation_id(&a).value, message_id(&a).value);
}

fn with_dm(state: &mut AppState, peer: &str) {
    state.dms.push(DmInfo {
        channel_id: conversation_id(peer),
        other_pubkey: peer.to_string(),
    });
}

fn with_contact(state: &mut AppState, pubkey: String) {
    state.contacts = state.contacts.clone().with(contact(pubkey, None));
}

#[test]
fn the_people_worth_naming_are_ordered_and_deduplicated() {
    let me = pk('a');
    let talking = pk('b');
    let known = pk('c');
    let mut s = AppState::empty();
    with_dm(&mut s, &talking);
    with_dm(&mut s, &known);
    for pk in [&talking, &known] {
        with_contact(&mut s, pk.clone());
    }
    assert_eq!(names_wanted(&s, &me), vec![me, talking, known]);
}

#[test]
fn a_malformed_key_never_reaches_a_filter() {
    let me = pk('a');
    let mut s = AppState::empty();
    with_dm(&mut s, "not-a-pubkey");
    with_contact(&mut s, String::new());
    assert_eq!(names_wanted(&s, &me), vec![me]);
}

#[test]
fn the_cap_drops_contacts_not_conversations() {
    let me = pk('a');
    let talking = pk('b');
    let mut s = AppState::empty();
    with_dm(&mut s, &talking);
    for i in 0..NAME_AUTHOR_CAP * 2 {
        with_contact(&mut s, format!("{i:064x}"));
    }
    let want = names_wanted(&s, &me);
    assert_eq!(want.len(), NAME_AUTHOR_CAP);
    assert_eq!(want[0], me);
    assert_eq!(want[1], talking);
}

#[test]
fn our_own_name_is_always_asked_for() {
    let me = pk('a');
    assert_eq!(names_wanted(&AppState::empty(), &me), vec![me]);
}

fn chat(peer: &str, created_at: i64) -> ChatMessage {
    ChatMessage {
        id: "beef".into(),
        author: pk('a'),
        peer: peer.to_string(),
        content: "hi".into(),
        created_at,
        reply_to: None,
    }
}

#[test]
fn replayed_history_stays_deleted() {
    let peer = pk('b');
    let mut s = AppState::empty();
    s.clear_dm(&peer, 100);
    assert!(hidden_by_delete(&s, &chat(&peer, 99), Source::Relay));
    assert!(!hidden_by_delete(&s, &chat(&peer, 101), Source::Relay));
}

#[test]
fn writing_again_reopens_the_conversation() {
    let peer = pk('b');
    let mut s = AppState::empty();
    s.clear_dm(&peer, 100);
    assert!(!hidden_by_delete(&s, &chat(&peer, 100), Source::Ours));
    assert!(!hidden_by_delete(&s, &chat(&peer, 100), Source::Relay));
}

#[test]
fn a_delete_never_reaches_another_peer() {
    let cleared = pk('b');
    let other = pk('c');
    let mut s = AppState::empty();
    s.clear_dm(&cleared, 100);
    assert!(!hidden_by_delete(&s, &chat(&other, 1), Source::Relay));
}

#[test]
fn a_message_is_filed_once_and_in_time() {
    let peer = pk('b');
    let mut s = AppState::empty();
    let mut later = chat(&peer, 200);
    later.id = "later".into();
    assert!(insert_message(&mut s, &later, &pk('z'), Source::Relay, 0));
    assert!(insert_message(&mut s, &chat(&peer, 100), &pk('z'), Source::Relay, 0));
    assert!(!insert_message(&mut s, &chat(&peer, 100), &pk('z'), Source::Relay, 0));
    let filed = s.messages.get(conversation_id(&peer)).expect("a conversation");
    assert_eq!(filed.len(), 2);
    assert_eq!(filed[0].id, message_id("beef"));
    assert_eq!(filed[1].id, message_id("later"));
    assert_eq!(s.dms.len(), 1);
}

#[test]
fn a_time_outside_the_calendar_is_replaced() {
    for (created_at, shown) in [
        (LAST_MOMENT, LAST_MOMENT * 1000),
        (LAST_MOMENT + 1, 77),
        (FIRST_MOMENT, FIRST_MOMENT * 1000),
        (FIRST_MOMENT - 1, 77),
    ] {
        let peer = pk('b');
        let mut s = AppState::empty();
        insert_message(&mut s, &chat(&peer, created_at), &pk('z'), Source::Relay, 77);
        let filed = s.messages.get(conversation_id(&peer)).expect("a conversation");
        assert_eq!(filed[0].created_at, shown);
    }
}

#[test]
fn a_sent_message_is_shown_and_opens_for_both() {
    let (alice, bob) = (key(1), key(2));
    let (a_pub, b_pub) = (xonly_hex(&alice), xonly_hex(&bob));
    let mut s = AppState::empty();
    let out = send_message(&mut s, &alice, &a_pub, &b_pub, "hello", None, 1_700_000_000);
    assert_eq!(out.len(), 2);
    assert_eq!(chat_of(&bob, &b_pub, &out[0]).expect("open").content, "hello");
    assert_eq!(chat_of(&alice, &a_pub, &out[1]).expect("open").peer, b_pub);
    let filed = s.messages.get(conversation_id(&b_pub)).expect("a conversation");
    assert_eq!(filed.len(), 1);
    assert_eq!(filed[0].content, "hello");

    let mut other = AppState::empty();
    assert!(receive(&mut other, &bob, &b_pub, &out[0], 0, read_event, read_rumor));
    assert!(!receive(&mut other, &bob, &b_pub, &out[0], 0, read_event, read_rumor));
    assert!(!receive(&mut other, &bob, &b_pub, &out[1], 0, read_event, read_rumor));
    assert_eq!(other.messages.get(conversation_id(&a_pub)).expect("filed").len(), 1);
}

#[test]
fn what_cannot_be_wrapped_is_said() {
    let alice = key(1);
    let mut s = AppState::empty();
    let out = send_message(&mut s, &alice, &xonly_hex(&alice), "nobody", "hello", None, 5);
    assert!(out.is_empty());
    assert!(s.error_toast.expect("a toast").starts_with("Not sent — "));
}

#[test]
fn commands_are_obeyed_and_introduce_people() {
    let alice = key(1);
    let a_pub = xonly_hex(&alice);
    let peer = xonly_hex(&key(2));
    let mut s = AppState::empty();
    let mut asked = Vec::new();
    let (out, filter) = on_command(
        &mut s,
        &alice,
        &a_pub,
        NostrCmd::SetContact { peer: peer.clone(), keep: true },
        1_700_000_000,
        &mut asked,
    );
    assert_eq!(out.len(), 1);
    assert_eq!(out[0].kind, KIND_CONTACTS);
    assert!(out[0].verify());
    assert!(s.contacts.contains(&peer));
    assert_eq!(filter.expect("a filter").authors, Some(vec![a_pub.clone(), peer.clone()]));
    let (out, filter) = on_command(
        &mut s,
        &alice,
        &a_pub,
        NostrCmd::Open { peer: peer.clone() },
        1_700_000_001,
        &mut asked,
    );
    assert!(out.is_empty());
    assert!(filter.is_none(), "nobody new");
    assert_eq!(s.dms.len(), 1);
    assert_eq!(s.selected_channel, Some(conversation_id(&peer)));
    open_conversation(&mut s, &peer);
    assert_eq!(s.dms.len(), 1, "it is in the list already");
    let (out, _) = on_command(
        &mut s,
        &alice,
        &a_pub,
        NostrCmd::Send { peer: peer.clone(), text: "hi".into(), reply_to: None },
        1_700_000_002,
        &mut asked,
    );
    assert_eq!(out.len(), 2);
    let event = set_contact(&mut s, &alice, &peer, false, 1_700_000_003);
    assert!(event.tags.is_empty());
    assert!(!s.contacts.contains(&peer));
    assert!(request_names(&s, &a_pub, &mut asked).is_none(), "they are still talked to");
}

#[test]
fn lists_and_names_are_taken_in() {
    let alice = key(1);
    let a_pub = xonly_hex(&alice);
    let mut s = AppState::empty();
    let list = ContactList::default().with(contact(pk('b'), Some("Bo")));
    take_event(&mut s, &contact_list_event(&alice, &list, 1), &a_pub);
    assert_eq!(s.contacts.petname(&pk('b')), Some("Bo"));
    take_event(&mut s, &contact_list_event(&key(2), &ContactList::default(), 2), &a_pub);
    assert!(s.contacts.contains(&pk('b')), "another's list is not ours");
    let e = metadata(r#"{"name":"new"}"#);
    take_event(&mut s, &e, &a_pub);
    let mut stale = metadata(r#"{"name":"old"}"#);
    stale.created_at = 5;
    take_event(&mut s, &stale, &a_pub);
    assert_eq!(s.nostr_names.get(&e.pubkey).expect("a name").0, "new");
}

#[test]
fn relays_come_and_go() {
    let mut s = AppState::empty();
    on_relay_status(&mut s, &RelayEvent::Connected("wss://a".into()));
    assert!(s.nostr_relays_up.contains("wss://a"));
    let gone = RelayEvent::Disconnected { relay: "wss://a".into(), why: "x".into() };
    on_relay_status(&mut s, &gone);
    assert!(!s.nostr_relays_up.contains("wss://a"));
}

#[test]
fn the_identity_names_us_until_a_gateway_does() {
    let id = Identity::create("Ana").expect("identity");
    let mut s = AppState::empty();
    introduce(&mut s, &id);
    assert_eq!(s.self_user.as_ref().map(|u| u.username.as_str()), Some("Ana"));
    let other = Identity::create("Bo").expect("identity");
    introduce(&mut s, &other);
    assert_eq!(s.self_user.as_ref().map(|u| u.username.as_str()), Some("Ana"));
}

#[test]
fn gift_wraps_are_asked_for_by_recipient() {
    let filters = message_filters("me");
    assert_eq!(filters[0].to_json(), r##"{"kinds":[1059],"#p":["me"],"limit":500}"##);
    assert_eq!(filters[1].to_json(), r#"{"kinds":[3,10050],"authors":["me"],"limit":4}"#);
}

#[test]
fn a_key_of_other_letters_is_not_asked_about() {
    let me = pk('a');
    let mut s = AppState::empty();
    with_dm(&mut s, &pk('z'));
    with_contact(&mut s, pk('g'));
    assert_eq!(names_wanted(&s, &me), vec![me]);
}

#[test]
fn a_soft_hyphen_stays_in_a_name() {
    assert_eq!(sanitize("A\u{ad}na").as_deref(), Some("A\u{ad}na"));
}

#[test]
fn our_own_name_is_read_back() {
    let secret = key(4);
    let e = own_metadata_event(&secret, "Ana \"\\ Rivas\n", 1_700_000_000);
    assert!(e.verify());
    assert_eq!((e.kind, e.created_at), (KIND_METADATA, 1_700_000_000));
    assert!(e.tags.is_empty());
    assert_eq!(e.content, "{\"name\":\"Ana \\\"\\\\ Rivas\\n\"}");
    assert_eq!(name_from(&e).as_deref(), Some("Ana \"\\ Rivas"));
    assert_eq!(name_from(&own_metadata_event(&secret, " ", 0)), None);
}

#[test]
fn a_wrap_is_fixed_by_its_keys_dates_and_nonces() {
    let (alice, bob, throwaway) = (key(1), key(2), key(5));
    let r = a_rumor(&alice, "hello");
    let inner = Layer { at: 10, nonce: [1; 32] };
    let outer = Layer { at: 20, nonce: [2; 32] };
    let to = xonly_hex(&bob);
    let gift = wrap_under(&alice, &throwaway, &inner, &outer, &to, &r).expect("wrap");
    assert_eq!(gift.pubkey, xonly_hex(&throwaway));
    assert_eq!((gift.created_at, gift.kind), (20, KIND_GIFT_WRAP));
    assert_eq!(gift.tags, vec![vec!["p".to_string(), to.clone()]]);
    let again = wrap_under(&alice, &throwaway, &inner, &outer, &to, &r).expect("wrap");
    assert_eq!(again.content, gift.content);
    assert_eq!(open(&bob, &gift), Ok(r.clone()));

    let seal = seal_under(&alice, 10, &[1; 32], &to, &r.to_json()).expect("seal");
    assert_eq!((seal.pubkey.clone(), seal.created_at, seal.kind), (xonly_hex(&alice), 10, 13));
    let by_hand = gift_under(&throwaway, 20, &[2; 32], &to, &seal.to_json());
    assert_eq!(by_hand.map(|e| (e.id.len(), e.tags)), Ok((64, gift.tags)));
    assert!(gift_under(&throwaway, 20, &[2; 32], "nobody", "{}").is_err());
}

#[test]
fn a_run_of_totals_is_paced() {
    let mut p = Publisher::default();
    let mut last: Option<u64> = None;
    let mut sent = 0;
    for i in 0..200u64 {
        let now = 1_000_000 + i * (PUBLISH_COOLDOWN / 7);
        let out = if i % 3 == 0 { p.take_due(now) } else { p.offer(xp(i / 2), now) };
        if out.is_some() {
            assert!(last.is_none_or(|at| now - at >= PUBLISH_COOLDOWN));
            last = Some(now);
            sent += 1;
        }
    }
    assert!(sent > 10);
}

#[test]
fn a_date_is_put_back_within_two_days() {
    assert_eq!(put_back(1_700_000_000, 3), 1_699_999_997);
    assert_eq!(put_back(-5, 0), -5);
    for _ in 0..50 {
        let at = fuzzed(1_700_000_000);
        assert!((1_700_000_000 - MAX_BACKDATE..=1_700_000_000).contains(&at));
    }
}

#[test]
fn the_end_of_the_clock_is_paced_too() {
    let mut p = Publisher::default();
    assert_eq!(p.offer(xp(1), u64::MAX - 5), Some(xp(1)));
    assert_eq!(p.offer(xp(2), u64::MAX), None);
    assert_eq!(p.take_due(u64::MAX), None);
}
