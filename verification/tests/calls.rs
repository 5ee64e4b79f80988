use discordia::callkey::{
    hand_round, in_order, keep_first_key, key_step, make_first_key, on_roster, present_in,
    rekey_after_removal, rekey_with, KeyStep,
};
use discordia::gateway::supersedes;
use discordia::identity::Identity;
use discordia::mediakey::{designated, generate, open, seal, seal_with_nonce, Ledger, KEY_LEN};
use discordia::protocol::{ClientMessage, Id, User, VoiceState};
use discordia::state::AppState;

fn identity(seed: u8) -> Identity {
    Identity::restore_from_private_key(&hex::encode([seed; 32]), &format!("id{seed}"))
        .ok()
        .expect("identity")
}

fn texts(items: &[&str]) -> Vec<String> {
    items.iter().map(|s| s.to_string()).collect()
}

const CHANNEL: Id = Id { value: 1 };
const OTHER: Id = Id { value: 2 };

#[test]
fn a_sealed_key_opens_for_its_recipient() {
    let alice = identity(1);
    let bob = identity(2);
    let key = generate();

    let blob = seal(&key, &bob.pubkey, 7, &alice).unwrap();
    assert_eq!(open(&blob, &alice.pubkey, 7, &bob).unwrap(), key);
}

#[test]
fn nobody_else_can_open_it() {
    let alice = identity(1);
    let bob = identity(2);
    let eve = identity(3);
    let key = generate();

    let blob = seal(&key, &bob.pubkey, 7, &alice).unwrap();
    assert!(open(&blob, &alice.pubkey, 7, &eve).is_err());
    assert!(open(&blob, &eve.pubkey, 7, &bob).is_err());
}

#[test]
fn an_epoch_cannot_be_swapped_under_the_ciphertext() {
    let alice = identity(1);
    let bob = identity(2);
    let key = generate();

    let blob = seal(&key, &bob.pubkey, 7, &alice).unwrap();
    assert!(open(&blob, &alice.pubkey, 8, &bob).is_err());
    assert!(open(&blob, &alice.pubkey, 6, &bob).is_err());
}

#[test]
fn sealing_twice_does_not_repeat() {
    let alice = identity(1);
    let bob = identity(2);
    let key = generate();

    let a = seal(&key, &bob.pubkey, 1, &alice).unwrap();
    let b = seal(&key, &bob.pubkey, 1, &alice).unwrap();
    assert_ne!(a, b);
    assert_eq!(open(&a, &alice.pubkey, 1, &bob).unwrap(), key);
    assert_eq!(open(&b, &alice.pubkey, 1, &bob).unwrap(), key);
}

#[test]
fn generated_keys_differ() {
    assert_ne!(generate(), generate());
    assert_ne!(generate(), [0u8; KEY_LEN]);
}

#[test]
fn both_sides_derive_the_same_secret() {
    let alice = identity(1);
    let bob = identity(2);
    assert_eq!(
        alice.shared_secret_with(&bob.pubkey).unwrap(),
        bob.shared_secret_with(&alice.pubkey).unwrap()
    );
}

#[test]
fn a_key_is_sealed_only_for_a_key() {
    let alice = identity(1);
    assert!(seal(&[1; 32], "zz", 1, &alice).expect_err("no").starts_with("pubkey not hex: "));
    assert_eq!(
        alice.shared_secret_with("abcd").expect_err("no"),
        "a nostr pubkey is 32 bytes"
    );
    assert!(alice
        .shared_secret_with(&"0".repeat(64))
        .expect_err("no")
        .starts_with("not a point on the curve"));
    assert!(open("!", &alice.pubkey, 1, &identity(2)).is_err());
    assert!(open("AA==", &alice.pubkey, 1, &identity(2)).is_err());
}

#[test]
fn the_designated_sender_is_the_same_from_every_side() {
    assert_eq!(designated(&texts(&["cc", "aa", "bb"])), Some("aa"));
    assert_eq!(designated(&texts(&["bb", "aa", "cc"])), Some("aa"));
}

#[test]
fn nobody_is_responsible_for_an_empty_channel() {
    assert_eq!(designated(&Vec::new()), None);
}

#[test]
fn a_key_is_sent_once_per_epoch_per_member() {
    let mut ledger = Ledger::new();
    assert!(ledger.should_send(CHANNEL, "alice", 1), "first send must go");
    ledger.mark_sent(CHANNEL, "alice", 1);
    assert!(!ledger.should_send(CHANNEL, "alice", 1), "the same epoch must not repeat");
    assert!(ledger.should_send(CHANNEL, "bob", 1), "a different member still needs it");
    assert!(ledger.should_send(CHANNEL, "alice", 2), "a rekey must always go out");
    ledger.mark_sent(CHANNEL, "alice", 2);
    assert!(!ledger.should_send(CHANNEL, "alice", 2));
    assert!(!ledger.should_send(CHANNEL, "alice", 1));
    assert!(ledger.should_send(OTHER, "alice", 1));
}

#[test]
fn a_member_who_left_is_sent_the_key_again_on_return() {
    let mut sent = Ledger::new();
    let present = texts(&["alice", "bob"]);

    assert!(sent.should_send(CHANNEL, "bob", 1));
    sent.mark_sent(CHANNEL, "bob", 1);
    assert!(!sent.should_send(CHANNEL, "bob", 1));

    assert_eq!(sent.forget_absent(CHANNEL, &present), 0);
    assert!(!sent.should_send(CHANNEL, "bob", 1));

    assert_eq!(sent.forget_absent(CHANNEL, &texts(&["alice"])), 1);
    assert!(
        sent.should_send(CHANNEL, "bob", 1),
        "a member who left and came back must be sent the key again"
    );
}

#[test]
fn a_key_that_could_not_be_sealed_is_still_owed() {
    let mut sent = Ledger::new();
    assert!(sent.should_send(CHANNEL, "bob", 1));
    assert!(
        sent.should_send(CHANNEL, "bob", 1),
        "asking must not record; a failed seal has to be retried"
    );
    sent.mark_sent(CHANNEL, "bob", 1);
    assert!(!sent.should_send(CHANNEL, "bob", 1));
    assert!(sent.should_send(CHANNEL, "bob", 2));
}

#[test]
fn forgetting_is_scoped_to_the_channel_it_was_told_about() {
    let mut sent = Ledger::new();
    sent.mark_sent(CHANNEL, "bob", 1);
    sent.mark_sent(OTHER, "bob", 1);
    assert_eq!(sent.forget_absent(CHANNEL, &Vec::new()), 1);
    assert!(
        !sent.should_send(OTHER, "bob", 1),
        "the other channel's entry must survive"
    );
}

#[test]
fn an_equal_epoch_is_broken_by_pubkey_so_both_sides_converge() {
    let mine = Some("bbbb");

    assert!(supersedes(None, 1, "cccc", mine));

    assert!(supersedes(Some(1), 1, "aaaa", mine));
    assert!(!supersedes(Some(1), 1, "cccc", mine));

    assert!(supersedes(Some(1), 2, "cccc", mine));
    assert!(!supersedes(Some(2), 1, "aaaa", mine));

    assert!(!supersedes(Some(3), 3, "bbbb", mine));
}

fn in_call(who: &str) -> VoiceState {
    VoiceState {
        guild_id: Id { value: 9 },
        user_pubkey: who.to_string(),
        channel_id: Some(CHANNEL),
        muted: false,
        deafened: false,
        speaking: false,
        screen_sharing: false,
    }
}

fn call_of(me: &Identity, others: &[&str]) -> AppState {
    let mut s = AppState::empty();
    s.self_user = Some(User { pubkey: me.pubkey.clone(), username: "me".into() });
    s.identity = Some(me.clone());
    s.voice.channel_id = Some(CHANNEL);
    s.voice_states.push(in_call(&me.pubkey));
    for who in others {
        s.voice_states.push(in_call(who));
    }
    s
}

#[test]
fn a_call_alone_gets_a_key_at_once_and_others_are_waited_for() {
    let me = texts(&["me"]);
    let two = texts(&["me", "you"]);
    assert_eq!(key_step(true, Some("me"), false, &me), KeyStep::Make);
    assert_eq!(key_step(true, Some("me"), false, &two), KeyStep::Wait);
    assert_eq!(key_step(true, Some("me"), true, &two), KeyStep::Share);
    assert_eq!(key_step(true, Some("me"), true, &me), KeyStep::Nothing);
    assert_eq!(key_step(false, Some("me"), true, &two), KeyStep::Nothing);
    assert_eq!(key_step(true, None, true, &two), KeyStep::Nothing);
}

#[test]
fn the_first_key_is_kept_and_handed_on() {
    let (alice, bob) = (identity(1), identity(2));
    let mut s = call_of(&alice, &[&bob.pubkey, "nobody"]);
    assert_eq!(present_in(&s, CHANNEL).len(), 3);
    let mut ledger = Ledger::new();
    let (messages, key) = make_first_key(&mut s, &mut ledger, CHANNEL, &alice.pubkey, &alice, true)
        .expect("a key");
    assert_eq!(messages.len(), 1, "only bob can be sealed for");
    match &messages[0] {
        ClientMessage::ShareMediaKey { channel_id, to, epoch, blob } => {
            assert_eq!(*channel_id, CHANNEL);
            assert_eq!(to, &bob.pubkey);
            assert_eq!(*epoch, 1);
            assert_eq!(open(blob, &alice.pubkey, 1, &bob).unwrap(), key);
        }
        other => panic!("unexpected {other:?}"),
    }
    assert_eq!(s.media_keys.get(CHANNEL), Some(&(1, key)));
    assert!(ledger.should_send(CHANNEL, "nobody", 1), "still owed");
    assert!(
        make_first_key(&mut s, &mut ledger, CHANNEL, &alice.pubkey, &alice, true).is_none(),
        "one has come meanwhile"
    );
    let (step, again) = on_roster(&s, &mut ledger);
    assert_eq!(step, KeyStep::Share);
    assert!(again.is_empty(), "nobody is sent it twice");
    s.voice_states.retain(|v| v.user_pubkey != bob.pubkey);
    on_roster(&s, &mut ledger);
    s.voice_states.push(in_call(&bob.pubkey));
    assert_eq!(on_roster(&s, &mut ledger).1.len(), 1, "bob is back");
}

#[test]
fn a_removal_gives_a_new_key_from_the_least_name() {
    let ids = [identity(1), identity(2), identity(3)];
    let least = ids.iter().min_by(|a, b| a.pubkey.cmp(&b.pubkey)).unwrap();
    let most = ids.iter().max_by(|a, b| a.pubkey.cmp(&b.pubkey)).unwrap();
    let mut s = call_of(least, &[&most.pubkey]);
    s.media_keys.insert(CHANNEL, (4, [9; 32]));
    let mut ledger = Ledger::new();
    let (messages, key, epoch) = rekey_after_removal(&mut s, &mut ledger).expect("a rekey");
    assert_eq!(epoch, 5);
    assert_eq!(messages.len(), 1);
    assert_ne!(key, [9; 32]);
    assert_eq!(s.media_keys.get(CHANNEL), Some(&(5, key)));

    let mut s = call_of(most, &[&least.pubkey]);
    s.media_keys.insert(CHANNEL, (4, [9; 32]));
    assert!(rekey_after_removal(&mut s, &mut ledger).is_none());
    assert_eq!(s.media_keys.get(CHANNEL), Some(&(4, [9; 32])));
}

#[test]
fn names_are_put_in_order_and_handed_round_once() {
    assert_eq!(in_order(&texts(&["c", "a", "b", "a"])), texts(&["a", "a", "b", "c"]));
    let (alice, bob) = (identity(1), identity(2));
    let mut ledger = Ledger::new();
    let present = vec![bob.pubkey.clone(), alice.pubkey.clone(), bob.pubkey.clone()];
    let out = hand_round(&mut ledger, CHANNEL, &present, &alice.pubkey, 3, &[7; 32], &alice);
    assert_eq!(out.len(), 1);
}

#[test]
fn a_seal_is_fixed_by_its_nonce() {
    let (alice, bob) = (identity(1), identity(2));
    let key = [5; 32];
    let a = seal_with_nonce(&key, &[9; 24], &bob.pubkey, 3, &alice).unwrap();
    assert_eq!(a, seal_with_nonce(&key, &[9; 24], &bob.pubkey, 3, &alice).unwrap());
    assert_ne!(a, seal_with_nonce(&key, &[8; 24], &bob.pubkey, 3, &alice).unwrap());
    assert_ne!(a, seal_with_nonce(&key, &[9; 24], &bob.pubkey, 4, &alice).unwrap());
    assert_eq!(open(&a, &alice.pubkey, 3, &bob), Ok(key));
    assert!(seal_with_nonce(&key, &[9; 24], "nobody", 3, &alice).is_err());
}

#[test]
fn alone_a_key_is_made_whatever_came_meanwhile() {
    let alice = identity(1);
    let mut s = call_of(&alice, &[]);
    s.media_keys.insert(CHANNEL, (4, [9; 32]));
    let mut ledger = Ledger::new();
    assert!(make_first_key(&mut s, &mut ledger, CHANNEL, &alice.pubkey, &alice, true).is_none());
    let (messages, key) =
        make_first_key(&mut s, &mut ledger, CHANNEL, &alice.pubkey, &alice, false).expect("a key");
    assert!(messages.is_empty());
    assert_eq!(s.media_keys.get(CHANNEL), Some(&(1, key)));
}

#[test]
fn a_given_key_is_kept_and_handed_on() {
    let (alice, bob) = (identity(1), identity(2));
    let (least, most) = if alice.pubkey < bob.pubkey { (alice, bob) } else { (bob, alice) };
    let mut s = call_of(&least, &[&most.pubkey]);
    let mut ledger = Ledger::new();
    assert!(rekey_with(&mut s, &mut ledger, &[6; 32]).is_none(), "there is none to follow");
    let out = keep_first_key(&mut s, &mut ledger, CHANNEL, &least.pubkey, &least, &[5; 32]);
    assert_eq!(out.len(), 1);
    assert_eq!(s.media_keys.get(CHANNEL), Some(&(1, [5; 32])));
    let (out, epoch) = rekey_with(&mut s, &mut ledger, &[6; 32]).expect("a rekey");
    assert_eq!((out.len(), epoch), (1, 2));
    assert_eq!(s.media_keys.get(CHANNEL), Some(&(2, [6; 32])));
}
