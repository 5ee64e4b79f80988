use discordia::crypto::SecretKey;
use discordia::identity::{
    active_choice, collect, color_signature, derive_nip06, detected, discriminator, files_of, forgets_pointer, npub_of,
    pubkey_from_input, sign_in_choice, signature_accent, sort_found, truncate_pubkey, Identity,
    IdentitySource, KeyFile, Stored, ACTIVE_VERSION, FILE_VERSION,
};
use discordia::keyvault::{
    choose_backend, decrypt, encrypt, encrypt_with, fresh_passphrase, passphrase_step, Backend,
    Passphrase, VaultRead, Wiped,
};
use discordia::profile::{from_stored, to_stored, LocalProfile};
use secp256k1::{Message, Secp256k1, XOnlyPublicKey};
use sha2::{Digest, Sha256};

const LOG_N: u8 = 8;

#[test]
fn create_and_restore_phrase_yield_same_pubkey() {
    let original = Identity::create("alice").ok().unwrap();
    let phrase = match &original.source {
        IdentitySource::Phrase(p) => p.clone(),
        _ => panic!("expected phrase source"),
    };
    let restored = Identity::restore_from_phrase(&phrase, "alice").ok().unwrap();
    assert_eq!(original.pubkey, restored.pubkey);
}

#[test]
fn import_nsec_round_trips() {
    let original = Identity::create("alice").ok().unwrap();
    let nsec = original.export_nsec();
    let imported = Identity::restore_from_private_key(&nsec, "alice").ok().unwrap();
    assert_eq!(original.pubkey, imported.pubkey);
    assert!(matches!(imported.source, IdentitySource::Nsec(_)));
}

#[test]
fn import_hex_secret() {
    let original = Identity::create("alice").ok().unwrap();
    let hex_secret = hex::encode(original.secret.bytes());
    let imported = Identity::restore_from_private_key(&hex_secret, "alice").ok().unwrap();
    assert_eq!(original.pubkey, imported.pubkey);
}

#[test]
fn pubkey_is_64_hex_and_npub() {
    let id = Identity::create("alice").ok().unwrap();
    assert_eq!(id.pubkey.len(), 64);
    assert!(id.pubkey.chars().all(|c| c.is_ascii_hexdigit()));
    assert!(id.npub().starts_with("npub1"));
}

#[test]
fn signing_round_trips() {
    let id = Identity::create("alice").ok().unwrap();
    let msg = b"hello dioxusfun";
    let sig_hex = id.sign_hex(msg);

    let secp = Secp256k1::new();
    let pk_bytes: [u8; 32] = hex::decode(&id.pubkey).unwrap().try_into().unwrap();
    let xonly = XOnlyPublicKey::from_slice(&pk_bytes).unwrap();
    let digest: [u8; 32] = Sha256::digest(msg).into();
    let m = Message::from_digest(digest);
    let sig_bytes: [u8; 64] = hex::decode(&sig_hex).unwrap().try_into().unwrap();
    let sig = secp256k1::schnorr::Signature::from_slice(&sig_bytes).unwrap();
    assert!(secp.verify_schnorr(&sig, &m, &xonly).is_ok());
}

#[test]
fn discriminator_last_four() {
    let pk = "abcdef0123456789";
    assert_eq!(discriminator(pk), "6789");
    assert_eq!(discriminator("abc"), "abc");
}

#[test]
fn npub_and_hex_are_the_same_key() {
    let id = Identity::create("t").ok().expect("identity");
    let from_hex = pubkey_from_input(&id.pubkey).expect("hex");
    let from_npub = pubkey_from_input(&id.npub()).expect("npub");
    assert_eq!(from_hex, id.pubkey);
    assert_eq!(from_npub, id.pubkey);
}

#[test]
fn an_nsec_is_refused_by_name() {
    let id = Identity::create("t").ok().expect("identity");
    let IdentitySource::Phrase(_) = &id.source else {
        panic!("expected a generated phrase identity")
    };
    let err = pubkey_from_input("nsec1qqqqqqqqqqqqqqqqqqqqqqqqqqqqqqqqqqqqqqqqqqqqqqqqqsuchhu")
        .expect_err("must refuse");
    assert!(err.contains("private key"), "unhelpful error: {err}");
}

#[test]
fn nonsense_is_refused() {
    for bad in ["", "hello", "abcd", &"a".repeat(63), &"z".repeat(64)] {
        assert!(pubkey_from_input(bad).is_err(), "{bad:?} should be refused");
    }
}

#[test]
fn a_known_phrase_gives_its_known_key() {
    let phrase = "leader monkey parrot ring guide accident before fence cannon height naive bean";
    let id = Identity::restore_from_phrase(&format!("  {phrase} "), "x").ok().expect("identity");
    assert_eq!(
        hex::encode(id.secret_key().bytes()),
        "7f7ff03d123792d6ac594bfa67bf6d0c0ab55b6b1fdb6249303fe861f1ccba9a"
    );
    assert_eq!(
        id.pubkey,
        "17162c921dc4d2518f9a101db33695df1afb56ab82f5ff3e5da6eec3ca5cd917"
    );
    assert_eq!(
        id.npub(),
        "npub1zutzeysacnf9rru6zqwmxd54mud0k44tst6l70ja5mhv8jjumytsd2x7nu"
    );
    assert_eq!(
        id.export_nsec(),
        "nsec10allq0gjx7fddtzef0ax00mdps9t2kmtrldkyjfs8l5xruwvh2dq0lhhkp"
    );
    assert!(matches!(&id.source, IdentitySource::Phrase(p) if p == phrase));
}

#[test]
fn a_seed_derives_its_key() {
    assert!(derive_nip06(&[7; 64]).is_ok());
}

#[test]
fn bad_secrets_are_refused_with_their_reason() {
    let refused = |input: &str| Identity::restore_from_private_key(input, "x").err().expect("refused");
    assert!(refused("nsec1zzz").starts_with("invalid nsec: "));
    assert!(refused("zz").starts_with("private key is not hex or nsec: "));
    assert_eq!(refused("abcd"), "hex private key must be 32 bytes (64 chars)");
    assert!(refused(&"0".repeat(64)).starts_with("invalid secret key: "));
    assert!(Identity::restore_from_phrase("one two three", "x")
        .err()
        .expect("refused")
        .starts_with("invalid recovery phrase: "));
}

#[test]
fn npubs_are_refused_with_their_reason() {
    assert!(pubkey_from_input("npub1zzz").expect_err("no").starts_with("not a valid npub: "));
    assert_eq!(pubkey_from_input("hello").expect_err("no"), "not an npub or a hex key");
    assert_eq!(
        pubkey_from_input("abcd").expect_err("no"),
        "a nostr pubkey is 32 bytes (64 hex characters)"
    );
    let upper = "AB".repeat(32);
    assert_eq!(pubkey_from_input(&upper).expect("hex"), upper.to_lowercase());
}

#[test]
fn a_stored_identity_is_the_same_identity() {
    let id = Identity::create("ana").ok().expect("identity");
    let stored = id.to_stored();
    assert_eq!(stored.version, FILE_VERSION);
    assert!(stored.seed_phrase.is_some() && stored.nsec.is_none());
    let back = Identity::from_stored(stored).ok().expect("identity");
    assert_eq!(back.pubkey, id.pubkey);
    assert_eq!(back.display_name, "ana");
    let imported = Identity::restore_from_private_key(&id.export_nsec(), "bo").ok().expect("identity");
    let stored = imported.to_stored();
    assert!(stored.seed_phrase.is_none() && stored.nsec.is_some());
    assert!(Identity::from_stored(stored).ok().expect("identity") == imported);
}

fn stored(version: u32, pubkey: &str, secret: bool) -> Stored {
    Stored {
        version,
        display_name: "x".into(),
        pubkey: pubkey.into(),
        seed_phrase: None,
        nsec: if secret { Some("nsec".into()) } else { None },
    }
}

#[test]
fn a_stored_identity_without_a_key_is_refused() {
    let refused = |s: Stored| Identity::from_stored(s).err().expect("refused");
    assert_eq!(
        refused(stored(3, "aa", true)),
        "unknown identity file version 3; expected 1"
    );
    assert_eq!(
        refused(stored(1, "aa", false)),
        "identity file has neither seed_phrase nor nsec"
    );
}

#[test]
fn only_whole_key_files_are_collected_and_each_once() {
    let a = "a".repeat(64);
    let mut found = Vec::new();
    collect(&mut found, stored(1, "aa", true), "short".into());
    collect(&mut found, stored(2, &a, true), "version".into());
    collect(&mut found, stored(1, &a, false), "half".into());
    assert!(found.is_empty());
    collect(&mut found, stored(1, &a, true), "first".into());
    collect(&mut found, stored(1, &a, true), "second".into());
    assert_eq!(found.len(), 1);
    assert_eq!(found[0].path, "first");
    let b = "b".repeat(64);
    let mut named = stored(1, &b, true);
    named.display_name = "Abe".into();
    collect(&mut found, named, "third".into());
    let found = sort_found(found);
    assert_eq!(found[0].pubkey, b);
    assert_eq!(active_choice(ACTIVE_VERSION, &a, &found), Ok(Some(1)));
    assert_eq!(active_choice(ACTIVE_VERSION, "gone", &found), Ok(None));
    assert_eq!(
        active_choice(7, &a, &found),
        Err("unknown identity file version 7; expected 2".to_string())
    );
    assert_eq!(sign_in_choice(&b, &found), Ok(0));
    assert_eq!(
        sign_in_choice("gone", &found),
        Err("that identity is no longer on this machine".to_string())
    );
}

#[test]
fn keys_are_shortened_and_coloured() {
    assert_eq!(truncate_pubkey("0123456789abc"), "01234567…9abc");
    assert_eq!(truncate_pubkey("0123456789ab"), "0123456789ab");
    let pk = "ab".repeat(32);
    let colours = color_signature(&pk, 3);
    assert_eq!(colours.len(), 3);
    assert_eq!(colours[0], signature_accent(&pk));
    assert_ne!(color_signature(&"cd".repeat(32), 3), colours);
    assert!(npub_of("zz") != npub_of(&pk));
}

#[test]
fn a_secret_differs_for_every_draw() {
    assert_ne!(SecretKey::random().bytes(), SecretKey::random().bytes());
    assert_eq!(
        SecretKey::from_slice(&[1; 31]).err(),
        Some("malformed or out-of-range secret key".to_string())
    );
}

#[test]
fn a_key_survives_the_round_trip_and_nothing_else_opens_it() {
    let secret = [7u8; 32];
    let enc = encrypt(&secret, "correct horse", LOG_N).expect("encrypt");
    assert!(enc.starts_with("ncryptsec1"), "{enc}");
    assert_eq!(*decrypt(&enc, "correct horse").expect("decrypt").bytes(), secret);
    assert!(decrypt(&enc, "wrong horse").is_err());

    let mut tampered = enc.clone().into_bytes();
    let i = tampered.len() - 10;
    tampered[i] = if tampered[i] == b'q' { b'p' } else { b'q' };
    assert!(decrypt(std::str::from_utf8(&tampered).unwrap(), "correct horse").is_err());
}

#[test]
fn two_encryptions_of_one_key_differ() {
    let secret = [9u8; 32];
    let a = encrypt(&secret, "p", LOG_N).unwrap();
    let b = encrypt(&secret, "p", LOG_N).unwrap();
    assert_ne!(a, b, "salt and nonce are fresh each time");
}

#[test]
fn a_published_vault_opens() {
    let enc = "ncryptsec1qgg9947rlpvqu76pj5ecreduf9jxhselq2nae2kghhvd5g7dgjtcxfqtd67p9m0w57lspw8gsq6yphnm8623nsl8xn9j4jdzz84zm3frztj3z7s35vpzmqf6ksu8r89qk5z2zxfmu5gv8th8wclt0h4p";
    let secret = decrypt(enc, "nostr").expect("decrypt");
    assert_eq!(
        hex::encode(secret.bytes()),
        "3501454135014541350145413501453fefb02227e449e57cf4d3a3ce05378683"
    );
}

#[test]
fn other_shapes_are_no_vault() {
    assert!(decrypt("nonsense", "p").expect_err("no").starts_with("ncryptsec: "));
    let id = Identity::create("x").ok().expect("identity");
    assert_eq!(
        decrypt(&id.export_nsec(), "p").expect_err("no"),
        "expected ncryptsec, got 'nsec'"
    );
    assert!(discordia::keyvault::derive("p", &[1; 16], 0).is_err() || discordia::keyvault::derive("p", &[1; 16], 0) != discordia::keyvault::derive("q", &[1; 16], 0));
    assert_ne!(discordia::keyvault::derive("p", &[1; 16], 4), discordia::keyvault::derive("p", &[2; 16], 4));
    assert!(discordia::keyvault::derive("p", &[1; 16], 64).expect_err("no").starts_with("scrypt: "));
}

#[test]
fn where_the_vault_key_lives_is_decided_once() {
    assert_eq!(choose_backend(Some(" file\n"), Some("keychain"), true), (Backend::File, false));
    assert_eq!(choose_backend(None, Some("keychain"), false), (Backend::Keychain, false));
    assert_eq!(choose_backend(Some("?"), None, true), (Backend::Keychain, true));
    assert_eq!(choose_backend(None, Some("?"), false), (Backend::File, true));
    assert_eq!(Backend::from_marker(Backend::File.marker()), Some(Backend::File));
    assert_eq!(Backend::Keychain.describe("macos"), "the macOS Keychain");
    assert_eq!(Backend::Keychain.describe("linux"), "the desktop's Secret Service");
    assert_eq!(Backend::File.describe("windows"), "a file in the config folder");
    assert_eq!(fresh_passphrase().len(), 64);
    assert_ne!(fresh_passphrase(), fresh_passphrase());
}

#[test]
fn the_vault_key_is_read_made_or_refused() {
    let step = |backend, read| passphrase_step(backend, "linux", read);
    assert!(matches!(
        step(Backend::File, VaultRead::Found(" ab\n".into())),
        Passphrase::Ready(p) if p == "ab"
    ));
    assert!(matches!(
        step(Backend::Keychain, VaultRead::Found(" ab\n".into())),
        Passphrase::Ready(p) if p == " ab\n"
    ));
    assert!(matches!(step(Backend::File, VaultRead::Missing), Passphrase::Create));
    assert!(matches!(
        step(Backend::File, VaultRead::Failed("no".into())),
        Passphrase::Unavailable(e) if e == "read vault key: no"
    ));
    assert!(matches!(
        step(Backend::Keychain, VaultRead::Failed("no".into())),
        Passphrase::Unavailable(e)
            if e == "the vault key is in the desktop's Secret Service and it could not be opened: no"
    ));
}

#[test]
fn a_profile_of_another_version_is_not_read() {
    let p = LocalProfile { bio: Some("hi".into()), ..LocalProfile::default() };
    let mut stored = to_stored(p);
    let version = stored.version;
    stored.version = version + 1;
    assert!(from_stored(stored).is_none());
    let p = LocalProfile { bio: Some("hi".into()), ..LocalProfile::default() };
    assert_eq!(from_stored(to_stored(p)).expect("profile").bio.as_deref(), Some("hi"));
}

#[test]
fn forgetting_a_key_finds_every_copy() {
    let (a, b) = ("a".repeat(64), "b".repeat(64));
    let file = |version: u32, pubkey: &str, secret: bool, path: &str| KeyFile {
        stored: stored(version, pubkey, secret),
        path: path.into(),
    };
    let files = vec![
        file(1, &a, true, "first"),
        file(1, &b, true, "other"),
        file(1, &a, true, "copy"),
        file(2, &a, true, "pointer"),
        file(1, &a, false, "half"),
    ];
    let gone = files_of(&files, &a);
    assert_eq!(gone, vec!["first".to_string(), "copy".to_string()]);
    let mut found = Vec::new();
    for f in files.into_iter().filter(|f| !gone.contains(&f.path)) {
        collect(&mut found, f.stored, f.path);
    }
    assert_eq!(found.len(), 1);
    assert_eq!(found[0].pubkey, b);
    assert!(forgets_pointer(Some(&a), &a));
    assert!(!forgets_pointer(Some(&b), &a));
    assert!(!forgets_pointer(None, &a));
}

#[test]
fn a_vault_is_fixed_by_its_salt_and_nonce() {
    let secret = [7u8; 32];
    let vault = |salt: u8, nonce: u8| encrypt_with(&secret, "p", LOG_N, &[salt; 16], &[nonce; 24]);
    let enc = vault(1, 2).expect("encrypt");
    assert_eq!(vault(1, 2), Ok(enc.clone()));
    assert_ne!(vault(2, 2), Ok(enc.clone()));
    assert_ne!(vault(1, 1), Ok(enc.clone()));
    assert_eq!(decrypt(&enc, "p"), Ok(Wiped::new(secret)));
    assert_eq!(
        encrypt_with(&secret, "p", 60, &[1; 16], &[2; 24]),
        Err("scrypt: invalid scrypt parameters".to_string())
    );
}

#[test]
fn a_secret_in_hexadecimal_restores() {
    let hex = "0000000000000000000000000000000000000000000000000000000000000003";
    let id = Identity::restore_from_private_key(&format!(" {hex}\n"), "x").ok().expect("identity");
    assert_eq!(
        id.pubkey,
        "f9308a019258c31049344f85f89d5229b531c845836f99b08601f113bce036f9"
    );
    let again = Identity::restore_from_private_key(&id.export_nsec(), "x").ok().expect("identity");
    assert_eq!(again.pubkey, id.pubkey);
}

#[test]
fn a_long_text_that_is_no_key_is_written_as_nothing() {
    let nothing = npub_of(&"z".repeat(5_000));
    assert_eq!(nothing, npub_of(""));
    assert!(nothing.starts_with("npub1"));
    assert_eq!(nothing.len(), "npub1".len() + 6);
    assert!(npub_of(&"a".repeat(1_264)).len() > 1_000);
}

#[test]
fn every_key_is_detected_once_and_in_order() {
    let (a, b) = ("a".repeat(64), "b".repeat(64));
    let file = |pubkey: &str, name: &str, path: &str| {
        let mut stored = stored(1, pubkey, true);
        stored.display_name = name.into();
        KeyFile { stored, path: path.into() }
    };
    let found = detected(vec![
        file(&a, "Zoe", "first"),
        file("short", "Abe", "none"),
        file(&b, "abe", "second"),
        file(&a, "Abe", "copy"),
    ]);
    assert_eq!(found.len(), 2);
    assert_eq!((found[0].pubkey.as_str(), found[0].path.as_str()), (b.as_str(), "second"));
    assert_eq!((found[1].pubkey.as_str(), found[1].path.as_str()), (a.as_str(), "first"));
    assert_eq!(found[1].display_name, "Zoe");
    assert!(detected(Vec::new()).is_empty());
}

#[test]
fn wiped_bytes_are_zero() {
    let mut held = Wiped::new([7; 32]);
    assert_eq!(*held.bytes(), [7; 32]);
    held.wipe_now();
    assert_eq!(*held.bytes(), [0; 32]);
    let phrase = fresh_passphrase();
    assert_eq!(phrase.len(), 64);
    assert_ne!(phrase, "0".repeat(64));
}
