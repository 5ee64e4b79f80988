//! What holds of the keys on this machine.

use crate::crypto::{aead_opened, bech32_reading, hex_bytes, hex_text, is_secret_key, scrypt_key};
use crate::identity::{
    KeyFile, Stored, key_places, phrase_secret, pubkey_read, stored_secret, typed_secret,
};
use crate::keyvault::{Backend, marked, vault_opened};
use crate::text::{begins_with, trimmed};
use vstd::prelude::*;
use vstd::string::*;
use vstd::utf8::*;

verus! {

/// Forgetting a key takes its own files and no other: every place that is named is that
/// of a file which holds just this key, and every such file is named.
pub proof fn only_its_own_files_are_forgotten(files: Seq<KeyFile>, pubkey: Seq<char>)
    ensures
        forall|path: Seq<char>| #[trigger]
            key_places(files, pubkey).contains(path) <==> exists|i: int|
                0 <= i < files.len() && (#[trigger] files[i]).path@ == path
                    && files[i].stored.pubkey@ == pubkey && files[i].stored.version == 1 && (
                files[i].stored.seed_phrase is Some || files[i].stored.nsec is Some)
                    && encode_utf8(files[i].stored.pubkey@).len() == 64,
    decreases files.len(),
{
    if files.len() > 0 {
        let rest = files.drop_last();
        let before = key_places(rest, pubkey);
        let all = key_places(files, pubkey);
        only_its_own_files_are_forgotten(rest, pubkey);
        assert forall|path: Seq<char>| #[trigger] all.contains(path) <==> exists|i: int|
            0 <= i < files.len() && (#[trigger] files[i]).path@ == path && files[i].stored.pubkey@
                == pubkey && files[i].stored.version == 1 && (files[i].stored.seed_phrase is Some
                || files[i].stored.nsec is Some) && encode_utf8(files[i].stored.pubkey@).len()
                == 64 by {
            if all.contains(path) {
                let k = choose|k: int| 0 <= k < all.len() && all[k] == path;
                if k < before.len() {
                    assert(before[k] == path);
                    assert(before.contains(path));
                    let i = choose|i: int|
                        0 <= i < rest.len() && (#[trigger] rest[i]).path@ == path
                            && rest[i].stored.pubkey@ == pubkey && rest[i].stored.version == 1 && (
                        rest[i].stored.seed_phrase is Some || rest[i].stored.nsec is Some)
                            && encode_utf8(rest[i].stored.pubkey@).len() == 64;
                    assert(files[i] == rest[i]);
                } else {
                    assert(files[files.len() - 1].path@ == path);
                }
            }
            if exists|i: int|
                0 <= i < files.len() && (#[trigger] files[i]).path@ == path
                    && files[i].stored.pubkey@ == pubkey && files[i].stored.version == 1 && (
                files[i].stored.seed_phrase is Some || files[i].stored.nsec is Some)
                    && encode_utf8(files[i].stored.pubkey@).len() == 64 {
                let i = choose|i: int|
                    0 <= i < files.len() && (#[trigger] files[i]).path@ == path
                        && files[i].stored.pubkey@ == pubkey && files[i].stored.version == 1 && (
                    files[i].stored.seed_phrase is Some || files[i].stored.nsec is Some)
                        && encode_utf8(files[i].stored.pubkey@).len() == 64;
                if i < rest.len() {
                    assert(rest[i] == files[i]);
                    assert(before.contains(path));
                    let k = choose|k: int| 0 <= k < before.len() && before[k] == path;
                    assert(all[k] == path);
                } else {
                    assert(all[before.len() as int] == path);
                }
            }
        }
    } else {
        assert forall|path: Seq<char>| #[trigger] key_places(files, pubkey).contains(
            path,
        ) implies false by {}
    }
}

/// A stored identity is read from its phrase where it has one, else from its secret, and
/// from nothing else; another version of the file is refused.
pub proof fn a_stored_key_is_read_from_its_source(stored: Stored)
    ensures
        stored.version != 1 ==> stored_secret(stored) is Err,
        stored.seed_phrase is None && stored.nsec is None ==> stored_secret(stored) is Err,
        stored.version == 1 && stored.seed_phrase is Some ==> stored_secret(stored)
            == phrase_secret(stored.seed_phrase->Some_0@),
        stored.version == 1 && stored.seed_phrase is None && stored.nsec is Some ==> stored_secret(
            stored,
        ) == typed_secret(stored.nsec->Some_0@),
{
}

/// What is typed as somebody's public key is read as a public key only: the name of a
/// secret is refused, and a bech32 name must be that of a key.
pub proof fn a_secret_is_no_public_key(input: Seq<char>)
    ensures
        begins_with(trimmed(input), "nsec"@) ==> pubkey_read(input) is Err,
        begins_with(trimmed(input), "npub"@) && pubkey_read(input) is Ok ==> {
            let read = bech32_reading(trimmed(input));
            &&& read is Ok
            &&& read->Ok_0.0 == "npub"@
            &&& read->Ok_0.1.len() == 32
            &&& pubkey_read(input)->Ok_0 == hex_text(read->Ok_0.1)
        },
{
    reveal_strlit("nsec");
    reveal_strlit("npub");
    let raw = trimmed(input);
    if begins_with(raw, "nsec"@) && begins_with(raw, "npub"@) {
        assert(raw.take(4)[1] == 's' && raw.take(4)[1] == 'p');
    }
}

/// A typed secret is read only in the two forms it has, and whatever is read is a secret
/// key.
pub proof fn a_typed_key_is_a_secret_key(input: Seq<char>)
    ensures
        typed_secret(input) matches Ok(secret) ==> is_secret_key(secret) && (if begins_with(
            trimmed(input),
            "nsec"@,
        ) {
            bech32_reading(trimmed(input)) == Ok::<(Seq<char>, Seq<u8>), Seq<char>>(
                ("nsec"@, secret),
            )
        } else {
            hex_bytes(trimmed(input)) == Some(secret)
        }),
{
}

/// A vault is opened by the passphrase it was locked with, and by the cipher alone: what
/// comes out is what the cipher finds under the key of that passphrase and the vault's
/// own salt, nonce and mark.
pub proof fn a_vault_opens_by_the_cipher(data: Seq<u8>, passphrase: Seq<char>)
    ensures
        vault_opened(data, passphrase) matches Ok(secret) ==> data.len() == 91 && data[0] == 2
            && aead_opened(
            scrypt_key(encode_utf8(passphrase), data.subrange(2, 18), data[1], 8, 1),
            data.subrange(18, 42),
            data.subrange(43, 91),
            seq![data[42]],
        ) == Some(secret),
        data.len() != 91 || data[0] != 2 ==> vault_opened(data, passphrase) is Err,
{
}

/// A backend is remembered by one of two words, with blanks around it or not, and no
/// other word stands for one.
pub proof fn words_stand_for_backends(s: Seq<char>)
    ensures
        trimmed(s) == "keychain"@ ==> marked(s) == Some(Backend::Keychain),
        trimmed(s) == "file"@ ==> marked(s) == Some(Backend::File),
        marked(s) is Some ==> trimmed(s) == "keychain"@ || trimmed(s) == "file"@,
{
    reveal_strlit("keychain");
    reveal_strlit("file");
    assert("keychain"@.len() != "file"@.len());
}

} // verus!
