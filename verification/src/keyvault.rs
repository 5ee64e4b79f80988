//! Keys at rest: a private key is written as a NIP-49 `ncryptsec` under a random
//! passphrase that this machine holds.

use crate::crypto::{
    aead_open, aead_opened, aead_seal, aead_sealed, bech32_decode, bech32_encode, bech32_reading,
    bech32_text, hex_encode, hex_text, random_bytes, scrypt_derived, scrypt_key, wipe, wipe_all,
};
use crate::text::{append_bytes, begins_with, opt_str, plain_ends, same, to_array, trim, trimmed};
use vstd::prelude::*;
use vstd::slice::*;
use vstd::string::*;
use vstd::utf8::*;

verus! {

pub const NCRYPTSEC_VERSION: u8 = 0x02;

/// The byte that says how well the key was kept before: nobody knows.
pub const KEY_SECURITY_UNTRACKED: u8 = 0x02;

pub const SALT_LEN: usize = 16;

pub const NONCE_LEN: usize = 24;

/// Version, work factor, salt, nonce, security byte, ciphertext and tag.
pub const ENCODED_LEN: usize = 1 + 1 + 16 + 24 + 1 + 32 + 16;

/// The work factor of new files.
pub const LOG_N: u8 = 16;

/// Where the passphrase lives.
#[derive(Debug, Clone, Copy, PartialEq, Eq, Structural)]
pub enum Backend {
    Keychain,
    File,
}

impl Backend {
    /// The word that a backend is remembered by.
    pub open spec fn word(&self) -> Seq<char> {
        match self {
            Backend::Keychain => "keychain"@,
            Backend::File => "file"@,
        }
    }

    /// The word that a backend is remembered by.
    pub fn marker(self) -> (r: &'static str)
        ensures
            r@ == self.word(),
    {
        match self {
            Backend::Keychain => "keychain",
            Backend::File => "file",
        }
    }

    /// The backend that a word stands for.
    pub fn from_marker(s: &str) -> (r: Option<Backend>)
        ensures
            r == marked(s@),
    {
        let word: String = trim(s);
        proof {
            words_differ();
        }
        if same(word.as_str(), "keychain") {
            Some(Backend::Keychain)
        } else if same(word.as_str(), "file") {
            Some(Backend::File)
        } else {
            None
        }
    }

    /// Where the passphrase lives, in words, on a given operating system.
    pub fn describe(self, os: &str) -> (r: &'static str)
        ensures
            r@ == match self {
                Backend::Keychain => if os@ == "macos"@ {
                    "the macOS Keychain"@
                } else if os@ == "windows"@ {
                    "the Windows Credential Manager"@
                } else {
                    "the desktop's Secret Service"@
                },
                Backend::File => "a file in the config folder"@,
            },
    {
        match self {
            Backend::Keychain => {
                if same(os, "macos") {
                    "the macOS Keychain"
                } else if same(os, "windows") {
                    "the Windows Credential Manager"
                } else {
                    "the desktop's Secret Service"
                }
            },
            Backend::File => "a file in the config folder",
        }
    }
}

proof fn words_differ()
    ensures
        "keychain"@ != "file"@,
{
    reveal_strlit("keychain");
    reveal_strlit("file");
    assert("keychain"@.len() != "file"@.len());
}

/// The backend that a word stands for, with whitespace around it or not.
pub open spec fn marked(s: Seq<char>) -> Option<Backend> {
    if trimmed(s) == "keychain"@ {
        Some(Backend::Keychain)
    } else if trimmed(s) == "file"@ {
        Some(Backend::File)
    } else {
        None
    }
}

/// The backend an optional word stands for.
pub open spec fn opt_marked(s: Option<Seq<char>>) -> Option<Backend> {
    match s {
        Some(s) => marked(s),
        None => None,
    }
}

/// Where the passphrase lives, and whether that has to be written down: what the
/// environment forces, else what was decided before, else the keychain when it
/// can be used. A backend that changed between runs would leave every key
/// unreadable.
pub fn choose_backend(
    forced: Option<&str>,
    remembered: Option<&str>,
    keychain_usable: bool,
) -> (r: (Backend, bool))
    ensures
        r == if opt_marked(opt_str(forced)) is Some {
            (opt_marked(opt_str(forced))->Some_0, false)
        } else if opt_marked(opt_str(remembered)) is Some {
            (opt_marked(opt_str(remembered))->Some_0, false)
        } else if keychain_usable {
            (Backend::Keychain, true)
        } else {
            (Backend::File, true)
        },
{
    if let Some(word) = forced {
        if let Some(backend) = Backend::from_marker(word) {
            return (backend, false);
        }
    }
    if let Some(word) = remembered {
        if let Some(backend) = Backend::from_marker(word) {
            return (backend, false);
        }
    }
    if keychain_usable {
        (Backend::Keychain, true)
    } else {
        (Backend::File, true)
    }
}

/// A decision that was written down is kept: once a backend's word is
/// remembered, that backend is chosen whatever the keychain says.
pub proof fn backend_is_kept(b: Backend)
    ensures
        marked(b.word()) == Some(b),
{
    words_differ();
    reveal_strlit("keychain");
    reveal_strlit("file");
    plain_ends("keychain"@);
    plain_ends("file"@);
}

/// What came of reading the passphrase where it lives.
pub enum VaultRead {
    Found(String),
    Missing,
    Failed(String),
}

/// What the passphrase is, or what to do for want of one.
pub enum Passphrase {
    Ready(String),
    /// Nothing is there yet: make one and store it.
    Create,
    Unavailable(String),
}

/// What follows from what was read, on a given operating system.
pub fn passphrase_step(backend: Backend, os: &str, read: VaultRead) -> (r: Passphrase)
    ensures
        match read {
            VaultRead::Found(p) => r matches Passphrase::Ready(q) && q@ == match backend {
                Backend::Keychain => p@,
                Backend::File => trimmed(p@),
            },
            VaultRead::Missing => r is Create,
            VaultRead::Failed(e) => r matches Passphrase::Unavailable(m) && m@ == match backend {
                Backend::Keychain => "the vault key is in "@ + (if os@ == "macos"@ {
                    "the macOS Keychain"@
                } else if os@ == "windows"@ {
                    "the Windows Credential Manager"@
                } else {
                    "the desktop's Secret Service"@
                }) + " and it could not be opened: "@ + e@,
                Backend::File => "read vault key: "@ + e@,
            },
        },
{
    match read {
        VaultRead::Found(p) => match backend {
            Backend::Keychain => Passphrase::Ready(p),
            Backend::File => Passphrase::Ready(trim(p.as_str())),
        },
        VaultRead::Missing => Passphrase::Create,
        VaultRead::Failed(e) => match backend {
            Backend::Keychain => Passphrase::Unavailable(
                "the vault key is in ".to_owned().concat(backend.describe(os)).concat(
                    " and it could not be opened: ",
                ).concat(e.as_str()),
            ),
            Backend::File => Passphrase::Unavailable(
                "read vault key: ".to_owned().concat(e.as_str()),
            ),
        },
    }
}

/// A passphrase of chance: 32 bytes in hexadecimal.
pub fn fresh_passphrase() -> (r: String)
    ensures
        exists|b: Seq<u8>| b.len() == 32 && r@ == #[trigger] hex_text(b),
        r@.len() == 64,
{
    let mut bytes: Vec<u8> = random_bytes(32);
    let text: String = hex_encode(bytes.as_slice());
    wipe_all(&mut bytes);
    text
}

/// Bytes that are overwritten once they are used no more.
#[derive(Debug, PartialEq, Eq)]
pub struct Wiped {
    bytes: [u8; 32],
}

impl View for Wiped {
    type V = Seq<u8>;

    closed spec fn view(&self) -> Seq<u8> {
        self.bytes@
    }
}

impl Wiped {
    /// Takes bytes to be overwritten.
    pub fn new(bytes: [u8; 32]) -> (r: Wiped)
        ensures
            r@ == bytes@,
    {
        Wiped { bytes }
    }

    /// The bytes, as long as they last.
    pub fn bytes(&self) -> (r: &[u8; 32])
        ensures
            r@ == self@,
    {
        &self.bytes
    }

    /// Overwrites the bytes.
    pub fn wipe_now(&mut self)
        ensures
            final(self)@ == Seq::new(32, |i: int| 0u8),
        opens_invariants none
        no_unwind
    {
        wipe(&mut self.bytes);
    }
}

impl Drop for Wiped {
    fn drop(&mut self)
        ensures
            final(self)@ == Seq::new(32, |i: int| 0u8),
        opens_invariants none
        no_unwind
    {
        self.wipe_now();
    }
}

/// The bytes that came of something, or why none.
pub open spec fn wiped_outcome(r: Result<Wiped, String>) -> Result<Seq<u8>, Seq<char>> {
    match r {
        Ok(w) => Ok(w@),
        Err(e) => Err(e@),
    }
}

/// The size of scrypt's blocks, in units of 128 bytes.
pub const SCRYPT_R: u32 = 8;

/// How many lanes scrypt runs.
pub const SCRYPT_P: u32 = 1;

/// Whether a work factor can be used.
pub open spec fn workable(log_n: u8) -> bool {
    log_n < 53
}

/// The key of a passphrase and a salt.
pub fn derive(passphrase: &str, salt: &[u8], log_n: u8) -> (r: Result<Wiped, String>)
    ensures
        r is Ok <==> workable(log_n),
        r is Ok ==> r->Ok_0@ == scrypt_key(encode_utf8(passphrase@), salt@, log_n, SCRYPT_R, SCRYPT_P),
        r is Err ==> r->Err_0@ == "scrypt: invalid scrypt parameters"@,
{
    if log_n >= 53 {
        return Err("scrypt: invalid scrypt parameters".to_owned());
    }
    Ok(Wiped::new(scrypt_derived(passphrase.as_bytes(), salt, log_n, SCRYPT_R, SCRYPT_P)))
}

/// The bytes that carry a secret under a passphrase, a salt and a nonce.
pub open spec fn vault_bytes(
    secret: Seq<u8>,
    passphrase: Seq<char>,
    log_n: u8,
    salt: Seq<u8>,
    nonce: Seq<u8>,
) -> Seq<u8> {
    seq![NCRYPTSEC_VERSION, log_n] + salt + nonce + seq![KEY_SECURITY_UNTRACKED] + aead_sealed(
        scrypt_key(encode_utf8(passphrase), salt, log_n, SCRYPT_R, SCRYPT_P),
        nonce,
        secret,
        seq![KEY_SECURITY_UNTRACKED],
    )
}

/// What a passphrase finds in the bytes of a vault.
pub open spec fn vault_opened(data: Seq<u8>, passphrase: Seq<char>) -> Result<Seq<u8>, Seq<char>> {
    if data.len() != ENCODED_LEN || data[0] != NCRYPTSEC_VERSION {
        Err("ncryptsec has an unknown shape or version"@)
    } else if !workable(data[1]) {
        Err("scrypt: invalid scrypt parameters"@)
    } else {
        match aead_opened(
            scrypt_key(encode_utf8(passphrase), data.subrange(2, 18), data[1], SCRYPT_R, SCRYPT_P),
            data.subrange(18, 42),
            data.subrange(43, ENCODED_LEN as int),
            seq![data[42]],
        ) {
            Some(secret) => Ok(secret),
            None => Err(
                "this key was locked with a vault passphrase this machine no longer has; import it again from its recovery phrase or nsec"@,
            ),
        }
    }
}

/// What a passphrase finds in an `ncryptsec`.
pub open spec fn unlocked(ncryptsec: Seq<char>, passphrase: Seq<char>) -> Result<
    Seq<u8>,
    Seq<char>,
> {
    match bech32_reading(trimmed(ncryptsec)) {
        Err(e) => Err("ncryptsec: "@ + e),
        Ok(read) => if read.0 != "ncryptsec"@ {
            Err("expected ncryptsec, got '"@ + read.0 + "'"@)
        } else {
            vault_opened(read.1, passphrase)
        },
    }
}

/// Locks a secret under a passphrase, with a given salt and nonce. The passphrase opens
/// it again.
pub fn encrypt_with(
    secret: &[u8; 32],
    passphrase: &str,
    log_n: u8,
    salt: &[u8; 16],
    nonce: &[u8; 24],
) -> (r: Result<String, String>)
    ensures
        r is Ok <==> workable(log_n),
        r is Err ==> r->Err_0@ == "scrypt: invalid scrypt parameters"@,
        r is Ok ==> r->Ok_0@ == bech32_text(
            "ncryptsec"@,
            vault_bytes(secret@, passphrase@, log_n, salt@, nonce@),
        ),
        r is Ok ==> unlocked(r->Ok_0@, passphrase@) == Ok::<Seq<u8>, Seq<char>>(secret@),
        r is Ok ==> begins_with(r->Ok_0@, "ncryptsec"@.push('1')),
{
    let key: Wiped = match derive(passphrase, salt.as_slice(), log_n) {
        Ok(key) => key,
        Err(e) => {
            return Err(e);
        },
    };
    let aad: [u8; 1] = [KEY_SECURITY_UNTRACKED];
    assert(aad@ =~= seq![KEY_SECURITY_UNTRACKED]);
    let sealed: Vec<u8> = aead_seal(key.bytes(), nonce, secret.as_slice(), aad.as_slice());
    let mut out: Vec<u8> = Vec::new();
    out.push(NCRYPTSEC_VERSION);
    out.push(log_n);
    append_bytes(&mut out, salt.as_slice());
    append_bytes(&mut out, nonce.as_slice());
    out.push(KEY_SECURITY_UNTRACKED);
    append_bytes(&mut out, sealed.as_slice());
    proof {
        reveal_strlit("ncryptsec");
    }
    let text: String = bech32_encode("ncryptsec", out.as_slice());
    proof {
        let data = out@;
        assert(data =~= vault_bytes(secret@, passphrase@, log_n, salt@, nonce@));
        assert(data.len() == ENCODED_LEN);
        assert(data.subrange(2, 18) =~= salt@);
        assert(data.subrange(18, 42) =~= nonce@);
        assert(data.subrange(43, ENCODED_LEN as int) =~= sealed@);
        assert(vault_opened(data, passphrase@) == Ok::<Seq<u8>, Seq<char>>(secret@));
    }
    Ok(text)
}

/// Locks a secret under a passphrase, with a salt and a nonce of chance. The
/// passphrase opens it again.
pub fn encrypt(secret: &[u8; 32], passphrase: &str, log_n: u8) -> (r: Result<String, String>)
    ensures
        r is Ok <==> workable(log_n),
        r is Err ==> r->Err_0@ == "scrypt: invalid scrypt parameters"@,
        r is Ok ==> unlocked(r->Ok_0@, passphrase@) == Ok::<Seq<u8>, Seq<char>>(secret@),
        r is Ok ==> begins_with(r->Ok_0@, "ncryptsec"@.push('1')),
        r is Ok ==> exists|salt: Seq<u8>, nonce: Seq<u8>|
            salt.len() == SALT_LEN && nonce.len() == NONCE_LEN && r->Ok_0@ == bech32_text(
                "ncryptsec"@,
                #[trigger] vault_bytes(secret@, passphrase@, log_n, salt, nonce),
            ),
{
    let salt: [u8; 16] = to_array(random_bytes(SALT_LEN).as_slice());
    let nonce: [u8; 24] = to_array(random_bytes(NONCE_LEN).as_slice());
    encrypt_with(secret, passphrase, log_n, &salt, &nonce)
}

/// Unlocks a secret.
pub fn decrypt(ncryptsec: &str, passphrase: &str) -> (r: Result<Wiped, String>)
    ensures
        wiped_outcome(r) == unlocked(ncryptsec@, passphrase@),
{
    let (hrp, data): (String, Vec<u8>) = match bech32_decode(trim(ncryptsec).as_str()) {
        Ok(read) => read,
        Err(e) => {
            return Err("ncryptsec: ".to_owned().concat(e.as_str()));
        },
    };
    if !same(hrp.as_str(), "ncryptsec") {
        return Err("expected ncryptsec, got '".to_owned().concat(hrp.as_str()).concat("'"));
    }
    if data.len() != ENCODED_LEN || data[0] != NCRYPTSEC_VERSION {
        return Err("ncryptsec has an unknown shape or version".to_owned());
    }
    let log_n: u8 = data[1];
    let bytes: &[u8] = data.as_slice();
    let salt: &[u8] = slice_subrange(bytes, 2, 18);
    let nonce: [u8; 24] = to_array(slice_subrange(bytes, 18, 42));
    let sealed: &[u8] = slice_subrange(bytes, 43, ENCODED_LEN);
    let aad: [u8; 1] = [data[42]];
    assert(aad@ =~= seq![data@[42]]);
    let key: Wiped = match derive(passphrase, salt, log_n) {
        Ok(key) => key,
        Err(e) => {
            return Err(e);
        },
    };
    match aead_open(key.bytes(), &nonce, sealed, aad.as_slice()) {
        Some(mut secret) => {
            let out: Wiped = Wiped::new(to_array(secret.as_slice()));
            wipe_all(&mut secret);
            Ok(out)
        },
        None => Err(
            "this key was locked with a vault passphrase this machine no longer has; import it again from its recovery phrase or nsec".to_owned(),
        ),
    }
}

} // verus!
