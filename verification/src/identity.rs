//! Who somebody is: a secret key, and the names that follow from it.

use crate::crypto::{
    SecretKey, be_bytes, be_int, bech32_decode, bech32_encode, bech32_reading, bech32_text,
    compressed_public_key, curve_order, entropy_phrase, hex_bytes, hex_decode, hex_encode,
    hex_is_hex, hex_refusal, hex_round_trip, hex_text, hmac_sha512, hmac_sha512_code, is_hex_digit,
    is_scalar, is_secret_key, meet, meeting_x, names_secret, phrase_reading, public_point, public_x,
    random_bytes, read_phrase, schnorr_accepts, schnorr_sign, schnorr_signature, sha256,
    sha256_digest, tweak_secret, write_phrase, x_only_public_key,
};
use crate::text::{
    append_bytes, be32, begins_with, bytes_outcome, decimal, decimal_text, key_outcome, lower_case,
    opt_str, opt_text, plain_ends, push_be32, same, starts_with, text_before, text_lt,
    text_lt_total, text_lt_trans, text_outcome, texts, to_array, to_lower_case, trim, trimmed,
    trimmed_twice,
};
use vstd::prelude::*;
use vstd::slice::*;
use vstd::string::*;
use vstd::utf8::*;

verus! {

/// The version of a file that holds a key.
pub const FILE_VERSION: u32 = 1;

/// The version of the file that points at the key in use.
pub const ACTIVE_VERSION: u32 = 2;

/// What an identity can be restored from.
#[derive(Debug, Clone, PartialEq, Eq)]
pub enum IdentitySource {
    Phrase(String),
    Nsec(String),
}

/// A key pair with a name to show.
pub struct Identity {
    pub pubkey: String,
    pub display_name: String,
    pub source: IdentitySource,
    pub secret: SecretKey,
}

impl PartialEq for Identity {
    fn eq(&self, other: &Identity) -> (r: bool) {
        self.pubkey == other.pubkey && self.display_name == other.display_name
    }
}

impl vstd::std_specs::cmp::PartialEqSpecImpl for Identity {
    open spec fn obeys_eq_spec() -> bool {
        true
    }

    open spec fn eq_spec(&self, other: &Identity) -> bool {
        self.pubkey@ == other.pubkey@ && self.display_name@ == other.display_name@
    }
}

/// The derivation path of an identity's key; the upper half of the numbers is
/// hardened.
pub open spec fn nip06_path() -> Seq<u32> {
    seq![0x8000_002cu32, 0x8000_04d5u32, 0x8000_0000u32, 0u32, 0u32]
}

pub const HARDENED: u32 = 0x8000_0000;

/// A key and a chain code one step further down, or why there is none.
pub open spec fn child_key(key: Seq<u8>, chain: Seq<u8>, index: u32) -> Result<
    (Seq<u8>, Seq<u8>),
    Seq<char>,
> {
    let head = if index >= HARDENED {
        seq![0u8] + key
    } else {
        public_point(key)
    };
    let code = hmac_sha512(chain, head + be32(index));
    let sum = (be_int(key) + be_int(code.subrange(0, 32))) % curve_order();
    if be_int(code.subrange(0, 32)) >= curve_order() {
        Err("derived tweak out of range"@)
    } else if sum == 0 {
        Err("child key: bad tweak"@)
    } else {
        Ok((be_bytes(sum, 32), code.subrange(32, 64)))
    }
}

/// The key and the chain code after `n` steps of the path.
pub open spec fn derived(seed: Seq<u8>, n: nat) -> Result<(Seq<u8>, Seq<u8>), Seq<char>>
    decreases n,
{
    if n == 0 {
        let master = hmac_sha512(encode_utf8("Bitcoin seed"@), seed);
        if is_secret_key(master.subrange(0, 32)) {
            Ok((master.subrange(0, 32), master.subrange(32, 64)))
        } else {
            Err("master key: malformed or out-of-range secret key"@)
        }
    } else {
        match derived(seed, (n - 1) as nat) {
            Err(e) => Err(e),
            Ok(node) => child_key(node.0, node.1, nip06_path()[n - 1]),
        }
    }
}

/// The secret that a seed gives, or why it gives none.
pub open spec fn seed_secret(seed: Seq<u8>) -> Result<Seq<u8>, Seq<char>> {
    match derived(seed, 5) {
        Ok(node) => Ok(node.0),
        Err(e) => Err(e),
    }
}

proof fn derived_stays_failed(seed: Seq<u8>, n: nat, m: nat)
    requires
        n <= m,
        derived(seed, n) is Err,
    ensures
        derived(seed, m) == derived(seed, n),
    decreases m,
{
    if n < m {
        derived_stays_failed(seed, n, (m - 1) as nat);
    }
}

/// The secret of a seed, five steps down from its master key.
pub fn derive_nip06(seed: &[u8]) -> (r: Result<SecretKey, String>)
    ensures
        r is Ok <==> seed_secret(seed@) is Ok,
        r is Ok ==> r->Ok_0@ == seed_secret(seed@)->Ok_0,
        r is Err ==> r->Err_0@ == seed_secret(seed@)->Err_0,
{
    let path: [u32; 5] = [0x8000_002c, 0x8000_04d5, 0x8000_0000, 0, 0];
    assert(path@ =~= nip06_path());
    let master: [u8; 64] = hmac_sha512_code("Bitcoin seed".as_bytes(), seed);
    let mut key: SecretKey = match SecretKey::from_slice(
        slice_subrange(master.as_slice(), 0, 32),
    ) {
        Ok(key) => key,
        Err(e) => {
            proof {
                reveal_strlit("master key: ");
                reveal_strlit("malformed or out-of-range secret key");
                reveal_strlit("master key: malformed or out-of-range secret key");
                assert("master key: "@ + "malformed or out-of-range secret key"@
                    =~= "master key: malformed or out-of-range secret key"@);
                derived_stays_failed(seed@, 0, 5);
            }
            return Err("master key: ".to_owned().concat(e.as_str()));
        },
    };
    let mut chain: Vec<u8> = slice_to_vec(slice_subrange(master.as_slice(), 32, 64));
    let mut i: usize = 0;
    while i < 5
        invariant
            i <= 5,
            path@ == nip06_path(),
            derived(seed@, i as nat) == Ok::<(Seq<u8>, Seq<u8>), Seq<char>>((key@, chain@)),
        decreases 5 - i,
    {
        let index: u32 = path[i];
        let mut data: Vec<u8> = Vec::new();
        if index >= HARDENED {
            data.push(0);
            append_bytes(&mut data, key.bytes());
        } else {
            append_bytes(&mut data, compressed_public_key(key.bytes()).as_slice());
        }
        let ghost head = data@;
        assert(head =~= if index >= HARDENED {
            seq![0u8] + key@
        } else {
            public_point(key@)
        });
        push_be32(&mut data, index);
        let code: [u8; 64] = hmac_sha512_code(chain.as_slice(), data.as_slice());
        let tweak: [u8; 32] = to_array(slice_subrange(code.as_slice(), 0, 32));
        if !is_scalar(&tweak) {
            proof {
                derived_stays_failed(seed@, (i + 1) as nat, 5);
            }
            return Err("derived tweak out of range".to_owned());
        }
        match tweak_secret(key.bytes(), &tweak) {
            Some(sum) => {
                key = match SecretKey::from_slice(sum.as_slice()) {
                    Ok(key) => key,
                    Err(e) => {
                        return Err(e);
                    },
                };
            },
            None => {
                proof {
                    derived_stays_failed(seed@, (i + 1) as nat, 5);
                }
                return Err("child key: bad tweak".to_owned());
            },
        }
        chain = slice_to_vec(slice_subrange(code.as_slice(), 32, 64));
        i = i + 1;
    }
    Ok(key)
}

/// The secret that a recovery phrase stands for.
pub open spec fn phrase_secret(phrase: Seq<char>) -> Result<Seq<u8>, Seq<char>> {
    match phrase_reading(trimmed(phrase)) {
        Err(e) => Err("invalid recovery phrase: "@ + e),
        Ok(read) => seed_secret(read.1),
    }
}

/// The secret that a typed private key spells, as `nsec` or as hexadecimal.
pub open spec fn typed_secret(input: Seq<char>) -> Result<Seq<u8>, Seq<char>> {
    let raw = trimmed(input);
    let bytes: Result<Seq<u8>, Seq<char>> = if begins_with(raw, "nsec"@) {
        match bech32_reading(raw) {
            Err(e) => Err("invalid nsec: "@ + e),
            Ok(read) => if read.0 != "nsec"@ {
                Err("expected an nsec key, got '"@ + read.0 + "'"@)
            } else if read.1.len() != 32 {
                Err("nsec is not 32 bytes"@)
            } else {
                Ok(read.1)
            },
        }
    } else {
        match hex_bytes(raw) {
            None => Err("private key is not hex or nsec: "@ + hex_refusal(raw)),
            Some(b) => if b.len() != 32 {
                Err("hex private key must be 32 bytes (64 chars)"@)
            } else {
                Ok(b)
            },
        }
    };
    match bytes {
        Err(e) => Err(e),
        Ok(b) => if is_secret_key(b) {
            Ok(b)
        } else {
            Err("invalid secret key: malformed or out-of-range secret key"@)
        },
    }
}

fn typed_bytes(raw: &str) -> (r: Result<Vec<u8>, String>)
    ensures
        bytes_outcome(r) == if begins_with(raw@, "nsec"@) {
            match bech32_reading(raw@) {
                Err(e) => Err("invalid nsec: "@ + e),
                Ok(read) => if read.0 != "nsec"@ {
                    Err("expected an nsec key, got '"@ + read.0 + "'"@)
                } else if read.1.len() != 32 {
                    Err("nsec is not 32 bytes"@)
                } else {
                    Ok(read.1)
                },
            }
        } else {
            match hex_bytes(raw@) {
                None => Err("private key is not hex or nsec: "@ + hex_refusal(raw@)),
                Some(b) => if b.len() != 32 {
                    Err("hex private key must be 32 bytes (64 chars)"@)
                } else {
                    Ok(b)
                },
            }
        },
{
    if starts_with(raw, "nsec") {
        match bech32_decode(raw) {
            Err(e) => Err("invalid nsec: ".to_owned().concat(e.as_str())),
            Ok((hrp, data)) => {
                if !same(hrp.as_str(), "nsec") {
                    Err(
                        "expected an nsec key, got '".to_owned().concat(hrp.as_str()).concat("'"),
                    )
                } else if data.len() != 32 {
                    Err("nsec is not 32 bytes".to_owned())
                } else {
                    Ok(data)
                }
            },
        }
    } else {
        match hex_decode(raw) {
            Err(e) => Err("private key is not hex or nsec: ".to_owned().concat(e.as_str())),
            Ok(bytes) => {
                if bytes.len() != 32 {
                    Err("hex private key must be 32 bytes (64 chars)".to_owned())
                } else {
                    Ok(bytes)
                }
            },
        }
    }
}

/// The domain of the secret that carries media keys.
pub open spec fn media_domain() -> Seq<u8> {
    encode_utf8("dioxusfun/media-key/v1"@)
}

/// The secret two identities share for media keys.
pub open spec fn media_secret(secret: Seq<u8>, their_pubkey: Seq<char>) -> Result<
    Seq<u8>,
    Seq<char>,
> {
    match meeting_x(secret, their_pubkey) {
        Ok(x) => Ok(sha256(media_domain() + x)),
        Err(e) => Err(e),
    }
}

/// A key as it lies in a file.
#[derive(Debug, Clone, PartialEq, Eq)]
pub struct Stored {
    pub version: u32,
    pub display_name: String,
    pub pubkey: String,
    pub seed_phrase: Option<String>,
    pub nsec: Option<String>,
}

/// What a stored key is restored to.
pub open spec fn stored_secret(stored: Stored) -> Result<Seq<u8>, Seq<char>> {
    if stored.version != FILE_VERSION {
        Err(
            "unknown identity file version "@ + decimal(stored.version as nat) + "; expected 1"@,
        )
    } else {
        match (stored.seed_phrase, stored.nsec) {
            (Some(phrase), _) => phrase_secret(phrase@),
            (None, Some(nsec)) => typed_secret(nsec@),
            (None, None) => Err("identity file has neither seed_phrase nor nsec"@),
        }
    }
}

/// What restoring from a typed private key gives: an identity of the secret it spells,
/// kept as an `nsec`, or why it spells none.
pub open spec fn typed_restores(
    input: Seq<char>,
    display_name: Seq<char>,
    r: Result<Identity, String>,
) -> bool {
    match typed_secret(input) {
        Err(e) => r is Err && r->Err_0@ == e,
        Ok(secret) => {
            &&& r is Ok
            &&& r->Ok_0.consistent()
            &&& r->Ok_0.sourced()
            &&& r->Ok_0.key() == secret
            &&& r->Ok_0.display_name@ == display_name
            &&& r->Ok_0.source matches IdentitySource::Nsec(k) && k@ == bech32_text(
                "nsec"@,
                secret,
            )
        },
    }
}

impl Identity {
    /// The secret key.
    pub open spec fn key(&self) -> Seq<u8> {
        self.secret@
    }

    /// Whether the public name is the secret's.
    pub open spec fn consistent(&self) -> bool {
        names_secret(self.pubkey@, self.key())
    }

    /// Whether what the identity came from gives its secret.
    pub open spec fn sourced(&self) -> bool {
        match self.source {
            IdentitySource::Phrase(p) => phrase_secret(p@) == Ok::<Seq<u8>, Seq<char>>(self.key()),
            IdentitySource::Nsec(k) => typed_secret(k@) == Ok::<Seq<u8>, Seq<char>>(self.key()),
        }
    }

    fn from_secret(secret: SecretKey, display_name: &str, source: IdentitySource) -> (r: Identity)
        ensures
            r.consistent(),
            r.key() == secret@,
            r.display_name@ == display_name@,
            r.source == source,
    {
        let x: [u8; 32] = x_only_public_key(secret.bytes());
        Identity {
            pubkey: hex_encode(x.as_slice()),
            display_name: display_name.to_owned(),
            source,
            secret,
        }
    }

    /// A new identity from entropy of chance, restored by its phrase.
    pub fn create(display_name: &str) -> (r: Result<Identity, String>)
        ensures
            exists|entropy: Seq<u8>|
                {
                    let phrase = #[trigger] entropy_phrase(entropy);
                    &&& entropy.len() == 16
                    &&& match phrase_secret(phrase) {
                        Err(e) => r is Err && r->Err_0@ == e,
                        Ok(secret) => {
                            &&& r is Ok
                            &&& r->Ok_0.consistent()
                            &&& r->Ok_0.sourced()
                            &&& r->Ok_0.key() == secret
                            &&& r->Ok_0.display_name@ == display_name@
                            &&& r->Ok_0.source matches IdentitySource::Phrase(p) && p@ == phrase
                        },
                    }
                },
    {
        let entropy: Vec<u8> = random_bytes(16);
        let phrase: String = write_phrase(entropy.as_slice());
        assert(phrase@ == entropy_phrase(entropy@));
        Identity::restore_from_phrase(phrase.as_str(), display_name)
    }

    /// The identity that a recovery phrase stands for.
    pub fn restore_from_phrase(seed_phrase: &str, display_name: &str) -> (r: Result<
        Identity,
        String,
    >)
        ensures
            match phrase_secret(seed_phrase@) {
                Err(e) => r is Err && r->Err_0@ == e,
                Ok(secret) => {
                    &&& r is Ok
                    &&& r->Ok_0.consistent()
                    &&& r->Ok_0.sourced()
                    &&& r->Ok_0.key() == secret
                    &&& r->Ok_0.display_name@ == display_name@
                    &&& r->Ok_0.source matches IdentitySource::Phrase(p) && p@ == phrase_reading(
                        trimmed(seed_phrase@),
                    )->Ok_0.0
                },
            },
    {
        match read_phrase(trim(seed_phrase).as_str()) {
            Err(e) => Err("invalid recovery phrase: ".to_owned().concat(e.as_str())),
            Ok((phrase, seed)) => match derive_nip06(seed.as_slice()) {
                Err(e) => Err(e),
                Ok(secret) => Ok(
                    Identity::from_secret(secret, display_name, IdentitySource::Phrase(phrase)),
                ),
            },
        }
    }

    /// The identity of a typed private key.
    pub fn restore_from_private_key(input: &str, display_name: &str) -> (r: Result<
        Identity,
        String,
    >)
        ensures
            typed_restores(input@, display_name@, r),
    {
        let raw: String = trim(input);
        let bytes: Vec<u8> = match typed_bytes(raw.as_str()) {
            Ok(bytes) => bytes,
            Err(e) => {
                return Err(e);
            },
        };
        match SecretKey::from_slice(bytes.as_slice()) {
            Err(e) => {
                proof {
                    reveal_strlit("invalid secret key: ");
                    reveal_strlit("malformed or out-of-range secret key");
                    reveal_strlit("invalid secret key: malformed or out-of-range secret key");
                    assert("invalid secret key: "@ + "malformed or out-of-range secret key"@
                        =~= "invalid secret key: malformed or out-of-range secret key"@);
                }
                Err("invalid secret key: ".to_owned().concat(e.as_str()))
            },
            Ok(secret) => {
                let nsec: String = nsec_of(&secret);
                Ok(Identity::from_secret(secret, display_name, IdentitySource::Nsec(nsec)))
            },
        }
    }

    /// The secret key.
    pub fn secret_key(&self) -> (r: SecretKey)
        ensures
            r@ == self.key(),
    {
        self.secret.clone()
    }

    /// The seed of the key that direct connections are made with. It is not the
    /// secret itself.
    pub fn transport_seed(&self) -> (r: [u8; 32])
        ensures
            r@ == sha256(encode_utf8("dioxusfun/quic-transport/v1"@) + self.key()),
    {
        let mut message: Vec<u8> = Vec::new();
        append_bytes(&mut message, "dioxusfun/quic-transport/v1".as_bytes());
        append_bytes(&mut message, self.secret.bytes());
        assert(message@ =~= encode_utf8("dioxusfun/quic-transport/v1"@) + self.key());
        sha256_digest(message.as_slice())
    }

    /// The secret shared with another identity for media keys. Both sides derive
    /// the same one.
    pub fn shared_secret_with(&self, their_pubkey_hex: &str) -> (r: Result<[u8; 32], String>)
        ensures
            key_outcome(r) == media_secret(self.key(), their_pubkey_hex@),
            forall|other: Seq<u8>| #[trigger]
                names_secret(their_pubkey_hex@, other) ==> {
                    &&& r is Ok
                    &&& media_secret(other, hex_text(public_x(self.key()))) == Ok::<
                        Seq<u8>,
                        Seq<char>,
                    >(r->Ok_0@)
                },
    {
        match meet(&self.secret, their_pubkey_hex) {
            Err(e) => Err(e),
            Ok(x) => {
                let mut message: Vec<u8> = Vec::new();
                append_bytes(&mut message, "dioxusfun/media-key/v1".as_bytes());
                append_bytes(&mut message, x.as_slice());
                assert(message@ =~= media_domain() + x@);
                Ok(sha256_digest(message.as_slice()))
            },
        }
    }

    /// Signs the digest of a message. The signature verifies under our name.
    pub fn sign_hex(&self, message: &[u8]) -> (r: String)
        ensures
            r@ == hex_text(schnorr_signature(self.key(), sha256(message@))),
            hex_bytes(r@) matches Some(sig) && schnorr_accepts(
                sig,
                sha256(message@),
                public_x(self.key()),
            ),
    {
        let digest: [u8; 32] = sha256_digest(message);
        self.nostr_sign_id(&digest)
    }

    /// Signs an event's id. The signature verifies under our name.
    pub fn nostr_sign_id(&self, id: &[u8; 32]) -> (r: String)
        ensures
            r@ == hex_text(schnorr_signature(self.key(), id@)),
            hex_bytes(r@) matches Some(sig) && schnorr_accepts(sig, id@, public_x(self.key())),
    {
        let sig: [u8; 64] = schnorr_sign(self.secret.bytes(), id);
        proof {
            hex_round_trip(sig@);
        }
        hex_encode(sig.as_slice())
    }

    /// The public name in bech32.
    pub fn npub(&self) -> (r: String)
        requires
            hex_bytes(self.pubkey@) is Some ==> self.pubkey@.len() <= 1264,
        ensures
            r@ == npub_text(self.pubkey@),
            self.consistent() ==> pubkey_read(r@) == Ok::<Seq<char>, Seq<char>>(self.pubkey@),
    {
        let r: String = npub_of(self.pubkey.as_str());
        proof {
            hex_round_trip(public_x(self.key()));
        }
        r
    }

    /// The secret in bech32. Restoring from it gives this identity's key back.
    pub fn export_nsec(&self) -> (r: String)
        ensures
            r@ == bech32_text("nsec"@, self.key()),
            typed_secret(r@) == Ok::<Seq<u8>, Seq<char>>(self.key()),
    {
        nsec_of(&self.secret)
    }

    /// Whether a file holds this identity: under the phrase it came from, or else under
    /// its secret.
    pub open spec fn kept_as(&self, stored: Stored) -> bool {
        &&& stored.version == FILE_VERSION
        &&& stored.display_name@ == self.display_name@
        &&& stored.pubkey@ == self.pubkey@
        &&& opt_text(stored.seed_phrase) == match self.source {
            IdentitySource::Phrase(p) => Some(p@),
            IdentitySource::Nsec(_) => None,
        }
        &&& opt_text(stored.nsec) == match self.source {
            IdentitySource::Phrase(_) => None,
            IdentitySource::Nsec(k) => Some(k@),
        }
    }

    /// The file that holds this identity.
    pub fn to_stored(&self) -> (r: Stored)
        ensures
            self.kept_as(r),
    {
        let (seed_phrase, nsec): (Option<String>, Option<String>) = match &self.source {
            IdentitySource::Phrase(p) => (Some(p.clone()), None),
            IdentitySource::Nsec(k) => (None, Some(k.clone())),
        };
        Stored {
            version: FILE_VERSION,
            display_name: self.display_name.clone(),
            pubkey: self.pubkey.clone(),
            seed_phrase,
            nsec,
        }
    }

    /// The identity that a file holds.
    pub fn from_stored(stored: Stored) -> (r: Result<Identity, String>)
        ensures
            match stored_secret(stored) {
                Err(e) => r is Err && r->Err_0@ == e,
                Ok(secret) => {
                    &&& r is Ok
                    &&& r->Ok_0.consistent()
                    &&& r->Ok_0.sourced()
                    &&& r->Ok_0.key() == secret
                    &&& r->Ok_0.display_name@ == stored.display_name@
                    &&& match r->Ok_0.source {
                        IdentitySource::Phrase(p) => stored.seed_phrase is Some && p@
                            == phrase_reading(trimmed(stored.seed_phrase->Some_0@))->Ok_0.0,
                        IdentitySource::Nsec(k) => stored.seed_phrase is None && k@ == bech32_text(
                            "nsec"@,
                            secret,
                        ),
                    }
                },
            },
    {
        if stored.version != FILE_VERSION {
            return Err(
                "unknown identity file version ".to_owned().concat(
                    decimal_text(stored.version as u64).as_str(),
                ).concat("; expected 1"),
            );
        }
        match (stored.seed_phrase, stored.nsec) {
            (Some(phrase), _) => Identity::restore_from_phrase(
                phrase.as_str(),
                stored.display_name.as_str(),
            ),
            (None, Some(nsec)) => Identity::restore_from_private_key(
                nsec.as_str(),
                stored.display_name.as_str(),
            ),
            (None, None) => Err("identity file has neither seed_phrase nor nsec".to_owned()),
        }
    }
}

fn nsec_of(secret: &SecretKey) -> (r: String)
    ensures
        r@ == bech32_text("nsec"@, secret@),
        typed_secret(r@) == Ok::<Seq<u8>, Seq<char>>(secret@),
{
    let key: &[u8] = secret.bytes();
    proof {
        reveal_strlit("nsec");
    }
    let r: String = bech32_encode("nsec", key);
    assert(begins_with(r@, "nsec"@)) by {
        reveal_strlit("nsec");
        assert("nsec"@.push('1').len() == 5);
        assert(r@.take(5) == "nsec"@.push('1'));
        assert(r@.take(4) =~= r@.take(5).take(4));
        assert("nsec"@.push('1').take(4) =~= "nsec"@);
    }
    r
}

impl Clone for Identity {
    fn clone(&self) -> (r: Identity)
        ensures
            r.pubkey@ == self.pubkey@,
            r.display_name@ == self.display_name@,
            r.source == self.source,
            r.key() == self.key(),
    {
        let source: IdentitySource = match &self.source {
            IdentitySource::Phrase(p) => IdentitySource::Phrase(p.clone()),
            IdentitySource::Nsec(k) => IdentitySource::Nsec(k.clone()),
        };
        Identity {
            pubkey: self.pubkey.clone(),
            display_name: self.display_name.clone(),
            source,
            secret: self.secret.clone(),
        }
    }
}

/// A public name in bech32. What is not hexadecimal counts as no bytes.
pub open spec fn npub_text(pubkey: Seq<char>) -> Seq<char> {
    match hex_bytes(pubkey) {
        Some(b) => bech32_text("npub"@, b),
        None => bech32_text("npub"@, Seq::empty()),
    }
}

/// Writes a public name in bech32. More than 632 bytes do not fit there. For 64
/// hexadecimal digits in lower case, what is written reads back as the name.
pub fn npub_of(pubkey: &str) -> (r: String)
    requires
        hex_bytes(pubkey@) is Some ==> pubkey@.len() <= 1264,
    ensures
        r@ == npub_text(pubkey@),
        forall|b: Seq<u8>|
            b.len() == 32 && pubkey@ == #[trigger] hex_text(b) ==> pubkey_read(r@) == Ok::<
                Seq<char>,
                Seq<char>,
            >(pubkey@),
{
    let bytes: Vec<u8> = match hex_decode(pubkey) {
        Ok(bytes) => bytes,
        Err(_) => Vec::new(),
    };
    assert(hex_bytes(pubkey@) is None ==> bytes@ =~= Seq::empty());
    proof {
        reveal_strlit("npub");
    }
    let r: String = bech32_encode("npub", bytes.as_slice());
    proof {
        assert forall|b: Seq<u8>| b.len() == 32 && pubkey@ == #[trigger] hex_text(b) implies
            pubkey_read(r@) == Ok::<Seq<char>, Seq<char>>(pubkey@) by {
            hex_round_trip(b);
            reveal_strlit("npub");
            reveal_strlit("nsec");
            assert("npub"@.push('1').len() == 5);
            assert(r@.take(5) == "npub"@.push('1'));
            assert("npub"@.push('1').take(4) =~= "npub"@);
            assert(r@.take(4) =~= r@.take(5).take(4));
            assert(r@.take(4)[1] == 'p');
            assert("nsec"@[1] == 's');
        }
    }
    r
}

/// The public key that was typed, as hexadecimal, or why there is none.
pub open spec fn pubkey_read(input: Seq<char>) -> Result<Seq<char>, Seq<char>> {
    let raw = trimmed(input);
    if begins_with(raw, "nsec"@) {
        Err("that is a private key — you want the npub, not the nsec"@)
    } else if begins_with(raw, "npub"@) {
        match bech32_reading(raw) {
            Err(e) => Err("not a valid npub: "@ + e),
            Ok(read) => if read.0 != "npub"@ {
                Err("expected an npub, got '"@ + read.0 + "'"@)
            } else if read.1.len() != 32 {
                Err("an npub decodes to 32 bytes"@)
            } else {
                Ok(hex_text(read.1))
            },
        }
    } else {
        match hex_bytes(raw) {
            None => Err("not an npub or a hex key"@),
            Some(b) => if b.len() != 32 {
                Err("a nostr pubkey is 32 bytes (64 hex characters)"@)
            } else {
                Ok(hex_text(b))
            },
        }
    }
}

/// Reads a public key that was typed as `npub` or as hexadecimal.
pub fn pubkey_from_input(raw: &str) -> (r: Result<String, String>)
    ensures
        text_outcome(r) == pubkey_read(raw@),
{
    let raw: String = trim(raw);
    let raw: &str = raw.as_str();
    if starts_with(raw, "nsec") {
        return Err("that is a private key — you want the npub, not the nsec".to_owned());
    }
    if starts_with(raw, "npub") {
        return match bech32_decode(raw) {
            Err(e) => Err("not a valid npub: ".to_owned().concat(e.as_str())),
            Ok((hrp, data)) => {
                if !same(hrp.as_str(), "npub") {
                    Err("expected an npub, got '".to_owned().concat(hrp.as_str()).concat("'"))
                } else if data.len() != 32 {
                    Err("an npub decodes to 32 bytes".to_owned())
                } else {
                    Ok(hex_encode(data.as_slice()))
                }
            },
        };
    }
    match hex_decode(raw) {
        Err(_) => Err("not an npub or a hex key".to_owned()),
        Ok(bytes) => {
            if bytes.len() != 32 {
                Err("a nostr pubkey is 32 bytes (64 hex characters)".to_owned())
            } else {
                Ok(hex_encode(bytes.as_slice()))
            }
        },
    }
}

/// Whether a text can be cut eight bytes from its start and four from its end,
/// where it is long enough to be cut.
pub open spec fn cuttable(s: Seq<char>) -> bool {
    let b = encode_utf8(s);
    b.len() > 12 ==> is_char_boundary(b, 8) && is_char_boundary(b, b.len() - 4)
}

/// A key with its middle left out.
pub open spec fn truncated(s: Seq<char>) -> Seq<char> {
    let b = encode_utf8(s);
    if b.len() <= 12 {
        s
    } else {
        decode_utf8(b.subrange(0, 8)) + "…"@ + decode_utf8(b.subrange(b.len() - 4, b.len() as int))
    }
}

/// Every text of ASCII characters can be cut, and keeps its first eight and its
/// last four characters.
pub proof fn ascii_is_cuttable(s: Seq<char>)
    requires
        is_ascii_chars(s),
    ensures
        cuttable(s),
        s.len() > 12 ==> truncated(s) == s.take(8) + "…"@ + s.skip(s.len() - 4),
        s.len() <= 12 ==> truncated(s) == s,
{
    let b = encode_utf8(s);
    is_ascii_chars_encode_utf8(s);
    if s.len() > 12 {
        encode_utf8_valid_utf8(s);
        is_char_boundary_iff_not_is_continuation_byte(b, 8);
        is_char_boundary_iff_not_is_continuation_byte(b, b.len() - 4);
        assert(b[8] < 128 && b[b.len() - 4] < 128);
        let x = b[8];
        let y = b[b.len() - 4];
        assert(x < 128 ==> !is_continuation_byte(x));
        assert(y < 128 ==> !is_continuation_byte(y));
        let head = s.take(8);
        let tail = s.skip(s.len() - 4);
        is_ascii_chars_encode_utf8(head);
        is_ascii_chars_encode_utf8(tail);
        assert(encode_utf8(head) =~= b.subrange(0, 8));
        assert(encode_utf8(tail) =~= b.subrange(b.len() - 4, b.len() as int));
        encode_utf8_decode_utf8(head);
        encode_utf8_decode_utf8(tail);
    }
}

/// Shortens a key to its ends.
pub fn truncate_pubkey(pubkey: &str) -> (r: String)
    requires
        cuttable(pubkey@),
    ensures
        r@ == truncated(pubkey@),
{
    let n: usize = pubkey.as_bytes().len();
    if n <= 12 {
        return pubkey.to_owned();
    }
    let (head, _) = pubkey.split_at(8);
    let (_, tail) = pubkey.split_at(n - 4);
    proof {
        encode_utf8_decode_utf8(head@);
        encode_utf8_decode_utf8(tail@);
    }
    head.to_owned().concat("…").concat(tail)
}

/// The last four bytes of a key, that tell one name from another like it.
pub fn discriminator(pubkey: &str) -> (r: &str)
    requires
        encode_utf8(pubkey@).len() > 4 ==> is_char_boundary(
            encode_utf8(pubkey@),
            encode_utf8(pubkey@).len() - 4,
        ),
    ensures
        encode_utf8(pubkey@).len() <= 4 ==> r@ == pubkey@,
        encode_utf8(pubkey@).len() > 4 ==> encode_utf8(r@) == encode_utf8(pubkey@).subrange(
            encode_utf8(pubkey@).len() - 4,
            encode_utf8(pubkey@).len() as int,
        ),
{
    let n: usize = pubkey.as_bytes().len();
    if n <= 4 {
        return pubkey;
    }
    pubkey.split_at(n - 4).1
}

/// The number that a key's bytes mix to.
pub open spec fn mixed(b: Seq<u8>) -> u32
    decreases b.len(),
{
    if b.len() == 0 {
        0
    } else {
        mixed(b.drop_last()).wrapping_mul(31).wrapping_add(b.last() as u32)
    }
}

/// The next number of a key's colours.
pub open spec fn next_mix(h: u32) -> u32 {
    h.wrapping_mul(1_664_525).wrapping_add(1_013_904_223)
}

/// The number behind the colour at an index.
pub open spec fn mix_at(h: u32, i: nat) -> u32
    decreases i,
{
    if i == 0 {
        next_mix(h)
    } else {
        next_mix(mix_at(h, (i - 1) as nat))
    }
}

/// The colour of a number.
pub open spec fn colour(h: u32) -> Seq<char> {
    "hsl("@ + decimal((h % 360) as nat) + ", "@ + decimal((62 + (h >> 9) % 24) as nat) + "%, "@
        + decimal((56 + (h >> 17) % 12) as nat) + "%)"@
}

/// The colours of a key.
pub fn color_signature(pubkey: &str, n: usize) -> (r: Vec<String>)
    ensures
        r@.len() == n,
        forall|i: int|
            0 <= i < n ==> (#[trigger] r@[i])@ == colour(
                mix_at(mixed(encode_utf8(pubkey@)), i as nat),
            ),
{
    let bytes: &[u8] = pubkey.as_bytes();
    let mut h: u32 = 0;
    let mut i: usize = 0;
    assert(bytes@.take(0) =~= Seq::empty());
    while i < bytes.len()
        invariant
            i <= bytes@.len(),
            h == mixed(bytes@.take(i as int)),
        decreases bytes@.len() - i,
    {
        assert(bytes@.take(i + 1).drop_last() =~= bytes@.take(i as int));
        h = h.wrapping_mul(31).wrapping_add(bytes[i] as u32);
        i = i + 1;
    }
    assert(bytes@.take(i as int) =~= bytes@);
    let ghost start = h;
    let mut out: Vec<String> = Vec::new();
    let mut k: usize = 0;
    while k < n
        invariant
            k <= n,
            out@.len() == k,
            k == 0 ==> h == start,
            k > 0 ==> h == mix_at(start, (k - 1) as nat),
            forall|j: int| 0 <= j < k ==> (#[trigger] out@[j])@ == colour(mix_at(start, j as nat)),
        decreases n - k,
    {
        h = h.wrapping_mul(1_664_525).wrapping_add(1_013_904_223);
        assert(h == mix_at(start, k as nat));
        let text: String = "hsl(".to_owned().concat(
            decimal_text((h % 360) as u64).as_str(),
        ).concat(", ").concat(decimal_text((62 + (h >> 9) % 24) as u64).as_str()).concat(
            "%, ",
        ).concat(decimal_text((56 + (h >> 17) % 12) as u64).as_str()).concat("%)");
        out.push(text);
        k = k + 1;
    }
    out
}

/// The first colour of a key.
pub fn signature_accent(pubkey: &str) -> (r: String)
    ensures
        r@ == colour(next_mix(mixed(encode_utf8(pubkey@)))),
{
    let colours: Vec<String> = color_signature(pubkey, 1);
    assert(colours@[0]@ == colour(mix_at(mixed(encode_utf8(pubkey@)), 0)));
    colours[0].clone()
}

/// One key on disk without its secret.
#[derive(Debug, Clone, PartialEq, Eq)]
pub struct FoundIdentity {
    pub pubkey: String,
    pub display_name: String,
    pub path: String,
}

/// Whether a key is among those found.
pub open spec fn is_found(found: Seq<FoundIdentity>, pubkey: Seq<char>) -> bool {
    exists|i: int| 0 <= i < found.len() && (#[trigger] found[i]).pubkey@ == pubkey
}

/// Whether a file counts as a key: it has the version, a secret, and a public
/// key of 64 bytes.
pub open spec fn is_key_file(stored: Stored) -> bool {
    stored.version == FILE_VERSION && (stored.seed_phrase is Some || stored.nsec is Some)
        && encode_utf8(stored.pubkey@).len() == 64
}

/// The place of the first key with a name.
pub fn position_of(found: &Vec<FoundIdentity>, pubkey: &str) -> (r: Option<usize>)
    ensures
        match r {
            Some(i) => {
                &&& i < found@.len()
                &&& found@[i as int].pubkey@ == pubkey@
                &&& forall|j: int| 0 <= j < i ==> (#[trigger] found@[j]).pubkey@ != pubkey@
            },
            None => !is_found(found@, pubkey@),
        },
{
    let mut i: usize = 0;
    while i < found.len()
        invariant
            i <= found@.len(),
            forall|j: int| 0 <= j < i ==> (#[trigger] found@[j]).pubkey@ != pubkey@,
        decreases found@.len() - i,
    {
        if same(found[i].pubkey.as_str(), pubkey) {
            return Some(i);
        }
        i = i + 1;
    }
    None
}

/// Adds a file to the keys found, unless it is no key or is listed already.
pub fn collect(found: &mut Vec<FoundIdentity>, stored: Stored, path: String)
    ensures
        if is_key_file(stored) && !is_found(old(found)@, stored.pubkey@) {
            final(found)@ == old(found)@.push(
                FoundIdentity {
                    pubkey: stored.pubkey,
                    display_name: stored.display_name,
                    path,
                },
            )
        } else {
            final(found)@ == old(found)@
        },
{
    if stored.version != FILE_VERSION || (stored.seed_phrase.is_none() && stored.nsec.is_none())
        || stored.pubkey.as_str().as_bytes().len() != 64 {
        return ;
    }
    if position_of(found, stored.pubkey.as_str()).is_some() {
        return ;
    }
    found.push(FoundIdentity { pubkey: stored.pubkey, display_name: stored.display_name, path });
}

/// A file that was read as a key, and where it lies.
#[derive(Debug, Clone, PartialEq, Eq)]
pub struct KeyFile {
    pub stored: Stored,
    pub path: String,
}

/// Whether a file holds the key of a name.
pub open spec fn holds_key(f: KeyFile, pubkey: Seq<char>) -> bool {
    is_key_file(f.stored) && f.stored.pubkey@ == pubkey
}

/// The places of every file that holds the key of a name.
pub open spec fn key_places(files: Seq<KeyFile>, pubkey: Seq<char>) -> Seq<Seq<char>>
    decreases files.len(),
{
    if files.len() == 0 {
        Seq::empty()
    } else {
        let before = key_places(files.drop_last(), pubkey);
        if holds_key(files.last(), pubkey) {
            before.push(files.last().path@)
        } else {
            before
        }
    }
}

/// Finds every file that holds the key of a name: the listed one, and any copy of it.
pub fn files_of(files: &Vec<KeyFile>, pubkey: &str) -> (r: Vec<String>)
    ensures
        texts(r@) == key_places(files@, pubkey@),
{
    let mut out: Vec<String> = Vec::new();
    let mut i: usize = 0;
    assert(files@.take(0) =~= Seq::empty());
    assert(texts(out@) =~= Seq::empty());
    while i < files.len()
        invariant
            i <= files@.len(),
            texts(out@) == key_places(files@.take(i as int), pubkey@),
        decreases files@.len() - i,
    {
        let ghost was = out@;
        let f: &KeyFile = &files[i];
        assert(files@.take(i + 1).drop_last() =~= files@.take(i as int));
        if f.stored.version == FILE_VERSION && (f.stored.seed_phrase.is_some()
            || f.stored.nsec.is_some()) && f.stored.pubkey.as_str().as_bytes().len() == 64 && same(
            f.stored.pubkey.as_str(),
            pubkey,
        ) {
            out.push(f.path.clone());
            assert(texts(out@) =~= texts(was).push(f.path@));
        }
        i = i + 1;
    }
    assert(files@.take(i as int) =~= files@);
    out
}

/// The key that a file is listed as.
pub open spec fn found_in(f: KeyFile) -> FoundIdentity {
    FoundIdentity {
        pubkey: f.stored.pubkey,
        display_name: f.stored.display_name,
        path: f.path,
    }
}

/// The keys that files list, each under the first file that holds it.
pub open spec fn listed(files: Seq<KeyFile>) -> Seq<FoundIdentity>
    decreases files.len(),
{
    if files.len() == 0 {
        Seq::empty()
    } else {
        let before = listed(files.drop_last());
        let f = files.last();
        if is_key_file(f.stored) && !is_found(before, f.stored.pubkey@) {
            before.push(found_in(f))
        } else {
            before
        }
    }
}

proof fn listed_is_held(files: Seq<KeyFile>, pubkey: Seq<char>)
    ensures
        is_found(listed(files), pubkey) ==> exists|i: int|
            0 <= i < files.len() && holds_key(#[trigger] files[i], pubkey),
    decreases files.len(),
{
    if files.len() > 0 && is_found(listed(files), pubkey) {
        let rest = files.drop_last();
        let before = listed(rest);
        listed_is_held(rest, pubkey);
        if is_found(before, pubkey) {
            let i = choose|i: int| 0 <= i < rest.len() && holds_key(#[trigger] rest[i], pubkey);
            assert(holds_key(files[i], pubkey));
        } else {
            let all = listed(files);
            let k = choose|k: int| 0 <= k < all.len() && (#[trigger] all[k]).pubkey@ == pubkey;
            if k < before.len() {
                assert(before[k].pubkey@ == pubkey);
            }
            assert(holds_key(files[files.len() - 1], pubkey));
        }
    }
}

proof fn held_is_placed(files: Seq<KeyFile>, pubkey: Seq<char>, i: int)
    requires
        0 <= i < files.len(),
        holds_key(files[i], pubkey),
    ensures
        key_places(files, pubkey).contains(files[i].path@),
    decreases files.len(),
{
    let rest = files.drop_last();
    let all = key_places(files, pubkey);
    if i < rest.len() {
        held_is_placed(rest, pubkey, i);
        let before = key_places(rest, pubkey);
        let k = choose|k: int| 0 <= k < before.len() && before[k] == files[i].path@;
        assert(all[k] == files[i].path@);
    } else {
        assert(all[all.len() - 1] == files[i].path@);
    }
}

/// Whether a file is the first that holds the key of a name.
pub open spec fn first_holder(files: Seq<KeyFile>, k: int, pubkey: Seq<char>) -> bool {
    &&& 0 <= k < files.len()
    &&& holds_key(files[k], pubkey)
    &&& forall|m: int| 0 <= m < k ==> !holds_key(#[trigger] files[m], pubkey)
}

/// What files list is every key among them, each once, under the first file that holds
/// it, and nothing else.
pub proof fn every_key_is_listed_once(files: Seq<KeyFile>)
    ensures
        forall|i: int, j: int|
            0 <= i < j < listed(files).len() ==> (#[trigger] listed(files)[i]).pubkey@ != (
            #[trigger] listed(files)[j]).pubkey@,
        forall|i: int|
            0 <= i < listed(files).len() ==> encode_utf8(
                (#[trigger] listed(files)[i]).pubkey@,
            ).len() == 64,
        forall|i: int|
            0 <= i < listed(files).len() ==> exists|k: int|
                first_holder(files, k, (#[trigger] listed(files)[i]).pubkey@) && listed(files)[i]
                    == found_in(#[trigger] files[k]),
        forall|k: int|
            0 <= k < files.len() && is_key_file((#[trigger] files[k]).stored) ==> is_found(
                listed(files),
                files[k].stored.pubkey@,
            ),
    decreases files.len(),
{
    if files.len() > 0 {
        let rest = files.drop_last();
        let before = listed(rest);
        let all = listed(files);
        let f = files.last();
        let n = rest.len() as int;
        every_key_is_listed_once(rest);
        assert forall|i: int, j: int| 0 <= i < j < all.len() implies (#[trigger] all[i]).pubkey@ != (
        #[trigger] all[j]).pubkey@ by {
            if j < before.len() {
                assert(before[i].pubkey@ != before[j].pubkey@);
            } else {
                assert(before[i] == all[i]);
            }
        }
        assert forall|i: int| 0 <= i < all.len() implies encode_utf8(
            (#[trigger] all[i]).pubkey@,
        ).len() == 64 by {
            if i < before.len() {
                assert(before[i] == all[i]);
            }
        }
        assert forall|i: int| 0 <= i < all.len() implies exists|k: int|
            first_holder(files, k, (#[trigger] all[i]).pubkey@) && all[i] == found_in(
                #[trigger] files[k],
            ) by {
            let who = all[i].pubkey@;
            if i < before.len() {
                assert(before[i] == all[i]);
                let k = choose|k: int|
                    first_holder(rest, k, who) && before[i] == found_in(#[trigger] rest[k]);
                assert(files[k] == rest[k]);
                assert forall|m: int| 0 <= m < k implies !holds_key(#[trigger] files[m], who) by {
                    assert(rest[m] == files[m]);
                }
                assert(first_holder(files, k, who) && all[i] == found_in(files[k]));
            } else {
                assert forall|m: int| 0 <= m < n implies !holds_key(#[trigger] files[m], who) by {
                    assert(rest[m] == files[m]);
                    if is_key_file(rest[m].stored) {
                        assert(is_found(before, rest[m].stored.pubkey@));
                    }
                }
                assert(first_holder(files, n, who) && all[i] == found_in(files[n]));
            }
        }
        assert forall|k: int| 0 <= k < files.len() && is_key_file(
            (#[trigger] files[k]).stored,
        ) implies is_found(all, files[k].stored.pubkey@) by {
            let who = files[k].stored.pubkey@;
            if k < n {
                assert(rest[k] == files[k]);
                let i = choose|i: int| 0 <= i < before.len() && (#[trigger] before[i]).pubkey@ == who;
                assert(all[i].pubkey@ == who);
            } else if is_found(before, who) {
                let i = choose|i: int| 0 <= i < before.len() && (#[trigger] before[i]).pubkey@ == who;
                assert(all[i].pubkey@ == who);
            } else {
                assert(all[before.len() as int].pubkey@ == who);
            }
        }
    }
}

/// Once every file that holds a key is gone, the key is listed no more, however many
/// copies of it there were.
pub proof fn forgetting_takes_the_key_away(
    files: Seq<KeyFile>,
    left: Seq<KeyFile>,
    pubkey: Seq<char>,
)
    requires
        forall|i: int|
            0 <= i < left.len() ==> files.contains(#[trigger] left[i]) && !key_places(
                files,
                pubkey,
            ).contains(left[i].path@),
    ensures
        !is_found(listed(left), pubkey),
{
    listed_is_held(left, pubkey);
    if is_found(listed(left), pubkey) {
        let i = choose|i: int| 0 <= i < left.len() && holds_key(#[trigger] left[i], pubkey);
        let k = choose|k: int| 0 <= k < files.len() && files[k] == left[i];
        held_is_placed(files, pubkey, k);
    }
}

/// Whether forgetting a key signs it out as well.
pub fn forgets_pointer(active: Option<&str>, pubkey: &str) -> (r: bool)
    ensures
        r == (opt_str(active) == Some(pubkey@)),
{
    match active {
        Some(a) => same(a, pubkey),
        None => false,
    }
}

/// Whether a found key is listed before another: by name without regard to case,
/// then by key.
pub open spec fn listed_before(a: FoundIdentity, b: FoundIdentity) -> bool {
    let x = lower_case(a.display_name@);
    let y = lower_case(b.display_name@);
    text_lt(x, y) || (x == y && text_lt(a.pubkey@, b.pubkey@))
}

/// Whether keys are listed in order.
pub open spec fn in_order(s: Seq<FoundIdentity>) -> bool {
    forall|i: int, j: int| 0 <= i < j < s.len() ==> !listed_before(#[trigger] s[j], #[trigger] s[i])
}

fn goes_before(a: &FoundIdentity, b: &FoundIdentity) -> (r: bool)
    ensures
        r == listed_before(*a, *b),
{
    let x: String = to_lower_case(a.display_name.as_str());
    let y: String = to_lower_case(b.display_name.as_str());
    text_before(x.as_str(), y.as_str()) || (same(x.as_str(), y.as_str()) && text_before(
        a.pubkey.as_str(),
        b.pubkey.as_str(),
    ))
}

proof fn listed_before_laws(a: FoundIdentity, b: FoundIdentity, c: FoundIdentity)
    ensures
        listed_before(a, b) ==> !listed_before(b, a),
        listed_before(a, b) && !listed_before(c, b) ==> !listed_before(c, a),
        listed_before(a, b) && !listed_before(c, a) && !listed_before(a, c) ==> listed_before(c, b),
{
    let x = lower_case(a.display_name@);
    let y = lower_case(b.display_name@);
    let z = lower_case(c.display_name@);
    text_lt_total(x, y);
    text_lt_total(y, z);
    text_lt_total(x, z);
    text_lt_total(a.pubkey@, b.pubkey@);
    text_lt_total(b.pubkey@, c.pubkey@);
    text_lt_total(a.pubkey@, c.pubkey@);
    if text_lt(x, y) && text_lt(z, x) {
        text_lt_trans(z, x, y);
    }
    if text_lt(a.pubkey@, b.pubkey@) && text_lt(c.pubkey@, a.pubkey@) {
        text_lt_trans(c.pubkey@, a.pubkey@, b.pubkey@);
    }
}

/// Orders the keys that were found, by name and then by key. None is lost and
/// none is added.
pub fn sort_found(found: Vec<FoundIdentity>) -> (r: Vec<FoundIdentity>)
    ensures
        in_order(r@),
        r@.to_multiset() == found@.to_multiset(),
{
    broadcast use vstd::seq_lib::group_to_multiset_ensures;

    let ghost all = found@;
    let mut rest: Vec<FoundIdentity> = found;
    let mut out: Vec<FoundIdentity> = Vec::new();
    assert(rest@.to_multiset().add(out@.to_multiset()) =~= all.to_multiset());
    while rest.len() > 0
        invariant
            in_order(out@),
            rest@.to_multiset().add(out@.to_multiset()) =~= all.to_multiset(),
        decreases rest@.len(),
    {
        let ghost was = rest@;
        let ghost sorted = out@;
        let item: FoundIdentity = rest.pop().unwrap();
        assert(was =~= rest@.push(item));
        proof {
            vstd::seq_lib::to_multiset_build(rest@, item);
        }
        let mut i: usize = 0;
        while i < out.len() && goes_before(&out[i], &item)
            invariant
                i <= out@.len(),
                out@ == sorted,
                forall|j: int| 0 <= j < i ==> listed_before(#[trigger] out@[j], item),
            decreases out@.len() - i,
        {
            i = i + 1;
        }
        out.insert(i, item);
        proof {
            assert(out@ =~= sorted.insert(i as int, item));
            vstd::seq_lib::to_multiset_insert(sorted, i as int, item);
            assert forall|a: int, b: int| 0 <= a < b < out@.len() implies !listed_before(
                #[trigger] out@[b],
                #[trigger] out@[a],
            ) by {
                let n = i as int;
                if b == n {
                    listed_before_laws(sorted[a], item, item);
                } else if a == n {
                    assert(out@[b] == sorted[b - 1]);
                    if listed_before(sorted[b - 1], item) {
                        if b - 1 > n {
                            assert(!listed_before(sorted[b - 1], sorted[n]));
                            listed_before_laws(sorted[b - 1], item, sorted[n]);
                        }
                    }
                } else {
                    let x = if a < n {
                        a
                    } else {
                        a - 1
                    };
                    let y = if b < n {
                        b
                    } else {
                        b - 1
                    };
                    assert(!listed_before(sorted[y], sorted[x]));
                }
            }
        }
    }
    assert(rest@.to_multiset() =~= vstd::multiset::Multiset::<FoundIdentity>::empty()) by {
        assert(rest@ =~= Seq::empty());
    }
    assert(out@.to_multiset() =~= all.to_multiset());
    out
}

/// Lists every key that files hold, each once, in order of names.
pub fn detected(files: Vec<KeyFile>) -> (r: Vec<FoundIdentity>)
    ensures
        in_order(r@),
        r@.to_multiset() == listed(files@).to_multiset(),
{
    let ghost all = files@;
    let mut left: Vec<KeyFile> = files;
    let mut found: Vec<FoundIdentity> = Vec::new();
    let ghost mut n: int = 0;
    assert(all.take(0) =~= Seq::empty());
    while left.len() > 0
        invariant
            0 <= n <= all.len(),
            left@ =~= all.skip(n),
            found@ == listed(all.take(n)),
        decreases left@.len(),
    {
        let f: KeyFile = left.remove(0);
        assert(f == all[n]);
        assert(all.take(n + 1).drop_last() =~= all.take(n));
        assert(all.take(n + 1).last() == f);
        collect(&mut found, f.stored, f.path);
        proof {
            n = n + 1;
        }
    }
    assert(all.take(n) =~= all);
    sort_found(found)
}

/// The place of the key that the pointer file names, nothing when that key is
/// gone, or a complaint about the pointer's version.
pub fn active_choice(version: u32, active: &str, found: &Vec<FoundIdentity>) -> (r: Result<
    Option<usize>,
    String,
>)
    ensures
        version != ACTIVE_VERSION ==> r is Err && r->Err_0@ == "unknown identity file version "@
            + decimal(version as nat) + "; expected 2"@,
        version == ACTIVE_VERSION ==> r is Ok && match r->Ok_0 {
            Some(i) => i < found@.len() && found@[i as int].pubkey@ == active@ && forall|j: int|
                0 <= j < i ==> (#[trigger] found@[j]).pubkey@ != active@,
            None => !is_found(found@, active@),
        },
{
    if version != ACTIVE_VERSION {
        return Err(
            "unknown identity file version ".to_owned().concat(
                decimal_text(version as u64).as_str(),
            ).concat("; expected 2"),
        );
    }
    Ok(position_of(found, active))
}

/// The place of the key to sign in with, or a complaint that it is gone.
pub fn sign_in_choice(pubkey: &str, found: &Vec<FoundIdentity>) -> (r: Result<usize, String>)
    ensures
        match r {
            Ok(i) => i < found@.len() && found@[i as int].pubkey@ == pubkey@ && forall|j: int|
                0 <= j < i ==> (#[trigger] found@[j]).pubkey@ != pubkey@,
            Err(e) => !is_found(found@, pubkey@) && e@
                == "that identity is no longer on this machine"@,
        },
{
    match position_of(found, pubkey) {
        Some(i) => Ok(i),
        None => Err("that identity is no longer on this machine".to_owned()),
    }
}

/// The file that an identity is written to restores its key, whatever the identity
/// came from.
pub proof fn a_stored_identity_comes_back(id: Identity, stored: Stored)
    requires
        id.sourced(),
        id.kept_as(stored),
    ensures
        stored_secret(stored) == Ok::<Seq<u8>, Seq<char>>(id.key()),
{
}

/// A secret typed in hexadecimal is that secret, and the one an `nsec` spells is the
/// same: whitespace around either makes no difference.
pub proof fn a_typed_secret_is_read(secret: Seq<u8>, text: Seq<char>)
    requires
        is_secret_key(secret),
    ensures
        typed_secret(hex_text(secret)) == Ok::<Seq<u8>, Seq<char>>(secret),
        trimmed(text) == hex_text(secret) ==> typed_secret(text) == Ok::<Seq<u8>, Seq<char>>(
            secret,
        ),
        typed_secret(trimmed(text)) == typed_secret(text),
{
    let h = hex_text(secret);
    hex_is_hex(secret);
    hex_round_trip(secret);
    assert(is_hex_digit(h[0]) && is_hex_digit(h[h.len() - 1]));
    plain_ends(h);
    reveal_strlit("nsec");
    assert(!begins_with(h, "nsec"@)) by {
        if begins_with(h, "nsec"@) {
            assert(h.take(4)[0] == h[0]);
        }
    }
    trimmed_twice(text);
}

/// Restoring from what was exported, or from the secret in hexadecimal, gives the same
/// identity under the name that was given, kept as that `nsec`. What `export_nsec`
/// writes meets the first two conditions.
pub proof fn an_export_restores(
    id: Identity,
    nsec: Seq<char>,
    input: Seq<char>,
    display_name: Seq<char>,
    r: Result<Identity, String>,
)
    requires
        id.consistent(),
        nsec == bech32_text("nsec"@, id.key()),
        typed_secret(nsec) == Ok::<Seq<u8>, Seq<char>>(id.key()),
        trimmed(input) == trimmed(nsec) || trimmed(input) == hex_text(id.key()),
        typed_restores(input, display_name, r),
    ensures
        r is Ok,
        r->Ok_0.pubkey@ == id.pubkey@,
        r->Ok_0.key() == id.key(),
        r->Ok_0.display_name@ == display_name,
        r->Ok_0.source matches IdentitySource::Nsec(k) && k@ == nsec,
{
    a_typed_secret_is_read(id.key(), input);
    a_typed_secret_is_read(id.key(), nsec);
}

} // verus!
