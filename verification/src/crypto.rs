//! Keys, signatures, digests and ciphers.
//!
//! Every primitive here belongs to another crate. What it computes has a name,
//! and beside the names stand only the few facts that the messages built on
//! them need.

use crate::text::{begins_with, bytes_outcome, key_outcome, to_array, trimmed};
use vstd::prelude::*;
use vstd::slice::*;
use vstd::string::*;

verus! {

/// The integer that bytes spell, most significant first.
pub open spec fn be_int(b: Seq<u8>) -> int
    decreases b.len(),
{
    if b.len() == 0 {
        0
    } else {
        be_int(b.drop_last()) * 256 + b.last()
    }
}

/// The order of the secp256k1 group.
pub open spec fn curve_order() -> int {
    let half = 0x1_0000_0000_0000_0000u128 as int;
    (0xFFFF_FFFF_FFFF_FFFF_FFFF_FFFF_FFFF_FFFEu128 as int) * half * half
        + (0xBAAE_DCE6_AF48_A03B_BFD2_5E8C_D036_4141u128 as int)
}

/// Whether bytes are a secret key: an integer between one and the group's order.
pub open spec fn is_secret_key(b: Seq<u8>) -> bool {
    b.len() == 32 && 0 < be_int(b) < curve_order()
}

/// `secp256k1::SecretKey::from_slice` accepts exactly 32 bytes that spell an
/// integer above zero and below the order of the group.
#[verifier::external_body]
fn accepts_secret(data: &[u8]) -> (r: bool)
    ensures
        r == is_secret_key(data@),
{
    secp256k1::SecretKey::from_slice(data).is_ok()
}

/// `secp256k1::SecretKey::new` over the operating system's randomness: some
/// valid key. Which one is chance.
#[verifier::external_body]
fn fresh_secret() -> (r: Vec<u8>)
    ensures
        is_secret_key(r@),
{
    secp256k1::SecretKey::new(&mut rand::rngs::OsRng).secret_bytes().to_vec()
}

/// A valid secret key.
pub struct SecretKey {
    bytes: Vec<u8>,
}

impl View for SecretKey {
    type V = Seq<u8>;

    closed spec fn view(&self) -> Seq<u8> {
        self.bytes@
    }
}

impl SecretKey {
    #[verifier::type_invariant]
    spec fn valid(self) -> bool {
        is_secret_key(self.bytes@)
    }

    /// The key that 32 bytes spell, unless they are out of range.
    pub fn from_slice(data: &[u8]) -> (r: Result<SecretKey, String>)
        ensures
            r is Ok <==> is_secret_key(data@),
            r is Ok ==> r->Ok_0@ == data@,
            r is Err ==> r->Err_0@ == "malformed or out-of-range secret key"@,
    {
        if accepts_secret(data) {
            Ok(SecretKey { bytes: slice_to_vec(data) })
        } else {
            Err("malformed or out-of-range secret key".to_owned())
        }
    }

    /// A key that nobody has held before.
    pub fn random() -> (r: SecretKey)
        ensures
            is_secret_key(r@),
    {
        SecretKey { bytes: fresh_secret() }
    }

    /// The bytes of the key.
    pub fn bytes(&self) -> (r: &[u8])
        ensures
            r@ == self@,
            is_secret_key(self@),
    {
        proof {
            use_type_invariant(self);
        }
        self.bytes.as_slice()
    }
}

impl Clone for SecretKey {
    fn clone(&self) -> (r: SecretKey)
        ensures
            r@ == self@,
    {
        proof {
            use_type_invariant(self);
        }
        SecretKey { bytes: slice_to_vec(self.bytes.as_slice()) }
    }
}

/// The x coordinate of a secret key's public point.
pub uninterp spec fn public_x(secret: Seq<u8>) -> Seq<u8>;

/// `secp256k1::SecretKey::x_only_public_key`, serialized to 32 bytes: the x of a
/// point of the curve.
#[verifier::external_body]
pub(crate) fn x_only_public_key(secret: &[u8]) -> (r: [u8; 32])
    requires
        is_secret_key(secret@),
    ensures
        r@ == public_x(secret@),
        on_curve(r@),
{
    let key = secp256k1::SecretKey::from_slice(secret).expect("a valid secret key");
    key.x_only_public_key(&secp256k1::Secp256k1::new()).0.serialize()
}

/// The BIP-340 signature a secret key makes over a digest without auxiliary
/// randomness.
pub uninterp spec fn schnorr_signature(secret: Seq<u8>, digest: Seq<u8>) -> Seq<u8>;

/// Whether bytes are a BIP-340 signature over a digest by an x-only public key.
pub uninterp spec fn schnorr_accepts(sig: Seq<u8>, digest: Seq<u8>, pubkey: Seq<u8>) -> bool;

/// `Secp256k1::sign_schnorr_no_aux_rand`: a signature that depends on the key
/// and the digest alone, and that the key's public half verifies.
#[verifier::external_body]
pub(crate) fn schnorr_sign(secret: &[u8], digest: &[u8; 32]) -> (r: [u8; 64])
    requires
        is_secret_key(secret@),
    ensures
        r@ == schnorr_signature(secret@, digest@),
        schnorr_accepts(r@, digest@, public_x(secret@)),
{
    let secp = secp256k1::Secp256k1::new();
    let key = secp256k1::SecretKey::from_slice(secret).expect("a valid secret key");
    let pair = secp256k1::Keypair::from_secret_key(&secp, &key);
    secp.sign_schnorr_no_aux_rand(&secp256k1::Message::from_digest(*digest), &pair).serialize()
}

/// `Secp256k1::verify_schnorr`, with `false` for bytes that
/// `schnorr::Signature::from_slice` or `XOnlyPublicKey::from_slice` refuses.
#[verifier::external_body]
pub(crate) fn schnorr_verify(sig: &[u8], digest: &[u8; 32], pubkey: &[u8]) -> (r: bool)
    ensures
        r == schnorr_accepts(sig@, digest@, pubkey@),
{
    let sig = secp256k1::schnorr::Signature::from_slice(sig);
    let key = secp256k1::XOnlyPublicKey::from_slice(pubkey);
    match (sig, key) {
        (Ok(sig), Ok(key)) => secp256k1::Secp256k1::new()
            .verify_schnorr(&sig, &secp256k1::Message::from_digest(*digest), &key)
            .is_ok(),
        _ => false,
    }
}

/// Whether some point of the curve has this x coordinate.
pub uninterp spec fn on_curve(x: Seq<u8>) -> bool;

/// `secp256k1::PublicKey::from_slice` on the byte 2 and an x coordinate: whether
/// there is such a point. Every key's public half is one.
#[verifier::external_body]
pub(crate) fn is_point(x: &[u8; 32]) -> (r: bool)
    ensures
        r == on_curve(x@),
        forall|secret: Seq<u8>| is_secret_key(secret) && #[trigger] public_x(secret) == x@ ==> r,
{
    secp256k1::PublicKey::from_slice(&[&[2u8], &x[..]].concat()).is_ok()
}

/// The x coordinate of a secret times the point with the given x and an even y.
pub uninterp spec fn ecdh_x(secret: Seq<u8>, their_x: Seq<u8>) -> Seq<u8>;

/// The first half of `secp256k1::ecdh::shared_secret_point`, over the point that
/// `PublicKey::from_slice` reads from the byte 2 and `their_x`. Two keys that
/// have each other's public half meet in one x: the sign of a point does not
/// change its x coordinate.
#[verifier::external_body]
pub(crate) fn shared_x(secret: &[u8], their_x: &[u8; 32]) -> (r: [u8; 32])
    requires
        is_secret_key(secret@),
        on_curve(their_x@),
    ensures
        r@ == ecdh_x(secret@, their_x@),
        forall|other: Seq<u8>|
            is_secret_key(other) && #[trigger] public_x(other) == their_x@ ==> r@ == ecdh_x(
                other,
                public_x(secret@),
            ),
{
    let key = secp256k1::SecretKey::from_slice(secret).expect("a valid secret key");
    let point = secp256k1::PublicKey::from_slice(&[&[2u8], &their_x[..]].concat());
    let xy = secp256k1::ecdh::shared_secret_point(&point.expect("a point"), &key);
    <[u8; 32]>::try_from(&xy[..32]).expect("half of 64 bytes")
}

/// The x coordinate in which a secret and a public name meet, or why they do not.
pub open spec fn meeting_x(secret: Seq<u8>, their_pubkey: Seq<char>) -> Result<
    Seq<u8>,
    Seq<char>,
> {
    match hex_bytes(their_pubkey) {
        None => Err("pubkey not hex: "@ + hex_refusal(their_pubkey)),
        Some(x) => if x.len() != 32 {
            Err("a nostr pubkey is 32 bytes"@)
        } else {
            if on_curve(x) {
                Ok(ecdh_x(secret, x))
            } else {
                Err("not a point on the curve: malformed public key"@)
            }
        },
    }
}

/// Whether a name is the public half of a secret.
pub open spec fn names_secret(pubkey: Seq<char>, secret: Seq<u8>) -> bool {
    is_secret_key(secret) && pubkey.len() == 64 && pubkey == hex_text(public_x(secret))
}

/// The x coordinate shared with the holder of a public key. Both ends find the
/// same one.
pub fn meet(secret: &SecretKey, their_pubkey_hex: &str) -> (r: Result<[u8; 32], String>)
    ensures
        key_outcome(r) == meeting_x(secret@, their_pubkey_hex@),
        forall|other: Seq<u8>| #[trigger]
            names_secret(their_pubkey_hex@, other) ==> {
                &&& r is Ok
                &&& meeting_x(other, hex_text(public_x(secret@))) == Ok::<Seq<u8>, Seq<char>>(
                    r->Ok_0@,
                )
            },
{
    let x: Vec<u8> = match hex_decode(their_pubkey_hex) {
        Ok(x) => x,
        Err(e) => {
            proof {
                assert forall|other: Seq<u8>| #[trigger]
                    names_secret(their_pubkey_hex@, other) implies false by {
                    hex_round_trip(public_x(other));
                }
            }
            return Err("pubkey not hex: ".to_owned().concat(e.as_str()));
        },
    };
    let our_x: [u8; 32] = x_only_public_key(secret.bytes());
    proof {
        assert forall|other: Seq<u8>| #[trigger]
            names_secret(their_pubkey_hex@, other) implies x@ == public_x(other) by {
            hex_round_trip(public_x(other));
        }
        hex_round_trip(our_x@);
    }
    if x.len() != 32 {
        return Err("a nostr pubkey is 32 bytes".to_owned());
    }
    let x: [u8; 32] = to_array(x.as_slice());
    if !is_point(&x) {
        return Err("not a point on the curve: malformed public key".to_owned());
    }
    Ok(shared_x(secret.bytes(), &x))
}

/// The compressed point of a secret key.
pub uninterp spec fn public_point(secret: Seq<u8>) -> Seq<u8>;

/// `secp256k1::PublicKey::from_secret_key`, serialized to 33 bytes.
#[verifier::external_body]
pub(crate) fn compressed_public_key(secret: &[u8]) -> (r: [u8; 33])
    requires
        is_secret_key(secret@),
    ensures
        r@ == public_point(secret@),
{
    let key = secp256k1::SecretKey::from_slice(secret).expect("a valid secret key");
    key.public_key(&secp256k1::Secp256k1::new()).serialize()
}

/// An integer in a given number of bytes, most significant first.
pub open spec fn be_bytes(n: int, len: nat) -> Seq<u8>
    decreases len,
{
    if len == 0 {
        Seq::empty()
    } else {
        be_bytes(n / 256, (len - 1) as nat).push((n % 256) as u8)
    }
}

/// `secp256k1::Scalar::from_be_bytes` accepts what is below the group's order.
#[verifier::external_body]
pub(crate) fn is_scalar(b: &[u8; 32]) -> (r: bool)
    ensures
        r == (be_int(b@) < curve_order()),
{
    secp256k1::Scalar::from_be_bytes(*b).is_ok()
}

/// `secp256k1::SecretKey::add_tweak`: the sum modulo the group's order, unless it
/// is zero.
#[verifier::external_body]
pub(crate) fn tweak_secret(secret: &[u8], tweak: &[u8; 32]) -> (r: Option<Vec<u8>>)
    requires
        is_secret_key(secret@),
        be_int(tweak@) < curve_order(),
    ensures
        r is Some <==> (be_int(secret@) + be_int(tweak@)) % curve_order() != 0,
        r is Some ==> r->Some_0@ == be_bytes(
            (be_int(secret@) + be_int(tweak@)) % curve_order(),
            32,
        ),
        r is Some ==> is_secret_key(r->Some_0@),
{
    let key = secp256k1::SecretKey::from_slice(secret).expect("a valid secret key");
    let tweak = secp256k1::Scalar::from_be_bytes(*tweak).expect("a scalar");
    key.add_tweak(&tweak).ok().map(|sum| sum.secret_bytes().to_vec())
}

/// What SHA-256 makes of a message.
pub uninterp spec fn sha256(message: Seq<u8>) -> Seq<u8>;

/// `sha2::Sha256::digest`: the 32-byte digest of the message, which depends on
/// nothing else.
#[verifier::external_body]
pub(crate) fn sha256_digest(message: &[u8]) -> (r: [u8; 32])
    ensures
        r@ == sha256(message@),
{
    <sha2::Sha256 as sha2::Digest>::digest(message).into()
}

/// HMAC-SHA-256 of a message.
pub uninterp spec fn hmac_sha256(key: Seq<u8>, message: Seq<u8>) -> Seq<u8>;

/// `hmac::Hmac::<Sha256>`: the 32-byte code of the message. A key of any length
/// is accepted.
#[verifier::external_body]
pub(crate) fn hmac_sha256_code(key: &[u8], message: &[u8]) -> (r: [u8; 32])
    ensures
        r@ == hmac_sha256(key@, message@),
{
    let mac = <hmac::Hmac<sha2::Sha256> as hmac::Mac>::new_from_slice(key).expect("any key");
    hmac::Mac::finalize(hmac::Mac::chain_update(mac, message)).into_bytes().into()
}

/// HMAC-SHA-512 of a message.
pub uninterp spec fn hmac_sha512(key: Seq<u8>, message: Seq<u8>) -> Seq<u8>;

/// `hmac::Hmac::<Sha512>`: the 64-byte code of the message.
#[verifier::external_body]
pub(crate) fn hmac_sha512_code(key: &[u8], message: &[u8]) -> (r: [u8; 64])
    ensures
        r@ == hmac_sha512(key@, message@),
{
    let mac = <hmac::Hmac<sha2::Sha512> as hmac::Mac>::new_from_slice(key).expect("any key");
    hmac::Mac::finalize(hmac::Mac::chain_update(mac, message)).into_bytes().into()
}

/// `Mac::verify_slice`: whether a tag is the code of the message, the whole of it.
#[verifier::external_body]
pub(crate) fn hmac_sha256_verify(key: &[u8], message: &[u8], tag: &[u8]) -> (r: bool)
    ensures
        r == (tag@ == hmac_sha256(key@, message@)),
{
    let mac = <hmac::Hmac<sha2::Sha256> as hmac::Mac>::new_from_slice(key).expect("any key");
    hmac::Mac::verify_slice(hmac::Mac::chain_update(mac, message), tag).is_ok()
}

/// HKDF-SHA-256's pseudorandom key of a salt and key material.
pub uninterp spec fn hkdf_extract(salt: Seq<u8>, material: Seq<u8>) -> Seq<u8>;

/// `hkdf::Hkdf::<Sha256>::extract`, of which only the pseudorandom key is kept.
#[verifier::external_body]
pub(crate) fn hkdf_extracted(salt: &[u8], material: &[u8]) -> (r: [u8; 32])
    ensures
        r@ == hkdf_extract(salt@, material@),
{
    hkdf::Hkdf::<sha2::Sha256>::extract(Some(salt), material).0.into()
}

/// HKDF-SHA-256's output of a given length for a pseudorandom key and an info.
pub uninterp spec fn hkdf_expand(prk: Seq<u8>, info: Seq<u8>, len: nat) -> Seq<u8>;

/// `hkdf::Hkdf::<Sha256>::from_prk` and `expand`. A pseudorandom key shorter
/// than a digest is refused there, and so is an output of more than 255 digests.
#[verifier::external_body]
pub(crate) fn hkdf_expanded(prk: &[u8; 32], info: &[u8], len: usize) -> (r: Vec<u8>)
    requires
        len <= 8160,
    ensures
        r@ == hkdf_expand(prk@, info@, len as nat),
        r@.len() == len,
{
    let mut out = vec![0u8; len];
    let hk = hkdf::Hkdf::<sha2::Sha256>::from_prk(prk).expect("32 bytes are enough");
    hk.expand(info, &mut out).expect("within the limit");
    out
}

/// The first bytes of a ChaCha20 key stream, from block zero.
pub uninterp spec fn chacha20_stream(key: Seq<u8>, nonce: Seq<u8>, len: nat) -> Seq<u8>;

/// Bytes combined one by one by exclusive or.
pub open spec fn xor_bytes(a: Seq<u8>, k: Seq<u8>) -> Seq<u8> {
    Seq::new(a.len(), |i: int| a[i] ^ k[i])
}

/// `chacha20::ChaCha20::apply_keystream` on a fresh cipher: each byte is
/// combined with the key stream's byte at its place. The cipher counts 2^32
/// blocks, far above the length admitted here.
#[verifier::external_body]
pub(crate) fn chacha20_apply(key: &[u8; 32], nonce: &[u8; 12], data: Vec<u8>) -> (r: Vec<u8>)
    requires
        data@.len() <= 0xffff_ffff,
    ensures
        r@ == xor_bytes(data@, chacha20_stream(key@, nonce@, data@.len())),
{
    let mut out = data;
    let mut cipher = <chacha20::ChaCha20 as chacha20::cipher::KeyIvInit>::new(
        key.into(),
        nonce.into(),
    );
    chacha20::cipher::StreamCipher::apply_keystream(&mut cipher, &mut out);
    out
}

/// Combining with the same stream twice gives the bytes back.
pub proof fn xor_twice(a: Seq<u8>, k: Seq<u8>)
    ensures
        xor_bytes(xor_bytes(a, k), k) == a,
{
    assert forall|i: int| 0 <= i < a.len() implies xor_bytes(xor_bytes(a, k), k)[i] == a[i] by {
        let x = a[i];
        let y = k[i];
        assert((x ^ y) ^ y == x) by (bit_vector);
    }
    assert(xor_bytes(xor_bytes(a, k), k) =~= a);
}

/// `OsRng::fill_bytes`: that many bytes of chance.
#[verifier::external_body]
pub(crate) fn random_bytes(len: usize) -> (r: Vec<u8>)
    ensures
        r@.len() == len,
{
    let mut out = vec![0u8; len];
    rand::RngCore::fill_bytes(&mut rand::rngs::OsRng, &mut out);
    out
}

/// `Rng::gen_range` over `0..=max`: some number in that range. It panics on an
/// empty one.
#[verifier::external_body]
pub(crate) fn random_up_to(max: i64) -> (r: i64)
    requires
        max >= 0,
    ensures
        0 <= r <= max,
{
    rand::Rng::gen_range(&mut rand::thread_rng(), 0..=max)
}

/// What XChaCha20-Poly1305 makes of a message: the ciphertext and its tag.
pub uninterp spec fn aead_sealed(
    key: Seq<u8>,
    nonce: Seq<u8>,
    message: Seq<u8>,
    aad: Seq<u8>,
) -> Seq<u8>;

/// The message that XChaCha20-Poly1305 finds in a ciphertext, unless key, nonce,
/// ciphertext and associated data do not belong together.
pub uninterp spec fn aead_opened(
    key: Seq<u8>,
    nonce: Seq<u8>,
    sealed: Seq<u8>,
    aad: Seq<u8>,
) -> Option<Seq<u8>>;

/// `XChaCha20Poly1305::encrypt`: sixteen bytes longer than the message, and opened
/// again by the same key, nonce and associated data. It fails only on messages
/// far longer than those admitted here.
#[verifier::external_body]
pub(crate) fn aead_seal(key: &[u8; 32], nonce: &[u8; 24], message: &[u8], aad: &[u8]) -> (r: Vec<
    u8,
>)
    requires
        message@.len() <= 0xffff,
    ensures
        r@ == aead_sealed(key@, nonce@, message@, aad@),
        r@.len() == message@.len() + 16,
        aead_opened(key@, nonce@, r@, aad@) == Some(message@),
{
    let cipher = <chacha20poly1305::XChaCha20Poly1305 as chacha20poly1305::KeyInit>::new(
        key.into(),
    );
    let payload = chacha20poly1305::aead::Payload { msg: message, aad };
    chacha20poly1305::aead::Aead::encrypt(&cipher, nonce.into(), payload).expect("a short message")
}

/// `XChaCha20Poly1305::decrypt`: what it gives is sixteen bytes shorter.
#[verifier::external_body]
pub(crate) fn aead_open(key: &[u8; 32], nonce: &[u8; 24], sealed: &[u8], aad: &[u8]) -> (r: Option<
    Vec<u8>,
>)
    ensures
        r is Some <==> aead_opened(key@, nonce@, sealed@, aad@) is Some,
        r is Some ==> aead_opened(key@, nonce@, sealed@, aad@) == Some(r->Some_0@),
        r is Some ==> r->Some_0@.len() + 16 == sealed@.len(),
{
    let cipher = <chacha20poly1305::XChaCha20Poly1305 as chacha20poly1305::KeyInit>::new(
        key.into(),
    );
    let payload = chacha20poly1305::aead::Payload { msg: sealed, aad };
    chacha20poly1305::aead::Aead::decrypt(&cipher, nonce.into(), payload).ok()
}

/// `zeroize::Zeroize::zeroize` of an array: every byte is overwritten with zero.
#[verifier::external_body]
pub(crate) fn wipe(bytes: &mut [u8; 32])
    ensures
        final(bytes)@ == Seq::new(32, |i: int| 0u8),
    opens_invariants none
    no_unwind
{
    zeroize::Zeroize::zeroize(bytes);
}

/// `zeroize::Zeroize::zeroize` of a vector: every byte is overwritten with zero, and
/// none is left.
#[verifier::external_body]
pub(crate) fn wipe_all(bytes: &mut Vec<u8>)
    ensures
        final(bytes)@ == Seq::<u8>::empty(),
{
    zeroize::Zeroize::zeroize(bytes);
}

/// The 32-byte scrypt key of a passphrase and a salt, for a work factor, a size of
/// blocks and a number of lanes.
pub uninterp spec fn scrypt_key(
    passphrase: Seq<u8>,
    salt: Seq<u8>,
    log_n: u8,
    r: u32,
    p: u32,
) -> Seq<u8>;

/// `scrypt::scrypt` for 32 bytes, which takes `128 * r` bytes of memory times two to the
/// `log_n`. On a 64-bit machine `Params::new` accepts what is admitted here, and the
/// table can be addressed. Where the machine has not got the memory the process
/// ends there; how much there is is the machine's affair.
#[verifier::external_body]
pub(crate) fn scrypt_derived(passphrase: &[u8], salt: &[u8], log_n: u8, r: u32, p: u32) -> (key:
    [u8; 32])
    requires
        log_n < 53 && log_n < 16 * r,
        0 < r <= 8,
        0 < p && r * p < 0x4000_0000,
    ensures
        key@ == scrypt_key(passphrase@, salt@, log_n, r, p),
{
    let params = scrypt::Params::new(log_n, r, p, 32).expect("within the limits");
    let mut out = [0u8; 32];
    scrypt::scrypt(passphrase, salt, &params, &mut out).expect("32 bytes of output");
    out
}

/// Bech32 of bytes under a prefix.
pub uninterp spec fn bech32_text(hrp: Seq<char>, data: Seq<u8>) -> Seq<char>;

/// What the bech32 decoder reads in a text: its prefix and its bytes, or its
/// complaint.
pub uninterp spec fn bech32_reading(text: Seq<char>) -> Result<(Seq<char>, Seq<u8>), Seq<char>>;

/// The length of bech32 of bytes under a prefix.
pub open spec fn bech32_len(hrp: Seq<char>, data: Seq<u8>) -> nat {
    hrp.len() + 1 + (8 * data.len() + 4) as nat / 5 + 6
}

/// The prefixes in use.
pub open spec fn is_hrp(hrp: Seq<char>) -> bool {
    hrp == "npub"@ || hrp == "nsec"@ || hrp == "ncryptsec"@
}

/// `bech32::encode::<Bech32>`: the prefix, a one and symbols without whitespace,
/// from which the decoder reads the prefix and the bytes back. There is a symbol for
/// every five bits and there are six more, and a text of more than 1023 characters is
/// refused.
#[verifier::external_body]
pub(crate) fn bech32_encode(hrp: &str, data: &[u8]) -> (r: String)
    requires
        is_hrp(hrp@),
        bech32_len(hrp@, data@) <= 1023,
    ensures
        r@ == bech32_text(hrp@, data@),
        bech32_reading(r@) is Ok,
        bech32_reading(r@)->Ok_0 == (hrp@, data@),
        trimmed(r@) == r@,
        begins_with(r@, hrp@.push('1')),
{
    let hrp = bech32::Hrp::parse(hrp).expect("a valid prefix");
    bech32::encode::<bech32::Bech32>(hrp, data).expect("within the limit")
}

/// The outcome of reading bech32.
pub open spec fn bech32_outcome(r: Result<(String, Vec<u8>), String>) -> Result<
    (Seq<char>, Seq<u8>),
    Seq<char>,
> {
    match r {
        Ok(read) => Ok((read.0@, read.1@)),
        Err(e) => Err(e@),
    }
}

/// `bech32::decode`, with the prefix and the error as text.
#[verifier::external_body]
pub(crate) fn bech32_decode(text: &str) -> (r: Result<(String, Vec<u8>), String>)
    ensures
        bech32_outcome(r) == bech32_reading(text@),
{
    match bech32::decode(text) {
        Ok((hrp, data)) => Ok((hrp.as_str().to_string(), data)),
        Err(e) => Err(e.to_string()),
    }
}

/// The English recovery phrase of sixteen bytes of entropy.
pub uninterp spec fn entropy_phrase(entropy: Seq<u8>) -> Seq<char>;

/// What is read in a recovery phrase: its words with single blanks between them,
/// and the seed they stand for under an empty passphrase; or the complaint.
pub uninterp spec fn phrase_reading(text: Seq<char>) -> Result<(Seq<char>, Seq<u8>), Seq<char>>;

/// `bip39::Mnemonic::from_entropy_in`, which accepts sixteen bytes, written with
/// single blanks between the words and read back as itself.
#[verifier::external_body]
pub(crate) fn write_phrase(entropy: &[u8]) -> (r: String)
    requires
        entropy@.len() == 16,
    ensures
        r@ == entropy_phrase(entropy@),
        trimmed(r@) == r@,
        phrase_reading(r@) is Ok,
        phrase_reading(r@)->Ok_0.0 == r@,
{
    bip39::Mnemonic::from_entropy_in(bip39::Language::English, entropy).expect("16 bytes").to_string()
}

/// The outcome of reading a phrase.
pub open spec fn phrase_outcome(r: Result<(String, [u8; 64]), String>) -> Result<
    (Seq<char>, Seq<u8>),
    Seq<char>,
> {
    match r {
        Ok(read) => Ok((read.0@, read.1@)),
        Err(e) => Err(e@),
    }
}

/// `bip39::Mnemonic::parse_in_normalized` in English, its `to_string` and its
/// `to_seed` under an empty passphrase. What is written, words with single blanks
/// between them, reads back as the same phrase.
#[verifier::external_body]
pub(crate) fn read_phrase(text: &str) -> (r: Result<(String, [u8; 64]), String>)
    ensures
        phrase_outcome(r) == phrase_reading(text@),
        r is Ok ==> trimmed(r->Ok_0.0@) == r->Ok_0.0@,
        r is Ok ==> phrase_reading(r->Ok_0.0@) == phrase_outcome(r),
{
    match bip39::Mnemonic::parse_in_normalized(bip39::Language::English, text) {
        Ok(phrase) => Ok((phrase.to_string(), phrase.to_seed(""))),
        Err(e) => Err(e.to_string()),
    }
}

/// One hexadecimal digit, in lower case.
pub open spec fn hex_digit(n: int) -> char {
    if n < 10 {
        (48 + n) as char
    } else {
        (87 + n) as char
    }
}

/// Bytes in lower-case hexadecimal.
pub open spec fn hex_text(b: Seq<u8>) -> Seq<char> {
    Seq::new(
        2 * b.len(),
        |i: int|
            if i % 2 == 0 {
                hex_digit(b[i / 2] as int / 16)
            } else {
                hex_digit(b[i / 2] as int % 16)
            },
    )
}

/// Whether a character is a hexadecimal digit of either case.
pub open spec fn is_hex_digit(c: char) -> bool {
    ('0' <= c && c <= '9') || ('a' <= c && c <= 'f') || ('A' <= c && c <= 'F')
}

/// The value of a hexadecimal digit.
pub open spec fn hex_value(c: char) -> int {
    if '0' <= c && c <= '9' {
        c as int - 48
    } else if 'a' <= c && c <= 'f' {
        c as int - 87
    } else {
        c as int - 55
    }
}

/// The bytes that hexadecimal digits of either case spell in pairs.
pub open spec fn hex_bytes(t: Seq<char>) -> Option<Seq<u8>> {
    if t.len() % 2 == 0 && (forall|i: int| 0 <= i < t.len() ==> is_hex_digit(#[trigger] t[i])) {
        Some(
            Seq::new(
                (t.len() / 2) as nat,
                |i: int| (16 * hex_value(t[2 * i]) + hex_value(t[2 * i + 1])) as u8,
            ),
        )
    } else {
        None
    }
}

/// What the hex decoder says of a text it refuses.
pub uninterp spec fn hex_refusal(t: Seq<char>) -> Seq<char>;

/// `hex::encode`: two lower-case digits for each byte.
#[verifier::external_body]
pub(crate) fn hex_encode(b: &[u8]) -> (r: String)
    ensures
        r@ == hex_text(b@),
{
    hex::encode(b)
}

/// `hex::decode`: an even number of hexadecimal digits is read in pairs, and
/// anything else is refused in words that depend on the text alone.
#[verifier::external_body]
pub(crate) fn hex_decode(t: &str) -> (r: Result<Vec<u8>, String>)
    ensures
        r is Ok <==> hex_bytes(t@) is Some,
        r is Ok ==> hex_bytes(t@) == Some(r->Ok_0@),
        r is Err ==> r->Err_0@ == hex_refusal(t@),
{
    hex::decode(t).map_err(|e| e.to_string())
}

/// Reading hexadecimal gives back the bytes that were written.
pub proof fn hex_round_trip(b: Seq<u8>)
    ensures
        hex_bytes(hex_text(b)) == Some(b),
{
    let t = hex_text(b);
    assert forall|i: int| 0 <= i < t.len() implies is_hex_digit(#[trigger] t[i]) by {}
    assert forall|i: int| 0 <= i < b.len() implies (16 * hex_value(t[2 * i]) + hex_value(
        t[2 * i + 1],
    )) as u8 == b[i] by {
        assert((2 * i) / 2 == i && (2 * i + 1) / 2 == i && (2 * i) % 2 == 0 && (2 * i + 1) % 2 == 1);
    }
    assert(hex_bytes(t)->Some_0 =~= b);
}

/// The characters of bytes in hexadecimal are hexadecimal digits.
pub proof fn hex_is_hex(b: Seq<u8>)
    ensures
        hex_text(b).len() == 2 * b.len(),
        forall|i: int| 0 <= i < hex_text(b).len() ==> is_hex_digit(#[trigger] hex_text(b)[i]),
{
    hex_round_trip(b);
}

/// Standard base64 of bytes, padded.
pub uninterp spec fn base64_text(b: Seq<u8>) -> Seq<char>;

/// What the standard base64 decoder makes of a text: bytes, or its complaint.
pub uninterp spec fn base64_bytes(t: Seq<char>) -> Result<Seq<u8>, Seq<char>>;

/// Whether a character belongs to standard base64.
pub open spec fn is_base64_char(c: char) -> bool {
    ('0' <= c && c <= '9') || ('a' <= c && c <= 'z') || ('A' <= c && c <= 'Z') || c == '+' || c
        == '/' || c == '='
}

/// `base64`'s `STANDARD.encode`: a text in the standard alphabet, four characters for
/// every three bytes or part of them, from which the same engine reads the bytes back.
#[verifier::external_body]
pub(crate) fn base64_encode(b: &[u8]) -> (r: String)
    ensures
        r@ == base64_text(b@),
        r@.len() == 4 * ((b@.len() + 2) / 3),
        forall|i: int| 0 <= i < r@.len() ==> is_base64_char(#[trigger] r@[i]),
        base64_bytes(r@) is Ok,
        base64_bytes(r@)->Ok_0 == b@,
{
    base64::Engine::encode(&base64::engine::general_purpose::STANDARD, b)
}

/// `base64`'s `STANDARD.decode`, with its error as text.
#[verifier::external_body]
pub(crate) fn base64_decode(t: &str) -> (r: Result<Vec<u8>, String>)
    ensures
        bytes_outcome(r) == base64_bytes(t@),
{
    base64::Engine::decode(&base64::engine::general_purpose::STANDARD, t).map_err(|e| e.to_string())
}

} // verus!
