//! NIP-44, version 2: how the content of a message is encrypted.

use crate::crypto::{
    SecretKey, base64_bytes, base64_decode, base64_encode, base64_text, chacha20_apply,
    chacha20_stream, hex_text, hkdf_expand, hkdf_expanded, hkdf_extract, hkdf_extracted,
    hmac_sha256, hmac_sha256_code, hmac_sha256_verify, is_base64_char, meet, meeting_x,
    names_secret, public_x, random_bytes, xor_bytes, xor_twice,
};
use crate::text::{
    append_bytes, decimal, decimal_text, from_utf8, key_outcome, text_outcome, to_array,
};
use vstd::prelude::*;
use vstd::slice::*;
use vstd::string::*;
use vstd::utf8::*;

verus! {

/// The version byte of a payload.
pub const VERSION: u8 = 2;

pub const MIN_PLAINTEXT: usize = 1;

pub const MAX_PLAINTEXT: usize = 65535;

/// Version, nonce, the smallest padded plaintext and the code.
pub const MIN_PAYLOAD: usize = 1 + 32 + (2 + 32) + 32;

pub const MAX_PAYLOAD: usize = 1 + 32 + (2 + 65536) + 32;

/// The key two parties share, or why there is none.
pub open spec fn shared_key(secret: Seq<u8>, their_pubkey: Seq<char>) -> Result<
    Seq<u8>,
    Seq<char>,
> {
    match meeting_x(secret, their_pubkey) {
        Ok(x) => Ok(hkdf_extract(encode_utf8("nip44-v2"@), x)),
        Err(e) => Err(e),
    }
}

/// The key shared with the holder of a public key. Both ends find the same one:
/// whoever holds the secret of `their_pubkey_hex` gets it from our public key.
pub fn conversation_key(secret: &SecretKey, their_pubkey_hex: &str) -> (r: Result<
    [u8; 32],
    String,
>)
    ensures
        key_outcome(r) == shared_key(secret@, their_pubkey_hex@),
        forall|other: Seq<u8>| #[trigger]
            names_secret(their_pubkey_hex@, other) ==> {
                &&& r is Ok
                &&& shared_key(other, hex_text(public_x(secret@))) == Ok::<Seq<u8>, Seq<char>>(
                    r->Ok_0@,
                )
            },
{
    match meet(secret, their_pubkey_hex) {
        Ok(x) => Ok(hkdf_extracted("nip44-v2".as_bytes(), x.as_slice())),
        Err(e) => Err(e),
    }
}

/// The three keys of one message, cut from 76 bytes of derived material.
pub open spec fn keys_of(conversation_key: Seq<u8>, nonce: Seq<u8>) -> (
    Seq<u8>,
    Seq<u8>,
    Seq<u8>,
) {
    let okm = hkdf_expand(conversation_key, nonce, 76);
    (okm.subrange(0, 32), okm.subrange(32, 44), okm.subrange(44, 76))
}

/// The cipher's key and nonce and the code's key, for one message.
pub fn message_keys(conversation_key: &[u8; 32], nonce: &[u8; 32]) -> (r: (
    [u8; 32],
    [u8; 12],
    [u8; 32],
))
    ensures
        (r.0@, r.1@, r.2@) == keys_of(conversation_key@, nonce@),
{
    let okm: Vec<u8> = hkdf_expanded(conversation_key, nonce.as_slice(), 76);
    let okm: &[u8] = okm.as_slice();
    (
        to_array(slice_subrange(okm, 0, 32)),
        to_array(slice_subrange(okm, 32, 44)),
        to_array(slice_subrange(okm, 44, 76)),
    )
}

/// The first of `p`, `2 * p`, `4 * p`, ... that is at least `n`.
pub open spec fn power_at_least(n: nat, p: nat) -> nat
    decreases (if p < n { n - p } else { 0 }),
{
    if p >= n || p == 0 {
        p
    } else {
        power_at_least(n, 2 * p)
    }
}

/// The length a plaintext is padded to: 32 bytes at least, and above that a
/// multiple of a chunk that grows with the next power of two.
pub open spec fn padded_len(n: nat) -> nat {
    if n <= 32 {
        32
    } else {
        let next_power = power_at_least(n, 64);
        let chunk = if next_power <= 256 {
            32
        } else {
            next_power / 8
        };
        chunk * ((n - 1) as nat / chunk + 1)
    }
}

proof fn power_facts(n: nat, p: nat)
    requires
        p >= 64,
        p % 64 == 0,
    ensures
        power_at_least(n, p) >= p,
        power_at_least(n, p) >= n,
        power_at_least(n, p) % 64 == 0,
    decreases (if p < n { n - p } else { 0 }),
{
    if p < n {
        power_facts(n, 2 * p);
    }
}

proof fn chunk_facts(n: nat, chunk: nat, whole: nat, q: nat)
    requires
        chunk > 0,
        1 <= n <= whole,
        whole == chunk * q,
    ensures
        n <= chunk * ((n - 1) as nat / chunk + 1) <= whole,
        (n - 1) as nat / chunk + 1 <= q,
{
    let d = (n - 1) as nat / chunk;
    assert(chunk * d <= n - 1 < chunk * (d + 1)) by (nonlinear_arith)
        requires
            d == (n - 1) as nat / chunk,
            chunk > 0,
            n >= 1,
    ;
    assert(d + 1 <= q) by (nonlinear_arith)
        requires
            chunk * d < chunk * q,
            chunk > 0,
    ;
    assert(chunk * (d + 1) <= chunk * q) by (nonlinear_arith)
        requires
            d + 1 <= q,
    ;
}

/// Padding never shortens, and never lengthens a message past the next power of
/// two (or past 32 bytes).
pub proof fn padded_len_bounds(n: nat)
    ensures
        n <= padded_len(n),
        padded_len(n) >= 32,
        n > 32 ==> padded_len(n) <= power_at_least(n, 64),
{
    if n > 32 {
        power_facts(n, 64);
        let np = power_at_least(n, 64);
        if np <= 256 {
            let q = np / 32;
            assert(np == 32 * q);
            chunk_facts(n, 32, np, q);
        } else {
            let chunk = np / 8;
            assert(np == chunk * 8);
            chunk_facts(n, chunk, np, 8);
        }
    }
}

proof fn padded_len_cap(n: nat)
    requires
        n <= 65536,
    ensures
        32 <= padded_len(n) <= 65536,
{
    padded_len_bounds(n);
    reveal_with_fuel(power_at_least, 13);
}

/// The longest texts, by what they are padded to.
pub proof fn padded_len_steps(n: nat)
    requires
        n <= 65535,
    ensures
        n <= 40960 ==> padded_len(n) <= 40960,
        n > 40960 ==> padded_len(n) >= 49152,
{
    padded_len_bounds(n);
    if n > 32768 {
        assert(power_at_least(n, 64) == 65536) by {
            reveal_with_fuel(power_at_least, 13);
        }
        let d = (n - 1) as nat / 8192;
        assert(padded_len(n) == 8192 * (d + 1));
        if n <= 40960 {
            assert(d <= 4);
        } else {
            assert(d >= 5);
        }
    } else if n > 32 {
        assert(power_at_least(n, 64) <= 32768) by {
            reveal_with_fuel(power_at_least, 13);
        }
    }
}

/// The first of 64, 128, 256, ... that is at least `n`.
fn next_power_of(n: usize) -> (r: usize)
    requires
        n <= usize::MAX / 2 + 1,
    ensures
        r == power_at_least(n as nat, 64),
{
    let mut p: usize = 64;
    while p < n
        invariant
            n <= usize::MAX / 2 + 1,
            64 <= p,
            power_at_least(n as nat, 64) == power_at_least(n as nat, p as nat),
        decreases (if p < n { n - p } else { 0 }),
    {
        p = p * 2;
    }
    p
}

/// The least multiple of `chunk` that is at least `n`.
fn whole_chunks(n: usize, chunk: usize, whole: Ghost<nat>, q: Ghost<nat>) -> (r: usize)
    requires
        chunk > 0,
        1 <= n <= whole@ <= usize::MAX,
        whole@ == chunk as nat * q@,
    ensures
        r == chunk as nat * ((n - 1) as nat / chunk as nat + 1),
{
    let d: usize = (n - 1) / chunk;
    proof {
        chunk_facts(n as nat, chunk as nat, whole@, q@);
        assert(d as nat == (n - 1) as nat / chunk as nat);
    }
    chunk * (d + 1)
}

/// The length a plaintext of some length is padded to.
pub fn calc_padded_len(unpadded_len: usize) -> (r: usize)
    requires
        unpadded_len <= usize::MAX / 2 + 1,
    ensures
        r == padded_len(unpadded_len as nat),
{
    if unpadded_len <= 32 {
        return 32;
    }
    let next_power: usize = next_power_of(unpadded_len);
    proof {
        power_facts(unpadded_len as nat, 64);
    }
    if next_power <= 256 {
        whole_chunks(unpadded_len, 32, Ghost(next_power as nat), Ghost(next_power as nat / 32))
    } else {
        whole_chunks(unpadded_len, next_power / 8, Ghost(next_power as nat), Ghost(8))
    }
}

/// Whether a plaintext of `n` bytes can be sent.
pub open spec fn fits(n: nat) -> bool {
    MIN_PLAINTEXT <= n <= MAX_PLAINTEXT
}

/// A plaintext behind its length in two bytes, filled with zeros.
pub open spec fn padded(p: Seq<u8>) -> Seq<u8> {
    seq![(p.len() / 256) as u8, (p.len() % 256) as u8] + p + Seq::new(
        (padded_len(p.len()) - p.len()) as nat,
        |i: int| 0u8,
    )
}

/// What is said of a plaintext of a length that cannot be sent.
pub open spec fn length_refusal(n: nat) -> Seq<char> {
    "a NIP-44 message is 1..=65535 bytes; this one is "@ + decimal(n)
}

/// Pads a plaintext, unless it is empty or too long.
pub fn pad(plaintext: &[u8]) -> (r: Result<Vec<u8>, String>)
    ensures
        r is Ok <==> fits(plaintext@.len()),
        r is Ok ==> r->Ok_0@ == padded(plaintext@) && r->Ok_0@.len() == 2 + padded_len(
            plaintext@.len(),
        ),
        r is Err ==> r->Err_0@ == length_refusal(plaintext@.len()),
{
    let len: usize = plaintext.len();
    if len < MIN_PLAINTEXT || len > MAX_PLAINTEXT {
        return Err(
            "a NIP-44 message is 1..=65535 bytes; this one is ".to_owned().concat(
                decimal_text(len as u64).as_str(),
            ),
        );
    }
    proof {
        padded_len_bounds(len as nat);
        padded_len_cap(len as nat);
    }
    let total: usize = 2 + calc_padded_len(len);
    let mut out: Vec<u8> = Vec::new();
    out.push((len / 256) as u8);
    out.push((len % 256) as u8);
    append_bytes(&mut out, plaintext);
    while out.len() < total
        invariant
            2 + len <= out@.len() <= total,
            len == plaintext@.len(),
            out@ =~= seq![(len / 256) as u8, (len % 256) as u8] + plaintext@ + Seq::new(
                (out@.len() - 2 - len) as nat,
                |i: int| 0u8,
            ),
        decreases total - out@.len(),
    {
        out.push(0);
    }
    assert(out@ =~= padded(plaintext@));
    Ok(out)
}

/// The text inside a padded plaintext, or why it holds none.
pub open spec fn unpadded(p: Seq<u8>) -> Result<Seq<char>, Seq<char>> {
    let len = p[0] as int * 256 + p[1] as int;
    if p.len() < 2 {
        Err("padded plaintext is too short to carry a length"@)
    } else if p.len() < 2 + len {
        Err("length prefix overruns the payload"@)
    } else if len < MIN_PLAINTEXT || p.len() != 2 + padded_len(len as nat) {
        Err("padding does not match the declared length"@)
    } else if !valid_utf8(p.subrange(2, 2 + len)) {
        Err("plaintext is not valid UTF-8"@)
    } else {
        Ok(decode_utf8(p.subrange(2, 2 + len)))
    }
}

/// Takes the padding off, and checks it.
pub fn unpad(padded: &[u8]) -> (r: Result<String, String>)
    ensures
        text_outcome(r) == unpadded(padded@),
{
    if padded.len() < 2 {
        return Err("padded plaintext is too short to carry a length".to_owned());
    }
    let len: usize = padded[0] as usize * 256 + padded[1] as usize;
    if padded.len() - 2 < len {
        return Err("length prefix overruns the payload".to_owned());
    }
    if len < MIN_PLAINTEXT || padded.len() - 2 != calc_padded_len(len) {
        return Err("padding does not match the declared length".to_owned());
    }
    match from_utf8(slice_to_vec(slice_subrange(padded, 2, 2 + len))) {
        Some(text) => Ok(text),
        None => Err("plaintext is not valid UTF-8".to_owned()),
    }
}

/// Padding and unpadding gives a text of a sendable length back.
pub proof fn pad_round_trip(text: Seq<char>)
    requires
        fits(encode_utf8(text).len()),
    ensures
        unpadded(padded(encode_utf8(text))) == Ok::<Seq<char>, Seq<char>>(text),
{
    let b = encode_utf8(text);
    let p = padded(b);
    padded_len_bounds(b.len());
    assert(p[0] as int * 256 + p[1] as int == b.len());
    assert(p.subrange(2, 2 + b.len() as int) =~= b);
    encode_utf8_valid_utf8(text);
    encode_utf8_decode_utf8(text);
}

/// The bytes of a payload: version, nonce, ciphertext, code.
pub open spec fn payload_bytes(conversation_key: Seq<u8>, nonce: Seq<u8>, plain: Seq<u8>) -> Seq<
    u8,
> {
    let keys = keys_of(conversation_key, nonce);
    let p = padded(plain);
    let sealed = xor_bytes(p, chacha20_stream(keys.0, keys.1, p.len()));
    seq![VERSION] + nonce + sealed + hmac_sha256(keys.2, nonce + sealed)
}

/// The payload that carries a text under a key and a nonce.
pub open spec fn encrypted(conversation_key: Seq<u8>, nonce: Seq<u8>, text: Seq<char>) -> Seq<
    char,
> {
    base64_text(payload_bytes(conversation_key, nonce, encode_utf8(text)))
}

/// What the holder of a key reads in a payload, or why nothing.
pub open spec fn decrypted(conversation_key: Seq<u8>, payload: Seq<char>) -> Result<
    Seq<char>,
    Seq<char>,
> {
    if payload.len() > 0 && payload[0] == '#' {
        Err("this message uses an encryption version this build cannot read"@)
    } else {
        match base64_bytes(payload) {
            Err(e) => Err("payload is not base64: "@ + e),
            Ok(raw) => decrypted_bytes(conversation_key, raw),
        }
    }
}

/// What the holder of a key reads in a payload's bytes, or why nothing.
pub open spec fn decrypted_bytes(conversation_key: Seq<u8>, raw: Seq<u8>) -> Result<
    Seq<char>,
    Seq<char>,
> {
    if raw.len() < MIN_PAYLOAD || raw.len() > MAX_PAYLOAD {
        Err("payload length "@ + decimal(raw.len()) + " is out of range"@)
    } else if raw[0] != VERSION {
        Err(
            "payload is encryption version "@ + decimal(raw[0] as nat)
                + "; this build understands 2"@,
        )
    } else {
        let n = raw.len() as int;
        let nonce = raw.subrange(1, 33);
        let sealed = raw.subrange(33, n - 32);
        let keys = keys_of(conversation_key, nonce);
        if raw.subrange(n - 32, n) != hmac_sha256(keys.2, nonce + sealed) {
            Err("could not decrypt — wrong key, or the message was altered"@)
        } else {
            unpadded(xor_bytes(sealed, chacha20_stream(keys.0, keys.1, sealed.len())))
        }
    }
}

/// The code that a key gives a payload's bytes.
pub open spec fn code_under(conversation_key: Seq<u8>, raw: Seq<u8>) -> Seq<u8> {
    hmac_sha256(
        keys_of(conversation_key, raw.subrange(1, 33)).2,
        raw.subrange(1, 33) + raw.subrange(33, raw.len() - 32),
    )
}

/// What opens carries the code that the reader's key gives it. So a second key opens
/// the same payload only where both keys give it one code, and of two payloads that
/// are alike up to their codes only one opens.
pub proof fn a_payload_opens_by_its_code(key: Seq<u8>, other: Seq<u8>, raw: Seq<u8>, like: Seq<u8>)
    requires
        decrypted_bytes(key, raw) is Ok,
    ensures
        raw.subrange(raw.len() - 32, raw.len() as int) == code_under(key, raw),
        decrypted_bytes(other, raw) is Ok ==> code_under(other, raw) == code_under(key, raw),
        like != raw && like.len() == raw.len() && like.take(raw.len() - 32) == raw.take(
            raw.len() - 32,
        ) ==> decrypted_bytes(key, like) is Err,
{
    let n = raw.len() as int;
    if like.len() == n && like.take(n - 32) == raw.take(n - 32) && decrypted_bytes(
        key,
        like,
    ) is Ok {
        assert(like.subrange(1, 33) =~= like.take(n - 32).subrange(1, 33));
        assert(raw.subrange(1, 33) =~= raw.take(n - 32).subrange(1, 33));
        assert(like.subrange(33, n - 32) =~= like.take(n - 32).subrange(33, n - 32));
        assert(raw.subrange(33, n - 32) =~= raw.take(n - 32).subrange(33, n - 32));
        assert(like =~= like.take(n - 32) + like.subrange(n - 32, n));
        assert(raw =~= raw.take(n - 32) + raw.subrange(n - 32, n));
    }
}

/// The length of the payload of a text of `n` bytes, in characters.
pub open spec fn payload_len(n: nat) -> nat {
    4 * ((1 + 32 + 2 + padded_len(n) + 32 + 2) / 3)
}

/// Whether a text has the shape of the payload of a text of `n` bytes.
pub open spec fn payload_shaped(t: Seq<char>, n: nat) -> bool {
    t.len() == payload_len(n) && forall|i: int|
        0 <= i < t.len() ==> is_base64_char(#[trigger] t[i])
}

/// Encrypts a text under a given nonce. Whoever holds the key reads it back.
pub fn encrypt_with_nonce(conversation_key: &[u8; 32], nonce: &[u8; 32], plaintext: &str) -> (r:
    Result<String, String>)
    ensures
        r is Ok <==> fits(encode_utf8(plaintext@).len()),
        r is Ok ==> r->Ok_0@ == encrypted(conversation_key@, nonce@, plaintext@),
        r is Ok ==> decrypted(conversation_key@, r->Ok_0@) == Ok::<Seq<char>, Seq<char>>(
            plaintext@,
        ),
        r is Ok ==> payload_shaped(r->Ok_0@, encode_utf8(plaintext@).len()),
        r is Err ==> r->Err_0@ == length_refusal(encode_utf8(plaintext@).len()),
{
    let (chacha_key, chacha_nonce, hmac_key) = message_keys(conversation_key, nonce);
    let plain: &[u8] = plaintext.as_bytes();
    let buf: Vec<u8> = match pad(plain) {
        Ok(buf) => buf,
        Err(e) => {
            return Err(e);
        },
    };
    proof {
        padded_len_cap(plain@.len());
    }
    let buf: Vec<u8> = chacha20_apply(&chacha_key, &chacha_nonce, buf);
    let mut authenticated: Vec<u8> = slice_to_vec(nonce.as_slice());
    append_bytes(&mut authenticated, buf.as_slice());
    let code: [u8; 32] = hmac_sha256_code(hmac_key.as_slice(), authenticated.as_slice());
    let mut payload: Vec<u8> = Vec::new();
    payload.push(VERSION);
    append_bytes(&mut payload, nonce.as_slice());
    append_bytes(&mut payload, buf.as_slice());
    append_bytes(&mut payload, code.as_slice());
    let text: String = base64_encode(payload.as_slice());
    proof {
        let raw = payload@;
        let n = raw.len() as int;
        let ck = conversation_key@;
        assert(raw =~= payload_bytes(ck, nonce@, plain@));
        assert(raw.subrange(1, 33) =~= nonce@);
        assert(raw.subrange(33, n - 32) =~= buf@);
        assert(raw.subrange(n - 32, n) =~= code@);
        xor_twice(padded(plain@), chacha20_stream(chacha_key@, chacha_nonce@, buf@.len()));
        pad_round_trip(plaintext@);
        assert(decrypted_bytes(ck, raw) == Ok::<Seq<char>, Seq<char>>(plaintext@));
    }
    Ok(text)
}

/// Encrypts a text under a nonce of chance. Whoever holds the key reads it back.
pub fn encrypt(conversation_key: &[u8; 32], plaintext: &str) -> (r: Result<String, String>)
    ensures
        r is Ok <==> fits(encode_utf8(plaintext@).len()),
        r is Ok ==> exists|nonce: Seq<u8>|
            nonce.len() == 32 && r->Ok_0@ == #[trigger] encrypted(
                conversation_key@,
                nonce,
                plaintext@,
            ),
        r is Ok ==> decrypted(conversation_key@, r->Ok_0@) == Ok::<Seq<char>, Seq<char>>(
            plaintext@,
        ),
        r is Ok ==> payload_shaped(r->Ok_0@, encode_utf8(plaintext@).len()),
        r is Err ==> r->Err_0@ == length_refusal(encode_utf8(plaintext@).len()),
{
    let nonce: [u8; 32] = to_array(random_bytes(32).as_slice());
    encrypt_with_nonce(conversation_key, &nonce, plaintext)
}

/// Reads a payload.
pub fn decrypt(conversation_key: &[u8; 32], payload: &str) -> (r: Result<String, String>)
    ensures
        text_outcome(r) == decrypted(conversation_key@, payload@),
{
    if payload.unicode_len() > 0 && payload.get_char(0) == '#' {
        return Err(
            "this message uses an encryption version this build cannot read".to_owned(),
        );
    }
    let raw: Vec<u8> = match base64_decode(payload) {
        Ok(raw) => raw,
        Err(e) => {
            return Err("payload is not base64: ".to_owned().concat(e.as_str()));
        },
    };
    if raw.len() < MIN_PAYLOAD || raw.len() > MAX_PAYLOAD {
        return Err(
            "payload length ".to_owned().concat(decimal_text(raw.len() as u64).as_str()).concat(
                " is out of range",
            ),
        );
    }
    if raw[0] != VERSION {
        return Err(
            "payload is encryption version ".to_owned().concat(
                decimal_text(raw[0] as u64).as_str(),
            ).concat("; this build understands 2"),
        );
    }
    let n: usize = raw.len();
    let nonce: [u8; 32] = to_array(slice_subrange(raw.as_slice(), 1, 33));
    let sealed: &[u8] = slice_subrange(raw.as_slice(), 33, n - 32);
    let code: &[u8] = slice_subrange(raw.as_slice(), n - 32, n);
    let (chacha_key, chacha_nonce, hmac_key) = message_keys(conversation_key, &nonce);
    let mut authenticated: Vec<u8> = slice_to_vec(nonce.as_slice());
    append_bytes(&mut authenticated, sealed);
    if !hmac_sha256_verify(hmac_key.as_slice(), authenticated.as_slice(), code) {
        return Err("could not decrypt — wrong key, or the message was altered".to_owned());
    }
    let plain: Vec<u8> = chacha20_apply(&chacha_key, &chacha_nonce, slice_to_vec(sealed));
    unpad(plain.as_slice())
}

} // verus!
