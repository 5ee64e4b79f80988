//! Reaching a gateway: where to dial, what to prove, and which pictures to ask it
//! for.

use crate::crypto::{sha256, sha256_digest};
use crate::gateway::{emoji_addresses, emoji_seq};
use crate::profile::LocalProfile;
use crate::protocol::{ClientMessage, Guild, Id, Message, Profile};
use crate::state::{AppState, Transport, address_in, media_address};
use crate::table::TextTable;
use crate::text::{
    append_bytes, begins_with, chars_of, contains_text, decimal, decimal_text, opt_text, same, skip,
    slice_text, starts_with, text_outcome, texts, trim, trimmed,
};
use vstd::prelude::*;
use vstd::std_specs::bits::*;
use vstd::string::*;
use vstd::utf8::*;

verus! {

/// How many zero bits bytes begin with.
pub open spec fn zero_bits(d: Seq<u8>) -> nat
    decreases d.len(),
{
    if d.len() == 0 {
        0
    } else if d[0] == 0 {
        8 + zero_bits(d.drop_first())
    } else {
        u8_leading_zeros(d[0]) as nat
    }
}

/// Whether a number answers a challenge: the digest of the challenge and the
/// number's digits begins with enough zero bits.
pub open spec fn solves(challenge: Seq<char>, n: nat, bits: u32) -> bool {
    zero_bits(sha256(encode_utf8(challenge) + encode_utf8(decimal(n)))) >= bits
}

/// Whether a bit of some bytes is set, counted from the first byte's highest.
pub open spec fn bit_set(d: Seq<u8>, i: int) -> bool {
    (d[i / 8] >> ((7 - i % 8) as u8)) & 1u8 == 1u8
}

proof fn top_bits(b: u8)
    requires
        b != 0,
    ensures
        0 <= u8_leading_zeros(b) < 8,
        (b >> ((7 - u8_leading_zeros(b)) as u8)) & 1u8 == 1u8,
        forall|j: int|
            0 <= j < u8_leading_zeros(b) ==> #[trigger] (b >> ((7 - j) as u8)) & 1u8 == 0u8,
{
    axiom_u8_leading_zeros(b);
    let z = u8_leading_zeros(b) as u8;
    let x: u8 = b >> ((7 - z) as u8);
    assert(x & 1u8 != 0u8 ==> x & 1u8 == 1u8) by (bit_vector);
    assert forall|j: int| 0 <= j < z implies #[trigger] (b >> ((7 - j) as u8)) & 1u8 == 0u8 by {
        let k: u8 = (7 - j) as u8;
        assert(8 - u8_leading_zeros(b) <= k < 8);
        assert((b >> k) & 1u8 == 0u8);
    }
}

/// Bytes begin with so many zero bits exactly where each of their first bits, that many
/// of them, is zero.
pub proof fn zero_bits_are_zero(d: Seq<u8>, bits: nat)
    ensures
        zero_bits(d) >= bits <==> bits <= 8 * d.len() && forall|i: int|
            0 <= i < bits ==> !#[trigger] bit_set(d, i),
    decreases d.len(),
{
    if d.len() == 0 {
    } else if d[0] == 0 {
        let rest = d.drop_first();
        let zero = d[0];
        assert forall|i: int| 0 <= i < 8 implies !#[trigger] bit_set(d, i) by {
            let k: u8 = (7 - i % 8) as u8;
            assert((0u8 >> k) & 1u8 == 0u8) by (bit_vector);
        }
        if bits >= 8 {
            zero_bits_are_zero(rest, (bits - 8) as nat);
            if zero_bits(rest) >= bits - 8 {
                assert forall|i: int| 0 <= i < bits implies !#[trigger] bit_set(d, i) by {
                    if i >= 8 {
                        assert(!bit_set(rest, i - 8));
                        assert(d[i / 8] == rest[(i - 8) / 8]);
                    }
                }
            }
            if bits <= 8 * d.len() && forall|i: int| 0 <= i < bits ==> !#[trigger] bit_set(d, i) {
                assert forall|i: int| 0 <= i < bits - 8 implies !#[trigger] bit_set(rest, i) by {
                    assert(!bit_set(d, i + 8));
                    assert(d[(i + 8) / 8] == rest[i / 8]);
                }
            }
        }
    } else {
        let b = d[0];
        top_bits(b);
        let z = u8_leading_zeros(b) as int;
        assert(bit_set(d, z)) by {
            assert(z / 8 == 0 && z % 8 == z);
        }
        if bits <= z {
            assert forall|i: int| 0 <= i < bits implies !#[trigger] bit_set(d, i) by {
                assert(i / 8 == 0 && i % 8 == i);
                assert((b >> ((7 - i) as u8)) & 1u8 == 0u8);
            }
        }
    }
}

/// A number answers a challenge of some difficulty exactly where every one of that many
/// bits is zero at the start of the digest of the challenge and the number's digits.
pub proof fn work_is_bit_by_bit(challenge: Seq<char>, n: nat, bits: u32)
    ensures
        solves(challenge, n, bits) <==> bits <= 8 * sha256(
            encode_utf8(challenge) + encode_utf8(decimal(n)),
        ).len() && forall|i: int|
            0 <= i < bits ==> !#[trigger] bit_set(
                sha256(encode_utf8(challenge) + encode_utf8(decimal(n))),
                i,
            ),
{
    zero_bits_are_zero(sha256(encode_utf8(challenge) + encode_utf8(decimal(n))), bits as nat);
}

/// Work for a difficulty is work for every lesser one, and nothing is asked at none.
pub proof fn harder_work_is_work(challenge: Seq<char>, n: nat, bits: u32, fewer: u32)
    requires
        fewer <= bits,
    ensures
        solves(challenge, n, bits) ==> solves(challenge, n, fewer),
        solves(challenge, n, 0),
{
    work_is_bit_by_bit(challenge, n, bits);
    work_is_bit_by_bit(challenge, n, fewer);
    work_is_bit_by_bit(challenge, n, 0);
}

fn count_zero_bits(d: &[u8; 32]) -> (r: u32)
    ensures
        r == zero_bits(d@),
{
    let mut seen: u32 = 0;
    let mut i: usize = 0;
    assert(d@.skip(0) =~= d@);
    while i < 32
        invariant
            i <= 32,
            seen == 8 * i,
            zero_bits(d@) == seen + zero_bits(d@.skip(i as int)),
        decreases 32 - i,
    {
        assert(d@.skip(i as int).drop_first() =~= d@.skip(i + 1));
        assert(d@.skip(i as int)[0] == d@[i as int]);
        if d[i] != 0 {
            let rest: u32 = d[i].leading_zeros();
            proof {
                axiom_u8_leading_zeros(d@[i as int]);
            }
            return seen + rest;
        }
        seen = seen + 8;
        i = i + 1;
    }
    seen
}

/// The digits of the least number that answers a challenge, of all that fit in 64
/// bits.
pub fn solve_pow(challenge: &str, bits: u32) -> (r: Option<String>)
    ensures
        match r {
            Some(nonce) => exists|n: nat|
                {
                    &&& nonce@ == decimal(n)
                    &&& #[trigger] solves(challenge@, n, bits)
                    &&& forall|m: nat| m < n ==> !#[trigger] solves(challenge@, m, bits)
                },
            None => forall|m: nat| m <= u64::MAX ==> !#[trigger] solves(challenge@, m, bits),
        },
        r matches Some(nonce) ==> bits <= 256 && forall|i: int|
            0 <= i < bits ==> !#[trigger] bit_set(
                sha256(encode_utf8(challenge@) + encode_utf8(nonce@)),
                i,
            ),
        r matches Some(nonce) ==> exists|n: nat| #[trigger]
            decimal(n) == nonce@ && forall|m: nat|
                m < n && bits <= 8 * sha256(
                    encode_utf8(challenge@) + encode_utf8(#[trigger] decimal(m)),
                ).len() ==> exists|i: int|
                    0 <= i < bits && #[trigger] bit_set(
                        sha256(encode_utf8(challenge@) + encode_utf8(decimal(m))),
                        i,
                    ),
{
    let mut n: u64 = 0;
    loop
        invariant
            forall|m: nat| m < n ==> !#[trigger] solves(challenge@, m, bits),
        decreases u64::MAX - n,
    {
        let nonce: String = decimal_text(n);
        let mut message: Vec<u8> = Vec::new();
        append_bytes(&mut message, challenge.as_bytes());
        append_bytes(&mut message, nonce.as_str().as_bytes());
        assert(message@ =~= encode_utf8(challenge@) + encode_utf8(decimal(n as nat)));
        let digest: [u8; 32] = sha256_digest(message.as_slice());
        if count_zero_bits(&digest) >= bits {
            assert(solves(challenge@, n as nat, bits));
            proof {
                work_is_bit_by_bit(challenge@, n as nat, bits);
                assert(decimal(n as nat) == nonce@);
                assert forall|m: nat|
                    m < n && bits <= 8 * sha256(
                        encode_utf8(challenge@) + encode_utf8(#[trigger] decimal(m)),
                    ).len() implies exists|i: int|
                    0 <= i < bits && #[trigger] bit_set(
                        sha256(encode_utf8(challenge@) + encode_utf8(decimal(m))),
                        i,
                    ) by {
                    work_is_bit_by_bit(challenge@, m, bits);
                    assert(!solves(challenge@, m, bits));
                }
            }
            return Some(nonce);
        }
        assert(!solves(challenge@, n as nat, bits));
        if n == u64::MAX {
            return None;
        }
        n = n + 1;
    }
}

/// A text without the slashes at its end.
pub open spec fn unslashed(s: Seq<char>) -> Seq<char>
    decreases s.len(),
{
    if s.len() > 0 && s.last() == '/' {
        unslashed(s.drop_last())
    } else {
        s
    }
}

fn drop_slashes(s: &str) -> (r: String)
    ensures
        r@ == unslashed(s@),
{
    let cs: Vec<char> = chars_of(s);
    let mut to: usize = cs.len();
    assert(cs@.subrange(0, to as int) =~= s@);
    while to > 0 && cs[to - 1] == '/'
        invariant
            to <= cs@.len(),
            unslashed(s@) == unslashed(cs@.subrange(0, to as int)),
        decreases to,
    {
        assert(cs@.subrange(0, to as int).drop_last() =~= cs@.subrange(0, to - 1));
        to = to - 1;
    }
    slice_text(&cs, 0, to)
}

/// An address with the scheme of a socket.
pub open spec fn with_ws(s: Seq<char>) -> Seq<char> {
    if begins_with(s, "ws://"@) || begins_with(s, "wss://"@) {
        s
    } else if begins_with(s, "http://"@) {
        "ws://"@ + s.skip(7)
    } else if begins_with(s, "https://"@) {
        "wss://"@ + s.skip(8)
    } else {
        "ws://"@ + s
    }
}

/// Gives an address the scheme of a socket.
pub fn ws_scheme(base: &str) -> (r: String)
    ensures
        r@ == with_ws(base@),
{
    proof {
        reveal_strlit("http://");
        reveal_strlit("https://");
    }
    if starts_with(base, "ws://") || starts_with(base, "wss://") {
        base.to_owned()
    } else if starts_with(base, "http://") {
        "ws://".to_owned().concat(skip(base, 7).as_str())
    } else if starts_with(base, "https://") {
        "wss://".to_owned().concat(skip(base, 8).as_str())
    } else {
        "ws://".to_owned().concat(base)
    }
}

/// A URL with its path replaced, or the complaint about it.
pub uninterp spec fn url_at_path(url: Seq<char>, path: Seq<char>) -> Result<Seq<char>, Seq<char>>;

/// `url::Url::parse`, `set_path` and `to_string`.
#[verifier::external_body]
fn url_with_path(url: &str, path: &str) -> (r: Result<String, String>)
    ensures
        text_outcome(r) == url_at_path(url@, path@),
{
    let mut parsed = url::Url::parse(url).map_err(|e| e.to_string())?;
    parsed.set_path(path);
    Ok(parsed.to_string())
}

/// The host of a URL.
#[derive(Debug, Clone, PartialEq, Eq)]
pub enum UrlHost {
    V4(u32),
    V6(u128),
    Domain(String),
    Missing,
}

/// The host of a URL, as mathematics.
pub enum HostView {
    V4(u32),
    V6(u128),
    Domain(Seq<char>),
    Missing,
}

impl View for UrlHost {
    type V = HostView;

    open spec fn view(&self) -> HostView {
        match self {
            UrlHost::V4(n) => HostView::V4(*n),
            UrlHost::V6(n) => HostView::V6(*n),
            UrlHost::Domain(d) => HostView::Domain(d@),
            UrlHost::Missing => HostView::Missing,
        }
    }
}

/// The scheme and the host of a URL, or the complaint about it.
pub uninterp spec fn url_reading(url: Seq<char>) -> Result<(Seq<char>, HostView), Seq<char>>;

/// The outcome of reading a URL.
pub open spec fn url_outcome(r: Result<(String, UrlHost), String>) -> Result<
    (Seq<char>, HostView),
    Seq<char>,
> {
    match r {
        Ok(read) => Ok((read.0@, read.1@)),
        Err(e) => Err(e@),
    }
}

/// `url::Url::parse` with its `scheme` and its `host`.
#[verifier::external_body]
fn read_url(url: &str) -> (r: Result<(String, UrlHost), String>)
    ensures
        url_outcome(r) == url_reading(url@),
{
    let parsed = url::Url::parse(url).map_err(|e| e.to_string())?;
    let host = match parsed.host() {
        Some(url::Host::Ipv4(ip)) => UrlHost::V4(u32::from(ip)),
        Some(url::Host::Ipv6(ip)) => UrlHost::V6(u128::from(ip)),
        Some(url::Host::Domain(name)) => UrlHost::Domain(name.to_string()),
        None => UrlHost::Missing,
    };
    Ok((parsed.scheme().to_string(), host))
}

/// The host and the port of a URL, where it has both.
pub uninterp spec fn url_socket(url: Seq<char>) -> Option<(Seq<char>, u16)>;

/// What is read of the host and the port of a URL.
pub open spec fn socket_outcome(r: Option<(String, u16)>) -> Option<(Seq<char>, u16)> {
    match r {
        Some(read) => Some((read.0@, read.1)),
        None => None,
    }
}

/// `url::Url::parse` with its `host_str` and its `port_or_known_default`.
#[verifier::external_body]
fn read_socket(url: &str) -> (r: Option<(String, u16)>)
    ensures
        socket_outcome(r) == url_socket(url@),
{
    let parsed = url::Url::parse(url).ok()?;
    Some((parsed.host_str()?.to_string(), parsed.port_or_known_default()?))
}

/// The origin that a login is bound to: the host, a colon and the port.
pub open spec fn url_origin(url: Seq<char>) -> Option<Seq<char>> {
    match url_socket(url) {
        Some(at) => Some(at.0 + ":"@ + decimal(at.1 as nat)),
        None => None,
    }
}

/// The origin of a host and a port.
pub fn origin_at(host: &str, port: u16) -> (r: String)
    ensures
        r@ == host@ + ":"@ + decimal(port as nat),
{
    host.to_owned().concat(":").concat(decimal_text(port as u64).as_str())
}

/// Finds the origin of a URL, where it has a host and a port.
pub fn dial_origin(url: &str) -> (r: Option<String>)
    ensures
        opt_text(r) == url_origin(url@),
{
    match read_socket(url) {
        Some((host, port)) => Some(origin_at(host.as_str(), port)),
        None => None,
    }
}

/// A typed address as the URL of a gateway, or why it is none.
pub open spec fn normalized(raw: Seq<char>) -> Result<Seq<char>, Seq<char>> {
    let bare = unslashed(trimmed(raw));
    if bare.len() == 0 {
        Err("server URL is required"@)
    } else {
        match url_at_path(with_ws(bare), "/gateway"@) {
            Ok(url) => Ok(url),
            Err(e) => Err("invalid URL: "@ + e),
        }
    }
}

/// Turns a typed address into the URL of a gateway.
pub fn normalize_url(raw: &str) -> (r: Result<String, String>)
    ensures
        text_outcome(r) == normalized(raw@),
{
    let bare: String = drop_slashes(trim(raw).as_str());
    if bare.as_str().unicode_len() == 0 {
        return Err("server URL is required".to_owned());
    }
    match url_with_path(ws_scheme(bare.as_str()).as_str(), "/gateway") {
        Ok(url) => Ok(url),
        Err(e) => Err("invalid URL: ".to_owned().concat(e.as_str())),
    }
}

/// Where to dial. Off this machine every connection is direct and encrypted, or
/// goes over TLS through a proxy; a plain socket is for this machine only.
#[derive(Debug, Clone, PartialEq, Eq)]
pub enum Dial {
    Socket { url: String, origin: String, transport: Transport },
    Quic { key: String, addrs: Vec<String> },
}

/// A character in lower case, where it is an ASCII letter.
pub open spec fn ascii_lower(c: char) -> char {
    if 'A' <= c && c <= 'Z' {
        (c as u32 + 32) as char
    } else {
        c
    }
}

/// A text with its ASCII letters in lower case.
pub open spec fn ascii_lowered(s: Seq<char>) -> Seq<char> {
    s.map_values(|c: char| ascii_lower(c))
}

/// Writes a text with its ASCII letters in lower case.
pub fn to_ascii_lower(s: &str) -> (r: String)
    ensures
        r@ == ascii_lowered(s@),
{
    let cs: Vec<char> = chars_of(s);
    let mut out: String = String::new();
    let mut i: usize = 0;
    while i < cs.len()
        invariant
            i <= cs@.len(),
            cs@ == s@,
            out@ =~= ascii_lowered(s@).take(i as int),
        decreases cs@.len() - i,
    {
        let c: char = cs[i];
        let low: char = if 'A' <= c && c <= 'Z' {
            (c as u8 + 32) as char
        } else {
            c
        };
        assert(low == ascii_lower(c));
        out.push(low);
        i = i + 1;
    }
    assert(out@ =~= ascii_lowered(s@));
    out
}

/// Whether a host is this machine.
pub open spec fn is_loopback(host: HostView) -> bool {
    match host {
        HostView::V4(n) => n / 0x100_0000 == 127,
        HostView::V6(n) => n == 1,
        HostView::Domain(name) => ascii_lowered(name) == "localhost"@,
        HostView::Missing => false,
    }
}

fn loopback(host: &UrlHost) -> (r: bool)
    ensures
        r == is_loopback(host@),
{
    match host {
        UrlHost::V4(n) => *n / 0x100_0000 == 127,
        UrlHost::V6(n) => *n == 1,
        UrlHost::Domain(name) => same(to_ascii_lower(name.as_str()).as_str(), "localhost"),
        UrlHost::Missing => false,
    }
}

/// The pieces of a text between the occurrences of a character.
pub open spec fn pieces(s: Seq<char>, c: char) -> Seq<Seq<char>>
    decreases s.len(),
{
    if s.len() == 0 {
        seq![Seq::empty()]
    } else {
        let before = pieces(s.drop_last(), c);
        if s.last() == c {
            before.push(Seq::empty())
        } else {
            before.drop_last().push(before.last().push(s.last()))
        }
    }
}

/// Texts that are not empty.
pub open spec fn not_blank() -> spec_fn(Seq<char>) -> bool {
    |t: Seq<char>| t.len() > 0
}

/// Cuts a text at a character, and leaves out empty pieces.
pub fn split_pieces(s: &str, c: char) -> (r: Vec<String>)
    ensures
        texts(r@) == pieces(s@, c).filter(not_blank()),
{
    let cs: Vec<char> = chars_of(s);
    let mut all: Vec<String> = Vec::new();
    let mut current: String = String::new();
    let mut i: usize = 0;
    assert(cs@.take(0) =~= Seq::empty());
    assert(texts(all@).push(current@) =~= seq![Seq::empty()]);
    while i < cs.len()
        invariant
            i <= cs@.len(),
            cs@ == s@,
            texts(all@).push(current@) == pieces(cs@.take(i as int), c),
        decreases cs@.len() - i,
    {
        let ghost was = all@;
        let ghost held = current@;
        assert(cs@.take(i + 1).drop_last() =~= cs@.take(i as int));
        assert(texts(was).push(held).drop_last() =~= texts(was));
        if cs[i] == c {
            all.push(current);
            current = String::new();
            assert(texts(all@) =~= texts(was).push(held));
        } else {
            current.push(cs[i]);
        }
        assert(texts(all@).push(current@) =~= pieces(cs@.take(i + 1), c));
        i = i + 1;
    }
    assert(cs@.take(i as int) =~= s@);
    let ghost last = current@;
    let ghost was = all@;
    all.push(current);
    assert(texts(all@) =~= texts(was).push(last));
    let mut out: Vec<String> = Vec::new();
    let mut k: usize = 0;
    let ghost views = texts(all@);
    proof {
        reveal(Seq::filter);
        assert(views.take(0).filter(not_blank()) =~= Seq::empty());
        assert(texts(out@) =~= Seq::empty());
    }
    while k < all.len()
        invariant
            k <= all@.len(),
            views == texts(all@),
            texts(out@) == views.take(k as int).filter(not_blank()),
        decreases all@.len() - k,
    {
        let ghost kept = out@;
        proof {
            reveal(Seq::filter);
            assert(views.take(k + 1).drop_last() =~= views.take(k as int));
            assert(views.take(k + 1).last() == all@[k as int]@);
        }
        if all[k].as_str().unicode_len() > 0 {
            out.push(all[k].clone());
            assert(texts(out@) =~= texts(kept).push(all@[k as int]@));
        }
        k = k + 1;
    }
    assert(views.take(k as int) =~= views);
    out
}

/// The first place of a character.
pub open spec fn first_place(s: Seq<char>, c: char, i: int) -> bool {
    0 <= i < s.len() && s[i] == c && forall|j: int| 0 <= j < i ==> #[trigger] s[j] != c
}

/// Whether a text is the share string of a key and addresses:
/// `quic://key@address;address`.
pub open spec fn shares_key(raw: Seq<char>, key: Seq<char>, addrs: Seq<Seq<char>>) -> bool {
    let rest = trimmed(raw).skip(7);
    &&& begins_with(trimmed(raw), "quic://"@)
    &&& exists|i: int|
        {
            &&& #[trigger] first_place(rest, '@', i)
            &&& i > 0
            &&& key == rest.take(i)
            &&& addrs == pieces(rest.skip(i + 1), ';').filter(not_blank())
        }
}

/// Whether a text is a share string at all.
pub open spec fn is_share(raw: Seq<char>) -> bool {
    let rest = trimmed(raw).skip(7);
    begins_with(trimmed(raw), "quic://"@) && exists|i: int|
        i > 0 && #[trigger] first_place(rest, '@', i)
}

/// Reads a share string: the key of a host, and where it can be reached.
pub fn parse_quic_share(raw: &str) -> (r: Option<(String, Vec<String>)>)
    ensures
        r is Some <==> is_share(raw@),
        r is Some ==> shares_key(raw@, r->Some_0.0@, texts(r->Some_0.1@)),
{
    let t: String = trim(raw);
    if !starts_with(t.as_str(), "quic://") {
        return None;
    }
    proof {
        reveal_strlit("quic://");
    }
    let rest: String = skip(t.as_str(), 7);
    let cs: Vec<char> = chars_of(rest.as_str());
    let mut i: usize = 0;
    while i < cs.len() && cs[i] != '@'
        invariant
            i <= cs@.len(),
            forall|j: int| 0 <= j < i ==> #[trigger] cs@[j] != '@',
        decreases cs@.len() - i,
    {
        i = i + 1;
    }
    if i == cs.len() {
        assert forall|k: int| !#[trigger] first_place(rest@, '@', k) by {
            if 0 <= k < rest@.len() {
                assert(cs@[k] != '@');
            }
        }
        return None;
    }
    assert(first_place(rest@, '@', i as int));
    if i == 0 {
        assert forall|k: int| k > 0 implies !#[trigger] first_place(rest@, '@', k) by {
            if k > 0 {
                assert(rest@[0] == '@');
            }
        }
        return None;
    }
    let key: String = slice_text(&cs, 0, i);
    let tail: String = slice_text(&cs, i + 1, cs.len());
    assert(key@ =~= rest@.take(i as int));
    assert(tail@ =~= rest@.skip(i + 1));
    Some((key, split_pieces(tail.as_str(), ';')))
}

/// What is said of a socket that anyone on the way could read.
pub open spec fn plain_refusal(raw: Seq<char>) -> Seq<char> {
    trimmed(raw)
        + " would travel in the clear, readable by everyone on the way. Ask the host for their quic:// address, or use wss:// through a TLS proxy."@
}

/// How a socket with a scheme and a host is reached, or why it is not dialled.
pub open spec fn transport_of(raw: Seq<char>, scheme: Seq<char>, host: HostView) -> Result<
    Transport,
    Seq<char>,
> {
    if scheme == "ws"@ {
        if is_loopback(host) {
            Ok(Transport::Loopback)
        } else {
            Err(plain_refusal(raw))
        }
    } else if scheme == "wss"@ {
        Ok(Transport::Proxied)
    } else {
        Err("unsupported scheme "@ + scheme + "://"@)
    }
}

/// How a socket with a scheme and a host is reached.
pub fn transport_for(raw: &str, scheme: &str, host: &UrlHost) -> (r: Result<Transport, String>)
    ensures
        match transport_of(raw@, scheme@, host@) {
            Ok(t) => r == Ok::<Transport, String>(t),
            Err(e) => r is Err && r->Err_0@ == e,
        },
{
    if same(scheme, "ws") {
        if loopback(host) {
            Ok(Transport::Loopback)
        } else {
            Err(
                trim(raw).concat(
                    " would travel in the clear, readable by everyone on the way. Ask the host for their quic:// address, or use wss:// through a TLS proxy.",
                ),
            )
        }
    } else if same(scheme, "wss") {
        Ok(Transport::Proxied)
    } else {
        Err("unsupported scheme ".to_owned().concat(scheme).concat("://"))
    }
}

/// Whether an address is dialled as a socket, or refused with these words.
pub open spec fn socket_dial(raw: Seq<char>, r: Result<Dial, String>) -> bool {
    match normalized(raw) {
        Err(e) => r is Err && r->Err_0@ == e,
        Ok(url) => match url_reading(url) {
            Err(e) => r is Err && r->Err_0@ == "invalid URL: "@ + e,
            Ok(read) => match transport_of(raw, read.0, read.1) {
                Err(e) => r is Err && r->Err_0@ == e,
                Ok(t) => match url_origin(url) {
                    None => r is Err && r->Err_0@ == url + " has no host"@,
                    Some(at) => r matches Ok(Dial::Socket { url: u, origin, transport }) && u@
                        == url && origin@ == at && transport == t,
                },
            },
        },
    }
}

/// Decides where a typed address leads: a share string to the key it names, and
/// anything else to a socket, in the clear to this machine only.
pub fn parse_target(raw: &str) -> (r: Result<Dial, String>)
    ensures
        is_share(raw@) ==> (r matches Ok(Dial::Quic { key, addrs }) && shares_key(
            raw@,
            key@,
            texts(addrs@),
        )),
        !is_share(raw@) ==> socket_dial(raw@, r),
{
    if let Some((key, addrs)) = parse_quic_share(raw) {
        return Ok(Dial::Quic { key, addrs });
    }
    let url: String = match normalize_url(raw) {
        Ok(url) => url,
        Err(e) => {
            return Err(e);
        },
    };
    let (scheme, host): (String, UrlHost) = match read_url(url.as_str()) {
        Ok(read) => read,
        Err(e) => {
            return Err("invalid URL: ".to_owned().concat(e.as_str()));
        },
    };
    let transport: Transport = match transport_for(raw, scheme.as_str(), &host) {
        Ok(t) => t,
        Err(e) => {
            return Err(e);
        },
    };
    match dial_origin(url.as_str()) {
        Some(origin) => Ok(Dial::Socket { url, origin, transport }),
        None => Err(url.concat(" has no host")),
    }
}

/// No address but this machine's is ever dialled in the clear.
pub proof fn plain_is_local(raw: Seq<char>, r: Result<Dial, String>, url: String, origin: String)
    requires
        socket_dial(raw, r),
        r == Ok::<Dial, String>(
            (Dial::Socket { url, origin, transport: Transport::Loopback }),
        ),
    ensures
        url_reading(url@) is Ok,
        url_reading(url@)->Ok_0.0 == "ws"@,
        is_loopback(url_reading(url@)->Ok_0.1),
{
}

/// The socket of a server that runs on this machine.
pub fn local_dial(local_url: &str) -> (r: Result<Dial, String>)
    ensures
        match normalized(local_url@) {
            Err(e) => r is Err && r->Err_0@ == e,
            Ok(url) => match url_origin(url) {
                None => r is Err && r->Err_0@ == url + " has no host"@,
                Some(at) => r matches Ok(Dial::Socket { url: u, origin, transport }) && u@ == url
                    && origin@ == at && transport == Transport::Loopback,
            },
        },
{
    let url: String = match normalize_url(local_url) {
        Ok(url) => url,
        Err(e) => {
            return Err(e);
        },
    };
    match dial_origin(url.as_str()) {
        Some(origin) => Ok(Dial::Socket { url, origin, transport: Transport::Loopback }),
        None => Err(url.concat(" has no host")),
    }
}

/// The address at which a directory is asked, for one of a socket.
pub open spec fn http_base(s: Seq<char>) -> Seq<char> {
    if begins_with(s, "wss://"@) {
        "https://"@ + s.skip(6)
    } else if begins_with(s, "ws://"@) {
        "http://"@ + s.skip(5)
    } else {
        s
    }
}

fn to_http(s: &str) -> (r: String)
    ensures
        r@ == http_base(s@),
{
    proof {
        reveal_strlit("wss://");
        reveal_strlit("ws://");
    }
    if starts_with(s, "wss://") {
        "https://".to_owned().concat(skip(s, 6).as_str())
    } else if starts_with(s, "ws://") {
        "http://".to_owned().concat(skip(s, 5).as_str())
    } else {
        s.to_owned()
    }
}

/// The URL at which a directory answers for a code.
pub fn resolve_url(rendezvous_url: &str, code: &str) -> (r: Result<String, String>)
    ensures
        text_outcome(r) == {
            let base = unslashed(trimmed(rendezvous_url@));
            if base.len() == 0 {
                Err("rendezvous URL required"@)
            } else {
                Ok(http_base(with_ws(base)) + "/resolve/"@ + trimmed(code@))
            }
        },
{
    let base: String = drop_slashes(trim(rendezvous_url).as_str());
    if base.as_str().unicode_len() == 0 {
        return Err("rendezvous URL required".to_owned());
    }
    Ok(
        to_http(ws_scheme(base.as_str()).as_str()).concat("/resolve/").concat(
            trim(code).as_str(),
        ),
    )
}

/// What a directory says of a host.
#[derive(Debug, Clone, PartialEq, Eq)]
pub struct DiscoverEntry {
    pub transport_key: Option<String>,
    pub transport_addrs: Vec<String>,
    pub relay_url: Option<String>,
}

/// The addresses of a host, with its relay among them.
pub open spec fn entry_addrs(entry: DiscoverEntry) -> Seq<String> {
    match entry.relay_url {
        Some(relay) => if texts(entry.transport_addrs@).contains(relay@) {
            entry.transport_addrs@
        } else {
            entry.transport_addrs@.push(relay)
        },
        None => entry.transport_addrs@,
    }
}

/// Where to dial a host that a directory was asked for.
pub fn dial_entry(entry: Option<DiscoverEntry>, rendezvous_url: &str, code: &str) -> (r: Result<
    Dial,
    String,
>)
    ensures
        match entry {
            None => r is Err && r->Err_0@ == "no host answers to '"@ + trimmed(code@) + "' at "@
                + unslashed(trimmed(rendezvous_url@)),
            Some(entry) => match entry.transport_key {
                None => r is Err && r->Err_0@
                    == "that host offers no encrypted path; it needs a newer Discordia"@,
                Some(k) => r matches Ok(Dial::Quic { key, addrs }) && key == k && addrs@
                    == entry_addrs(entry),
            },
        },
{
    match entry {
        None => Err(
            "no host answers to '".to_owned().concat(trim(code).as_str()).concat("' at ").concat(
                drop_slashes(trim(rendezvous_url).as_str()).as_str(),
            ),
        ),
        Some(entry) => match entry.transport_key {
            None => Err(
                "that host offers no encrypted path; it needs a newer Discordia".to_owned(),
            ),
            Some(key) => {
                let mut addrs: Vec<String> = entry.transport_addrs;
                if let Some(relay) = entry.relay_url {
                    if !contains_text(&addrs, relay.as_str()) {
                        addrs.push(relay);
                    }
                }
                Ok(Dial::Quic { key, addrs })
            },
        },
    }
}

/// A picture that is not a link.
pub open spec fn picture(p: Option<String>) -> Option<String> {
    match p {
        Some(s) => if begins_with(s@, "http://"@) || begins_with(s@, "https://"@) {
            None
        } else {
            Some(s)
        },
        None => None,
    }
}

fn keep_picture(p: Option<String>) -> (r: Option<String>)
    ensures
        r == picture(p),
{
    match p {
        Some(s) => if starts_with(s.as_str(), "http://") || starts_with(s.as_str(), "https://") {
            None
        } else {
            Some(s)
        },
        None => None,
    }
}

/// The profile that is sent when a session begins, if anything of it is filled
/// in. A link in the place of a picture would be refused with the whole profile,
/// so it is left out.
pub fn profile_to_send(local: LocalProfile) -> (r: Option<ClientMessage>)
    ensures
        r == if local.avatar is Some || local.banner is Some || local.bio is Some
            || local.status is Some || local.custom_status is Some {
            Some(
                ClientMessage::SetProfile {
                    avatar: picture(local.avatar),
                    banner: picture(local.banner),
                    bio: local.bio,
                    status: local.status,
                    custom_status: local.custom_status,
                },
            )
        } else {
            None
        },
{
    if local.avatar.is_none() && local.banner.is_none() && local.bio.is_none()
        && local.status.is_none() && local.custom_status.is_none() {
        return None;
    }
    Some(
        ClientMessage::SetProfile {
            avatar: keep_picture(local.avatar),
            banner: keep_picture(local.banner),
            bio: local.bio,
            status: local.status,
            custom_status: local.custom_status,
        },
    )
}

/// How long a request counts as in flight, in milliseconds. After it the address
/// is asked for again.
pub const MEDIA_RETRY_AFTER: u64 = 8_000;

/// How many emojis one request names at most.
pub const EMOJI_PER_REQUEST: usize = 16;

/// How many other pictures one request names at most.
pub const IMAGES_PER_REQUEST: usize = 8;

/// Pictures held, requests made, and addresses to ask for now.
pub struct Hunt {
    pub images: Map<Seq<char>, String>,
    pub asked: Map<Seq<char>, u64>,
    pub wanted: Seq<Seq<char>>,
}

/// Whether an address was asked for a moment ago.
pub open spec fn in_flight(asked: Map<Seq<char>, u64>, address: Seq<char>, now: u64) -> bool {
    asked.dom().contains(address) && now < asked[address] + MEDIA_RETRY_AFTER
}

/// One address is looked at: it is held, in flight, on disk, or asked for.
pub open spec fn sought(
    h: Hunt,
    address: Seq<char>,
    disk: Map<Seq<char>, String>,
    now: u64,
) -> Hunt {
    if h.images.dom().contains(address) || in_flight(h.asked, address, now) {
        h
    } else if disk.dom().contains(address) {
        Hunt { images: h.images.insert(address, disk[address]), ..h }
    } else {
        Hunt {
            asked: h.asked.insert(address, now),
            wanted: h.wanted.push(address),
            ..h
        }
    }
}

/// Addresses are looked at one after the other.
pub open spec fn sought_all(
    h: Hunt,
    addresses: Seq<Seq<char>>,
    disk: Map<Seq<char>, String>,
    now: u64,
) -> Hunt
    decreases addresses.len(),
{
    if addresses.len() == 0 {
        h
    } else {
        sought(sought_all(h, addresses.drop_last(), disk, now), addresses.last(), disk, now)
    }
}

/// The address of an optional picture.
pub open spec fn address_of(p: Option<String>) -> Seq<Seq<char>> {
    match p {
        Some(raw) => match address_in(raw@) {
            Some(a) => seq![a],
            None => Seq::empty(),
        },
        None => Seq::empty(),
    }
}

pub open spec fn profile_pictures(list: Seq<(Seq<char>, Profile)>) -> Seq<Seq<char>>
    decreases list.len(),
{
    if list.len() == 0 {
        Seq::empty()
    } else {
        profile_pictures(list.drop_last()) + address_of(list.last().1.avatar) + address_of(
            list.last().1.banner,
        )
    }
}

pub open spec fn guild_pictures(list: Seq<Guild>) -> Seq<Seq<char>>
    decreases list.len(),
{
    if list.len() == 0 {
        Seq::empty()
    } else {
        guild_pictures(list.drop_last()) + address_of(list.last().icon_image) + address_of(
            list.last().banner,
        )
    }
}

pub open spec fn message_pictures(list: Seq<Message>) -> Seq<Seq<char>>
    decreases list.len(),
{
    if list.len() == 0 {
        Seq::empty()
    } else {
        message_pictures(list.drop_last()) + address_of(list.last().image)
    }
}

pub open spec fn channel_pictures(list: Seq<(Id, Vec<Message>)>) -> Seq<Seq<char>>
    decreases list.len(),
{
    if list.len() == 0 {
        Seq::empty()
    } else {
        channel_pictures(list.drop_last()) + message_pictures(list.last().1@)
    }
}

/// Every picture that the gateway named: in profiles, guilds and messages.
pub open spec fn named_pictures(s: AppState) -> Seq<Seq<char>> {
    profile_pictures(s.profiles.list()) + guild_pictures(s.guilds@) + channel_pictures(
        s.messages.list(),
    )
}

fn push_address(out: &mut Vec<String>, p: &Option<String>)
    ensures
        texts(final(out)@) == texts(old(out)@) + address_of(*p),
{
    let ghost before = out@;
    if let Some(raw) = p {
        if let Some(a) = media_address(raw.as_str()) {
            out.push(a);
        }
    }
    assert(texts(out@) =~= texts(before) + address_of(*p));
}

fn push_profiles(out: &mut Vec<String>, s: &AppState)
    ensures
        texts(final(out)@) == texts(old(out)@) + profile_pictures(s.profiles.list()),
{
    let n: usize = s.profiles.len();
    let ghost list = s.profiles.list();
    let ghost before = texts(out@);
    let mut i: usize = 0;
    assert(list.take(0) =~= Seq::empty());
    assert(texts(out@) =~= before + profile_pictures(list.take(0)));
    while i < n
        invariant
            i <= n,
            n == list.len(),
            list == s.profiles.list(),
            texts(out@) =~= before + profile_pictures(list.take(i as int)),
        decreases n - i,
    {
        let p: &Profile = &s.profiles.entry(i).1;
        push_address(out, &p.avatar);
        push_address(out, &p.banner);
        assert(list.take(i + 1).drop_last() =~= list.take(i as int));
        i = i + 1;
    }
    assert(list.take(n as int) =~= list);
}

fn push_guilds(out: &mut Vec<String>, guilds: &Vec<Guild>)
    ensures
        texts(final(out)@) == texts(old(out)@) + guild_pictures(guilds@),
{
    let ghost before = texts(out@);
    let mut i: usize = 0;
    assert(guilds@.take(0) =~= Seq::empty());
    assert(texts(out@) =~= before + guild_pictures(guilds@.take(0)));
    while i < guilds.len()
        invariant
            i <= guilds@.len(),
            texts(out@) =~= before + guild_pictures(guilds@.take(i as int)),
        decreases guilds@.len() - i,
    {
        push_address(out, &guilds[i].icon_image);
        push_address(out, &guilds[i].banner);
        assert(guilds@.take(i + 1).drop_last() =~= guilds@.take(i as int));
        i = i + 1;
    }
    assert(guilds@.take(i as int) =~= guilds@);
}

fn push_messages(out: &mut Vec<String>, messages: &Vec<Message>)
    ensures
        texts(final(out)@) == texts(old(out)@) + message_pictures(messages@),
{
    let ghost before = texts(out@);
    let mut i: usize = 0;
    assert(messages@.take(0) =~= Seq::empty());
    assert(texts(out@) =~= before + message_pictures(messages@.take(0)));
    while i < messages.len()
        invariant
            i <= messages@.len(),
            texts(out@) =~= before + message_pictures(messages@.take(i as int)),
        decreases messages@.len() - i,
    {
        push_address(out, &messages[i].image);
        assert(messages@.take(i + 1).drop_last() =~= messages@.take(i as int));
        i = i + 1;
    }
    assert(messages@.take(i as int) =~= messages@);
}

/// The addresses of every picture that the gateway named.
pub fn picture_addresses(s: &AppState) -> (r: Vec<String>)
    ensures
        texts(r@) == named_pictures(*s),
{
    let mut out: Vec<String> = Vec::new();
    assert(texts(out@) =~= Seq::empty());
    push_profiles(&mut out, s);
    push_guilds(&mut out, &s.guilds);
    let n: usize = s.messages.len();
    let ghost list = s.messages.list();
    let ghost before = texts(out@);
    let mut i: usize = 0;
    assert(list.take(0) =~= Seq::empty());
    assert(texts(out@) =~= before + channel_pictures(list.take(0)));
    while i < n
        invariant
            i <= n,
            n == list.len(),
            list == s.messages.list(),
            texts(out@) =~= before + channel_pictures(list.take(i as int)),
        decreases n - i,
    {
        push_messages(&mut out, &s.messages.entry(i).1);
        assert(list.take(i + 1).drop_last() =~= list.take(i as int));
        i = i + 1;
    }
    assert(list.take(n as int) =~= list);
    assert(before =~= profile_pictures(s.profiles.list()) + guild_pictures(s.guilds@));
    assert(texts(out@) =~= named_pictures(*s));
    out
}

/// The state of a search for pictures.
pub open spec fn hunt_in(s: AppState, wanted: Seq<Seq<char>>) -> Hunt {
    Hunt { images: s.emoji_images@, asked: s.emoji_requested@, wanted }
}

/// Looks at addresses one after the other, and gives those to ask for now.
fn seek(s: &mut AppState, addresses: &Vec<String>, disk: &TextTable<String>, now: u64) -> (r: Vec<
    String,
>)
    ensures
        *final(s) == (AppState {
            emoji_images: final(s).emoji_images,
            emoji_requested: final(s).emoji_requested,
            ..*old(s)
        }),
        hunt_in(*final(s), texts(r@)) == sought_all(
            hunt_in(*old(s), Seq::empty()),
            texts(addresses@),
            disk@,
            now,
        ),
{
    let ghost o = *s;
    let ghost views = texts(addresses@);
    let ghost start = hunt_in(*s, Seq::empty());
    let mut wanted: Vec<String> = Vec::new();
    assert(texts(wanted@) =~= Seq::empty());
    assert(views.take(0) =~= Seq::empty());
    let mut i: usize = 0;
    while i < addresses.len()
        invariant
            i <= addresses@.len(),
            views == texts(addresses@),
            *s == (AppState {
                emoji_images: s.emoji_images,
                emoji_requested: s.emoji_requested,
                ..o
            }),
            hunt_in(*s, texts(wanted@)) == sought_all(start, views.take(i as int), disk@, now),
        decreases addresses@.len() - i,
    {
        let address: &str = addresses[i].as_str();
        let ghost was = wanted@;
        proof {
            assert(views.take(i + 1).drop_last() =~= views.take(i as int));
            assert(views.take(i + 1).last() == address@);
        }
        let flying: bool = match s.emoji_requested.get(address) {
            Some(asked) => now < *asked || now - *asked < MEDIA_RETRY_AFTER,
            None => false,
        };
        if !s.emoji_images.contains(address) && !flying {
            match disk.get(address) {
                Some(data_url) => {
                    s.emoji_images.insert(addresses[i].clone(), data_url.clone());
                },
                None => {
                    s.emoji_requested.insert(addresses[i].clone(), now);
                    wanted.push(addresses[i].clone());
                    assert(texts(wanted@) =~= texts(was).push(address@));
                },
            }
        }
        i = i + 1;
    }
    assert(views.take(i as int) =~= views);
    wanted
}

/// A list in pieces of a given size; the last may be shorter.
pub open spec fn batches(s: Seq<Seq<char>>, size: nat) -> Seq<Seq<Seq<char>>>
    decreases s.len(),
{
    if s.len() == 0 || size == 0 {
        Seq::empty()
    } else if s.len() <= size {
        seq![s]
    } else {
        seq![s.take(size as int)] + batches(s.skip(size as int), size)
    }
}

/// Whether requests ask for lists of addresses, one for one.
pub open spec fn asks_for(requests: Seq<ClientMessage>, lists: Seq<Seq<Seq<char>>>) -> bool {
    requests.len() == lists.len() && forall|i: int|
        0 <= i < lists.len() ==> (#[trigger] requests[i] matches ClientMessage::FetchEmoji {
            images,
        } && texts(images@) == lists[i])
}

fn push_batches(out: &mut Vec<ClientMessage>, wanted: &Vec<String>, size: usize, lists: Ghost<
    Seq<Seq<Seq<char>>>,
>)
    requires
        size > 0,
        asks_for(old(out)@, lists@),
    ensures
        asks_for(final(out)@, lists@ + batches(texts(wanted@), size as nat)),
{
    let ghost views = texts(wanted@);
    let ghost mut done = lists@;
    let mut from: usize = 0;
    assert(views.skip(0) =~= views);
    assert(done + batches(views, size as nat) =~= lists@ + batches(views, size as nat));
    while from < wanted.len()
        invariant
            size > 0,
            from <= wanted@.len(),
            views == texts(wanted@),
            asks_for(out@, done),
            done + batches(views.skip(from as int), size as nat) == lists@ + batches(
                views,
                size as nat,
            ),
        decreases wanted@.len() - from,
    {
        let to: usize = if wanted.len() - from <= size {
            wanted.len()
        } else {
            from + size
        };
        let mut images: Vec<String> = Vec::new();
        let mut k: usize = from;
        assert(views.subrange(from as int, from as int) =~= texts(images@));
        while k < to
            invariant
                from <= k <= to <= wanted@.len(),
                views == texts(wanted@),
                texts(images@) == views.subrange(from as int, k as int),
            decreases to - k,
        {
            let ghost was = images@;
            images.push(wanted[k].clone());
            assert(texts(images@) =~= texts(was).push(views[k as int]));
            k = k + 1;
            assert(views.subrange(from as int, k as int) =~= views.subrange(
                from as int,
                k - 1,
            ).push(views[k - 1]));
        }
        let ghost part = views.subrange(from as int, to as int);
        let ghost before = out@;
        let ghost was_done = done;
        let ghost rest = views.skip(from as int);
        out.push(ClientMessage::FetchEmoji { images });
        proof {
            done = done.push(part);
            assert(asks_for(out@, done));
            if rest.len() <= size {
                assert(part =~= rest);
                assert(views.skip(to as int) =~= Seq::empty());
                assert(batches(rest, size as nat) =~= seq![rest]);
                assert(done + batches(views.skip(to as int), size as nat) =~= was_done
                    + batches(rest, size as nat));
            } else {
                assert(part =~= rest.take(size as int));
                assert(rest.skip(size as int) =~= views.skip(to as int));
                assert(done + batches(views.skip(to as int), size as nat) =~= was_done
                    + batches(rest, size as nat));
            }
        }
        from = to;
    }
    assert(views.skip(from as int) =~= Seq::empty());
    assert(done =~= lists@ + batches(views, size as nat));
}

/// The search for emojis: those on disk are taken from there.
pub open spec fn emojis_sought(o: AppState, disk: Map<Seq<char>, String>, now: u64) -> Hunt {
    sought_all(hunt_in(o, Seq::empty()), emoji_seq(o.guild_emojis.list()), disk, now)
}

/// The search for the other pictures, behind that for emojis.
pub open spec fn pictures_sought(o: AppState, disk: Map<Seq<char>, String>, now: u64) -> Hunt {
    sought_all(
        Hunt { wanted: Seq::empty(), ..emojis_sought(o, disk, now) },
        named_pictures(o),
        Map::empty(),
        now,
    )
}

/// What is asked for, request by request.
pub open spec fn requests_due(o: AppState, disk: Map<Seq<char>, String>, now: u64) -> Seq<
    Seq<Seq<char>>,
> {
    batches(emojis_sought(o, disk, now).wanted, EMOJI_PER_REQUEST as nat) + batches(
        pictures_sought(o, disk, now).wanted,
        IMAGES_PER_REQUEST as nat,
    )
}

/// Whether every picture that was named and is missing was asked for.
pub open spec fn resolved(
    o: AppState,
    disk: Map<Seq<char>, String>,
    now: u64,
    n: AppState,
    r: Seq<ClientMessage>,
) -> bool {
    &&& n == (AppState {
        emoji_images: n.emoji_images,
        emoji_requested: n.emoji_requested,
        ..o
    })
    &&& n.emoji_images@ == pictures_sought(o, disk, now).images
    &&& n.emoji_requested@ == pictures_sought(o, disk, now).asked
    &&& asks_for(r, requests_due(o, disk, now))
}

/// Asks for every picture that the gateway named and has not yet handed over.
/// Emojis that lie on disk are taken from there; they are small and go in larger
/// batches than the rest. `disk` holds what the cache has for the emojis.
pub fn resolve_media(s: &mut AppState, disk: &TextTable<String>, now: u64) -> (r: Vec<
    ClientMessage,
>)
    ensures
        resolved(*old(s), disk@, now, *final(s), r@),
{
    let emojis: Vec<String> = emoji_addresses(s);
    let emoji: Vec<String> = seek(s, &emojis, disk, now);
    let pictures: Vec<String> = picture_addresses(s);
    let none: TextTable<String> = TextTable::new();
    let images: Vec<String> = seek(s, &pictures, &none, now);
    let mut out: Vec<ClientMessage> = Vec::new();
    let ghost empty: Seq<Seq<Seq<char>>> = Seq::empty();
    push_batches(&mut out, &emoji, EMOJI_PER_REQUEST, Ghost(empty));
    let ghost first = batches(texts(emoji@), EMOJI_PER_REQUEST as nat);
    assert(empty + first =~= first);
    push_batches(&mut out, &images, IMAGES_PER_REQUEST, Ghost(first));
    out
}

/// Nothing that is held is asked for, nothing is asked for twice in a row, and
/// what is asked for is in flight from then on.
pub proof fn asked_once(
    h: Hunt,
    addresses: Seq<Seq<char>>,
    disk: Map<Seq<char>, String>,
    now: u64,
)
    requires
        h.wanted.len() == 0,
    ensures
        ({
            let r = sought_all(h, addresses, disk, now);
            &&& r.wanted.no_duplicates()
            &&& forall|i: int|
                0 <= i < r.wanted.len() ==> in_flight(r.asked, #[trigger] r.wanted[i], now)
                    && !h.images.dom().contains(r.wanted[i])
            &&& forall|a: Seq<char>|
                h.images.dom().contains(a) ==> #[trigger] r.images.dom().contains(a)
        }),
    decreases addresses.len(),
{
    if addresses.len() > 0 {
        asked_once(h, addresses.drop_last(), disk, now);
        let p = sought_all(h, addresses.drop_last(), disk, now);
        let r = sought_all(h, addresses, disk, now);
        let a = addresses.last();
        if !p.images.dom().contains(a) && !in_flight(p.asked, a, now) && !disk.dom().contains(a) {
            assert forall|i: int, j: int|
                0 <= i < r.wanted.len() && 0 <= j < r.wanted.len() && i != j implies r.wanted[i]
                != r.wanted[j] by {
                if i < p.wanted.len() {
                    assert(in_flight(p.asked, p.wanted[i], now));
                }
                if j < p.wanted.len() {
                    assert(in_flight(p.asked, p.wanted[j], now));
                }
            }
            assert forall|i: int| 0 <= i < r.wanted.len() implies in_flight(
                r.asked,
                #[trigger] r.wanted[i],
                now,
            ) && !h.images.dom().contains(r.wanted[i]) by {
                if i < p.wanted.len() {
                    assert(in_flight(p.asked, p.wanted[i], now));
                    assert(r.wanted[i] == p.wanted[i]);
                }
            }
        }
    }
}

/// Whether nothing has to be done about an address: its picture is held, or it was
/// asked for a moment ago.
pub open spec fn settled(h: Hunt, address: Seq<char>, now: u64) -> bool {
    h.images.dom().contains(address) || in_flight(h.asked, address, now)
}

proof fn seeking_settles(
    h: Hunt,
    addresses: Seq<Seq<char>>,
    disk: Map<Seq<char>, String>,
    now: u64,
)
    requires
        h.wanted.len() == 0,
    ensures
        ({
            let r = sought_all(h, addresses, disk, now);
            &&& forall|a: Seq<char>| #[trigger] settled(h, a, now) ==> settled(r, a, now)
            &&& forall|i: int|
                0 <= i < addresses.len() ==> settled(r, #[trigger] addresses[i], now)
            &&& forall|i: int|
                0 <= i < r.wanted.len() ==> {
                    let a = #[trigger] r.wanted[i];
                    !settled(h, a, now) && r.asked.dom().contains(a) && r.asked[a] == now
                }
            &&& forall|a: Seq<char>|
                h.asked.dom().contains(a) && h.asked[a] == now ==> #[trigger]
                    r.asked.dom().contains(a) && r.asked[a] == now
        }),
    decreases addresses.len(),
{
    if addresses.len() > 0 {
        let rest = addresses.drop_last();
        seeking_settles(h, rest, disk, now);
        let p = sought_all(h, rest, disk, now);
        let r = sought_all(h, addresses, disk, now);
        let last = addresses.last();
        assert forall|a: Seq<char>| #[trigger] settled(p, a, now) implies settled(r, a, now) by {}
        assert(settled(r, last, now));
        assert forall|i: int| 0 <= i < addresses.len() implies settled(
            r,
            #[trigger] addresses[i],
            now,
        ) by {
            if i < rest.len() {
                assert(settled(p, rest[i], now));
            }
        }
        assert forall|i: int| 0 <= i < r.wanted.len() implies {
            let a = #[trigger] r.wanted[i];
            !settled(h, a, now) && r.asked.dom().contains(a) && r.asked[a] == now
        } by {
            if i < p.wanted.len() {
                assert(r.wanted[i] == p.wanted[i]);
            } else {
                assert(!settled(p, last, now));
            }
        }
    }
}

proof fn seeking_rests(
    h: Hunt,
    addresses: Seq<Seq<char>>,
    disk: Map<Seq<char>, String>,
    now: u64,
)
    requires
        forall|i: int| 0 <= i < addresses.len() ==> settled(h, #[trigger] addresses[i], now),
    ensures
        sought_all(h, addresses, disk, now) == h,
    decreases addresses.len(),
{
    if addresses.len() > 0 {
        let rest = addresses.drop_last();
        assert forall|i: int| 0 <= i < rest.len() implies settled(h, #[trigger] rest[i], now) by {
            assert(rest[i] == addresses[i]);
        }
        seeking_rests(h, rest, disk, now);
        assert(settled(h, addresses[addresses.len() - 1], now));
    }
}

/// Lists put behind one another.
pub open spec fn joined(lists: Seq<Seq<Seq<char>>>) -> Seq<Seq<char>>
    decreases lists.len(),
{
    if lists.len() == 0 {
        Seq::empty()
    } else {
        lists[0] + joined(lists.drop_first())
    }
}

/// Pieces hold at least one item and at most as many as they may, and put together
/// they are the list.
pub proof fn batches_cover(s: Seq<Seq<char>>, size: nat)
    requires
        size > 0,
    ensures
        joined(batches(s, size)) == s,
        forall|i: int|
            0 <= i < batches(s, size).len() ==> 0 < (#[trigger] batches(s, size)[i]).len() <= size,
    decreases s.len(),
{
    let all = batches(s, size);
    if s.len() == 0 {
        assert(joined(all) =~= s);
    } else if s.len() <= size {
        assert(all.drop_first() =~= Seq::empty());
        assert(joined(all.drop_first()) =~= Seq::empty());
        assert(joined(all) =~= s);
    } else {
        let head = s.take(size as int);
        let tail = s.skip(size as int);
        batches_cover(tail, size);
        assert(all.drop_first() =~= batches(tail, size));
        assert(joined(all) =~= s);
        assert forall|i: int| 0 <= i < all.len() implies 0 < (#[trigger] all[i]).len() <= size by {
            if i > 0 {
                assert(all[i] == batches(tail, size)[i - 1]);
            }
        }
    }
}

/// Over everything that is asked for at once, emojis and other pictures together, no
/// address stands twice, none is held and none was asked for a moment ago, and each
/// counts as asked for from now on. A request names at most sixteen emojis or eight
/// other pictures. Asking again at the same moment asks for nothing.
pub proof fn pictures_are_asked_for_once(
    o: AppState,
    disk: Map<Seq<char>, String>,
    now: u64,
    n: AppState,
    r: Seq<ClientMessage>,
    disk_later: Map<Seq<char>, String>,
    n_later: AppState,
    r_later: Seq<ClientMessage>,
)
    requires
        resolved(o, disk, now, n, r),
        resolved(n, disk_later, now, n_later, r_later),
    ensures
        ({
            let first = emojis_sought(o, disk, now).wanted;
            let second = pictures_sought(o, disk, now).wanted;
            let emoji = batches(first, EMOJI_PER_REQUEST as nat);
            let other = batches(second, IMAGES_PER_REQUEST as nat);
            &&& requests_due(o, disk, now) == emoji + other
            &&& joined(emoji) == first && joined(other) == second
            &&& (first + second).no_duplicates()
            &&& forall|i: int|
                0 <= i < (first + second).len() ==> {
                    let a = #[trigger] (first + second)[i];
                    &&& !o.emoji_images@.dom().contains(a)
                    &&& !in_flight(o.emoji_requested@, a, now)
                    &&& n.emoji_requested@.dom().contains(a) && n.emoji_requested@[a] == now
                }
            &&& forall|i: int|
                0 <= i < emoji.len() ==> 0 < (#[trigger] emoji[i]).len() <= EMOJI_PER_REQUEST
            &&& forall|i: int|
                0 <= i < other.len() ==> 0 < (#[trigger] other[i]).len() <= IMAGES_PER_REQUEST
        }),
        r_later.len() == 0,
        n_later.emoji_images@ == n.emoji_images@,
        n_later.emoji_requested@ == n.emoji_requested@,
{
    let start = hunt_in(o, Seq::empty());
    let emojis = emoji_seq(o.guild_emojis.list());
    let named = named_pictures(o);
    let none = Map::<Seq<char>, String>::empty();
    let h1 = emojis_sought(o, disk, now);
    let mid = Hunt { wanted: Seq::empty(), ..h1 };
    let h2 = pictures_sought(o, disk, now);
    asked_once(start, emojis, disk, now);
    asked_once(mid, named, none, now);
    seeking_settles(start, emojis, disk, now);
    seeking_settles(mid, named, none, now);
    batches_cover(h1.wanted, EMOJI_PER_REQUEST as nat);
    batches_cover(h2.wanted, IMAGES_PER_REQUEST as nat);
    let both = h1.wanted + h2.wanted;
    assert forall|i: int| 0 <= i < both.len() implies {
        let a = #[trigger] both[i];
        &&& !o.emoji_images@.dom().contains(a)
        &&& !in_flight(o.emoji_requested@, a, now)
        &&& n.emoji_requested@.dom().contains(a) && n.emoji_requested@[a] == now
    } by {
        if i < h1.wanted.len() {
            let a = h1.wanted[i];
            assert(!settled(start, a, now));
            assert(h1.asked.dom().contains(a) && h1.asked[a] == now);
            assert(mid.asked.dom().contains(a) && mid.asked[a] == now);
            assert(h2.asked.dom().contains(a));
        } else {
            let a = h2.wanted[i - h1.wanted.len()];
            assert(!settled(mid, a, now));
            assert(settled(start, a, now) ==> settled(h1, a, now));
            assert(settled(h1, a, now) ==> settled(mid, a, now));
            assert(!settled(start, a, now));
        }
    }
    assert forall|i: int, j: int|
        0 <= i < both.len() && 0 <= j < both.len() && i != j implies both[i] != both[j] by {
        let m = h1.wanted.len() as int;
        if i < m && j >= m {
            assert(in_flight(h1.asked, h1.wanted[i], now));
            assert(settled(mid, h1.wanted[i], now));
            assert(!settled(mid, h2.wanted[j - m], now));
        } else if j < m && i >= m {
            assert(in_flight(h1.asked, h1.wanted[j], now));
            assert(settled(mid, h1.wanted[j], now));
            assert(!settled(mid, h2.wanted[i - m], now));
        }
    }
    let again = hunt_in(n, Seq::empty());
    assert forall|a: Seq<char>| settled(h2, a, now) implies #[trigger] settled(again, a, now) by {}
    assert forall|i: int| 0 <= i < emojis.len() implies settled(
        again,
        #[trigger] emojis[i],
        now,
    ) by {
        assert(settled(h1, emojis[i], now));
        assert(settled(mid, emojis[i], now));
        assert(settled(h2, emojis[i], now));
    }
    assert forall|i: int| 0 <= i < named.len() implies settled(again, #[trigger] named[i], now) by {
        assert(settled(h2, named[i], now));
    }
    assert(emoji_seq(n.guild_emojis.list()) == emojis);
    assert(named_pictures(n) == named);
    seeking_rests(again, emojis, disk_later, now);
    seeking_rests(again, named, none, now);
    assert(emojis_sought(n, disk_later, now) == again);
    assert(pictures_sought(n, disk_later, now) == again);
}

} // verus!
