//! Events: their canonical form, their ids and their signatures.
//!
//! The canonical form is written by hand. Its escaping is the protocol's: seven
//! characters are escaped, and every other stands as it is.

use crate::crypto::{
    SecretKey, hex_bytes, hex_decode, hex_encode, hex_round_trip, hex_text, is_secret_key, on_curve,
    public_x, schnorr_accepts, schnorr_sign, schnorr_signature, schnorr_verify, sha256,
    sha256_digest, x_only_public_key,
};
use crate::json::{json_rows, json_string, quote, rows_text};
use crate::text::{
    decimal, decimal_int, decimal_int_text, decimal_text, opt_str, same, text_rows, texts, to_array,
};
use vstd::prelude::*;
use vstd::string::*;
use vstd::utf8::*;

verus! {

/// A signed event.
#[derive(Debug, Clone, PartialEq, Eq)]
pub struct Event {
    pub id: String,
    pub pubkey: String,
    pub created_at: i64,
    pub kind: u16,
    pub tags: Vec<Vec<String>>,
    pub content: String,
    pub sig: String,
}

/// An event that carries no signature, so that nobody can show who wrote it.
#[derive(Debug, Clone, PartialEq, Eq)]
pub struct Rumor {
    pub id: String,
    pub pubkey: String,
    pub created_at: i64,
    pub kind: u16,
    pub tags: Vec<Vec<String>>,
    pub content: String,
}

/// What stands for one character inside a canonical string.
pub open spec fn escaped_char(c: char) -> Seq<char> {
    if c == '"' {
        seq!['\\', '"']
    } else if c == '\\' {
        seq!['\\', '\\']
    } else if c == '\n' {
        seq!['\\', 'n']
    } else if c == '\r' {
        seq!['\\', 'r']
    } else if c == '\t' {
        seq!['\\', 't']
    } else if c == '\u{8}' {
        seq!['\\', 'b']
    } else if c == '\u{c}' {
        seq!['\\', 'f']
    } else {
        seq![c]
    }
}

/// A text with its characters escaped one by one.
pub open spec fn escaped(s: Seq<char>) -> Seq<char>
    decreases s.len(),
{
    if s.len() == 0 {
        Seq::empty()
    } else {
        escaped(s.drop_last()) + escaped_char(s.last())
    }
}

/// A text as a canonical string: escaped, between quotation marks.
pub open spec fn quoted(s: Seq<char>) -> Seq<char> {
    seq!['"'] + escaped(s) + seq!['"']
}

/// The first `n` strings of a list, quoted, with commas between them.
pub open spec fn quoted_items(row: Seq<Seq<char>>, n: int) -> Seq<char>
    decreases n,
{
    if n <= 0 {
        Seq::empty()
    } else if n == 1 {
        quoted(row[0])
    } else {
        quoted_items(row, n - 1) + seq![','] + quoted(row[n - 1])
    }
}

/// One tag in the canonical form.
pub open spec fn canonical_row(row: Seq<Seq<char>>) -> Seq<char> {
    seq!['['] + quoted_items(row, row.len() as int) + seq![']']
}

/// The first `n` tags, with commas between them.
pub open spec fn canonical_rows(rows: Seq<Seq<Seq<char>>>, n: int) -> Seq<char>
    decreases n,
{
    if n <= 0 {
        Seq::empty()
    } else if n == 1 {
        canonical_row(rows[0])
    } else {
        canonical_rows(rows, n - 1) + seq![','] + canonical_row(rows[n - 1])
    }
}

/// The array whose digest is an event's id.
pub open spec fn canonical_form(
    pubkey: Seq<char>,
    created_at: int,
    kind: nat,
    tags: Seq<Seq<Seq<char>>>,
    content: Seq<char>,
) -> Seq<char> {
    "[0,"@ + quoted(pubkey) + ","@ + decimal_int(created_at) + ","@ + decimal(kind) + ",["@
        + canonical_rows(tags, tags.len() as int) + "],"@ + quoted(content) + "]"@
}

/// The id of an event with these fields.
pub open spec fn id_text(
    pubkey: Seq<char>,
    created_at: int,
    kind: nat,
    tags: Seq<Seq<Seq<char>>>,
    content: Seq<char>,
) -> Seq<char> {
    hex_text(sha256(encode_utf8(canonical_form(pubkey, created_at, kind, tags, content))))
}

fn push_escaped(out: &mut String, c: char)
    ensures
        final(out)@ == old(out)@ + escaped_char(c),
{
    let ghost before = out@;
    if c == '"' {
        out.push('\\');
        out.push('"');
    } else if c == '\\' {
        out.push('\\');
        out.push('\\');
    } else if c == '\n' {
        out.push('\\');
        out.push('n');
    } else if c == '\r' {
        out.push('\\');
        out.push('r');
    } else if c == '\t' {
        out.push('\\');
        out.push('t');
    } else if c == '\u{8}' {
        out.push('\\');
        out.push('b');
    } else if c == '\u{c}' {
        out.push('\\');
        out.push('f');
    } else {
        out.push(c);
    }
    assert(out@ =~= before + escaped_char(c));
}

fn push_quoted(out: &mut String, s: &str)
    ensures
        final(out)@ == old(out)@ + quoted(s@),
{
    let ghost before = out@;
    out.push('"');
    for c in it: s.chars()
        invariant
            it.seq() == s@,
            out@ == before.push('"') + escaped(s@.take(it.index() as int)),
    {
        let ghost mid = out@;
        push_escaped(out, c);
        let ghost n = it.index() as int;
        assert(s@.take(n + 1).drop_last() =~= s@.take(n));
        assert(out@ =~= before.push('"') + escaped(s@.take(n + 1)));
    }
    assert(s@.take(s@.len() as int) =~= s@);
    out.push('"');
    assert(out@ =~= before + quoted(s@));
}

fn push_row(out: &mut String, row: &Vec<String>)
    ensures
        final(out)@ == old(out)@ + canonical_row(texts(row@)),
{
    let ghost before = out@;
    let ghost view = texts(row@);
    out.push('[');
    let mut i: usize = 0;
    while i < row.len()
        invariant
            i <= row@.len(),
            view == texts(row@),
            out@ =~= before.push('[') + quoted_items(view, i as int),
        decreases row@.len() - i,
    {
        if i > 0 {
            out.push(',');
        }
        push_quoted(out, row[i].as_str());
        i = i + 1;
    }
    out.push(']');
    assert(out@ =~= before + canonical_row(view));
}

/// The canonical form of an event's fields.
pub fn canonical(
    pubkey: &str,
    created_at: i64,
    kind: u16,
    tags: &[Vec<String>],
    content: &str,
) -> (r: String)
    ensures
        r@ == canonical_form(pubkey@, created_at as int, kind as nat, text_rows(tags@), content@),
{
    let ghost rows = text_rows(tags@);
    let mut out: String = "[0,".to_owned();
    push_quoted(&mut out, pubkey);
    out.append(",");
    out.append(decimal_int_text(created_at).as_str());
    out.append(",");
    out.append(decimal_text(kind as u64).as_str());
    out.append(",[");
    let ghost before = out@;
    let mut i: usize = 0;
    while i < tags.len()
        invariant
            i <= tags@.len(),
            rows == text_rows(tags@),
            out@ =~= before + canonical_rows(rows, i as int),
        decreases tags@.len() - i,
    {
        if i > 0 {
            out.push(',');
        }
        push_row(&mut out, &tags[i]);
        i = i + 1;
    }
    out.append("],");
    push_quoted(&mut out, content);
    out.append("]");
    out
}

/// The digest of the canonical form.
fn digest_of(
    pubkey: &str,
    created_at: i64,
    kind: u16,
    tags: &[Vec<String>],
    content: &str,
) -> (r: [u8; 32])
    ensures
        r@ == sha256(
            encode_utf8(
                canonical_form(
                    pubkey@,
                    created_at as int,
                    kind as nat,
                    text_rows(tags@),
                    content@,
                ),
            ),
        ),
{
    let text: String = canonical(pubkey, created_at, kind, tags, content);
    sha256_digest(text.as_str().as_bytes())
}

/// An event's id: the digest of its canonical form, in hexadecimal.
pub fn event_id(
    pubkey: &str,
    created_at: i64,
    kind: u16,
    tags: &[Vec<String>],
    content: &str,
) -> (r: String)
    ensures
        r@ == id_text(pubkey@, created_at as int, kind as nat, text_rows(tags@), content@),
        r@.len() == 64,
{
    hex_encode(digest_of(pubkey, created_at, kind, tags, content).as_slice())
}

/// A secret key's public name: the x coordinate of its point, in hexadecimal.
pub fn xonly_hex(secret: &SecretKey) -> (r: String)
    ensures
        r@ == hex_text(public_x(secret@)),
        r@.len() == 64,
        is_secret_key(secret@) && on_curve(public_x(secret@)),
{
    hex_encode(x_only_public_key(secret.bytes()).as_slice())
}

/// The canonical form of an event.
pub open spec fn form_of(e: Event) -> Seq<char> {
    canonical_form(
        e.pubkey@,
        e.created_at as int,
        e.kind as nat,
        text_rows(e.tags@),
        e.content@,
    )
}

/// Whether an event is signed with a secret: its author is the secret's public half,
/// its id the digest of its fields, and its signature the secret's over that digest.
pub open spec fn signed_with(e: Event, secret: Seq<u8>) -> bool {
    let form = form_of(e);
    &&& e.pubkey@ == hex_text(public_x(secret))
    &&& e.id@ == hex_text(sha256(encode_utf8(form)))
    &&& e.sig@ == hex_text(schnorr_signature(secret, sha256(encode_utf8(form))))
}

/// Writes an event and signs it. What it makes always verifies.
pub fn sign_with(
    secret: &SecretKey,
    created_at: i64,
    kind: u16,
    tags: Vec<Vec<String>>,
    content: String,
) -> (r: Event)
    ensures
        signed_with(r, secret@),
        r.created_at == created_at,
        r.kind == kind,
        r.tags == tags,
        r.content == content,
        r.verifies(),
        r.pubkey@.len() == 64 && r.id@.len() == 64 && r.sig@.len() == 128,
{
    let pubkey: String = xonly_hex(secret);
    let digest: [u8; 32] = digest_of(
        pubkey.as_str(),
        created_at,
        kind,
        tags.as_slice(),
        content.as_str(),
    );
    let id: String = hex_encode(digest.as_slice());
    let key: &[u8] = secret.bytes();
    let sig: [u8; 64] = schnorr_sign(key, &digest);
    let sig_text: String = hex_encode(sig.as_slice());
    proof {
        hex_round_trip(digest@);
        hex_round_trip(sig@);
        hex_round_trip(public_x(secret@));
    }
    Event { id, pubkey, created_at, kind, tags, content, sig: sig_text }
}

/// Writes an event that is identified but not signed.
pub fn rumor(
    pubkey: &str,
    created_at: i64,
    kind: u16,
    tags: Vec<Vec<String>>,
    content: String,
) -> (r: Rumor)
    ensures
        r.pubkey@ == pubkey@,
        r.created_at == created_at,
        r.kind == kind,
        r.tags == tags,
        r.content == content,
        r.id@ == id_text(pubkey@, created_at as int, kind as nat, text_rows(tags@), content@),
        r.identified(),
{
    Rumor {
        id: event_id(pubkey, created_at, kind, tags.as_slice(), content.as_str()),
        pubkey: pubkey.to_owned(),
        created_at,
        kind,
        tags,
        content,
    }
}

/// The second string of the first tag that `name` opens.
pub open spec fn tag_value(rows: Seq<Seq<Seq<char>>>, name: Seq<char>) -> Option<Seq<char>>
    decreases rows.len(),
{
    if rows.len() == 0 {
        None
    } else if rows[0].len() > 0 && rows[0][0] == name {
        if rows[0].len() > 1 {
            Some(rows[0][1])
        } else {
            None
        }
    } else {
        tag_value(rows.drop_first(), name)
    }
}

/// Looks a tag up by the string that opens it.
pub fn find_tag<'a>(tags: &'a Vec<Vec<String>>, name: &str) -> (r: Option<&'a str>)
    ensures
        opt_str(r) == tag_value(text_rows(tags@), name@),
{
    let ghost rows = text_rows(tags@);
    let mut i: usize = 0;
    assert(rows.skip(0) =~= rows);
    while i < tags.len()
        invariant
            i <= tags@.len(),
            rows == text_rows(tags@),
            tag_value(rows, name@) == tag_value(rows.skip(i as int), name@),
        decreases tags@.len() - i,
    {
        let row: &Vec<String> = &tags[i];
        assert(rows.skip(i as int)[0] == texts(row@));
        assert(rows.skip(i as int).drop_first() =~= rows.skip(i + 1));
        if row.len() > 0 && same(row[0].as_str(), name) {
            if row.len() > 1 {
                return Some(row[1].as_str());
            }
            return None;
        }
        i = i + 1;
    }
    None
}

impl Event {
    /// Whether the id is the digest of the fields and the signature is the
    /// author's over it.
    pub open spec fn verifies(&self) -> bool {
        &&& self.id@ == id_text(
            self.pubkey@,
            self.created_at as int,
            self.kind as nat,
            text_rows(self.tags@),
            self.content@,
        )
        &&& hex_bytes(self.id@) matches Some(digest) && hex_bytes(self.sig@) matches Some(sig)
            && hex_bytes(self.pubkey@) matches Some(pubkey) && digest.len() == 32
            && schnorr_accepts(sig, digest, pubkey)
    }

    /// Checks the id and the signature.
    pub fn verify(&self) -> (r: bool)
        ensures
            r == self.verifies(),
    {
        let expected: String = event_id(
            self.pubkey.as_str(),
            self.created_at,
            self.kind,
            self.tags.as_slice(),
            self.content.as_str(),
        );
        if expected != self.id {
            return false;
        }
        match (
            hex_decode(self.id.as_str()),
            hex_decode(self.sig.as_str()),
            hex_decode(self.pubkey.as_str()),
        ) {
            (Ok(digest), Ok(sig), Ok(pubkey)) => {
                if digest.len() != 32 {
                    return false;
                }
                let digest: [u8; 32] = to_array(digest.as_slice());
                schnorr_verify(sig.as_slice(), &digest, pubkey.as_slice())
            },
            _ => false,
        }
    }

    /// The value of a tag.
    pub fn tag(&self, name: &str) -> (r: Option<&str>)
        ensures
            opt_str(r) == tag_value(text_rows(self.tags@), name@),
    {
        find_tag(&self.tags, name)
    }

    /// The event as a JSON object, its fields in order.
    pub open spec fn json(&self) -> Seq<char> {
        "{\"id\":"@ + json_string(self.id@) + ",\"pubkey\":"@ + json_string(self.pubkey@)
            + ",\"created_at\":"@ + decimal_int(self.created_at as int) + ",\"kind\":"@ + decimal(
            self.kind as nat,
        ) + ",\"tags\":"@ + json_rows(text_rows(self.tags@)) + ",\"content\":"@ + json_string(
            self.content@,
        ) + ",\"sig\":"@ + json_string(self.sig@) + "}"@
    }

    /// Writes the event as a JSON object.
    pub fn to_json(&self) -> (r: String)
        ensures
            r@ == self.json(),
    {
        "{\"id\":".to_owned().concat(quote(self.id.as_str()).as_str()).concat(
            ",\"pubkey\":",
        ).concat(quote(self.pubkey.as_str()).as_str()).concat(",\"created_at\":").concat(
            decimal_int_text(self.created_at).as_str(),
        ).concat(",\"kind\":").concat(decimal_text(self.kind as u64).as_str()).concat(
            ",\"tags\":",
        ).concat(rows_text(&self.tags).as_str()).concat(",\"content\":").concat(
            quote(self.content.as_str()).as_str(),
        ).concat(",\"sig\":").concat(quote(self.sig.as_str()).as_str()).concat("}")
    }
}

impl Rumor {
    /// Whether the id is the digest of the fields.
    pub open spec fn identified(&self) -> bool {
        self.id@ == id_text(
            self.pubkey@,
            self.created_at as int,
            self.kind as nat,
            text_rows(self.tags@),
            self.content@,
        )
    }

    /// The value of a tag.
    pub fn tag(&self, name: &str) -> (r: Option<&str>)
        ensures
            opt_str(r) == tag_value(text_rows(self.tags@), name@),
    {
        find_tag(&self.tags, name)
    }

    /// The rumor as a JSON object, its fields in order. It holds no signature.
    pub open spec fn json(&self) -> Seq<char> {
        "{\"id\":"@ + json_string(self.id@) + ",\"pubkey\":"@ + json_string(self.pubkey@)
            + ",\"created_at\":"@ + decimal_int(self.created_at as int) + ",\"kind\":"@ + decimal(
            self.kind as nat,
        ) + ",\"tags\":"@ + json_rows(text_rows(self.tags@)) + ",\"content\":"@ + json_string(
            self.content@,
        ) + "}"@
    }

    /// Writes the rumor as a JSON object.
    pub fn to_json(&self) -> (r: String)
        ensures
            r@ == self.json(),
    {
        "{\"id\":".to_owned().concat(quote(self.id.as_str()).as_str()).concat(
            ",\"pubkey\":",
        ).concat(quote(self.pubkey.as_str()).as_str()).concat(",\"created_at\":").concat(
            decimal_int_text(self.created_at).as_str(),
        ).concat(",\"kind\":").concat(decimal_text(self.kind as u64).as_str()).concat(
            ",\"tags\":",
        ).concat(rows_text(&self.tags).as_str()).concat(",\"content\":").concat(
            quote(self.content.as_str()).as_str(),
        ).concat("}")
    }
}

proof fn escaped_from_the_front(s: Seq<char>)
    requires
        s.len() > 0,
    ensures
        escaped(s) == escaped_char(s[0]) + escaped(s.drop_first()),
    decreases s.len(),
{
    let rest = s.drop_first();
    if s.len() == 1 {
        assert(s.drop_last() =~= Seq::empty());
        assert(rest =~= Seq::empty());
        assert(escaped(s) =~= escaped_char(s[0]) + escaped(rest));
    } else {
        escaped_from_the_front(s.drop_last());
        assert(s.drop_last().drop_first() =~= rest.drop_last());
        assert(escaped(s) =~= escaped_char(s[0]) + escaped(rest));
    }
}

proof fn escapes_differ(a: char, b: char, x: Seq<char>, y: Seq<char>)
    requires
        escaped_char(a) + x == escaped_char(b) + y,
    ensures
        a == b,
        x == y,
{
    let l = escaped_char(a) + x;
    let r = escaped_char(b) + y;
    assert(l[0] == escaped_char(a)[0]);
    assert(r[0] == escaped_char(b)[0]);
    if escaped_char(a).len() == 2 {
        assert(l[1] == escaped_char(a)[1]);
        assert(escaped_char(b).len() == 2);
        assert(r[1] == escaped_char(b)[1]);
    }
    assert(a == b);
    assert(l.skip(escaped_char(a).len() as int) =~= x);
    assert(r.skip(escaped_char(b).len() as int) =~= y);
}

proof fn escaping_tells_apart(a: Seq<char>, b: Seq<char>)
    requires
        escaped(a) == escaped(b),
    ensures
        a == b,
    decreases a.len(),
{
    if a.len() > 0 {
        escaped_from_the_front(a);
    }
    if b.len() > 0 {
        escaped_from_the_front(b);
    }
    if a.len() > 0 && b.len() > 0 {
        escapes_differ(a[0], b[0], escaped(a.drop_first()), escaped(b.drop_first()));
        escaping_tells_apart(a.drop_first(), b.drop_first());
        assert(a =~= seq![a[0]] + a.drop_first());
        assert(b =~= seq![b[0]] + b.drop_first());
    } else if a.len() > 0 {
        assert(escaped(a).len() > 0);
        assert(escaped(b).len() == 0);
    } else if b.len() > 0 {
        assert(escaped(b).len() > 0);
        assert(escaped(a).len() == 0);
    } else {
        assert(a =~= b);
    }
}

/// The canonical form tells contents apart: of two events alike but for their content,
/// each has a form of its own.
pub proof fn contents_are_told_apart(
    pubkey: Seq<char>,
    created_at: int,
    kind: nat,
    tags: Seq<Seq<Seq<char>>>,
    a: Seq<char>,
    b: Seq<char>,
)
    requires
        a != b,
    ensures
        canonical_form(pubkey, created_at, kind, tags, a) != canonical_form(
            pubkey,
            created_at,
            kind,
            tags,
            b,
        ),
{
    let head = "[0,"@ + quoted(pubkey) + ","@ + decimal_int(created_at) + ","@ + decimal(kind)
        + ",["@ + canonical_rows(tags, tags.len() as int) + "],"@;
    let l = canonical_form(pubkey, created_at, kind, tags, a);
    let r = canonical_form(pubkey, created_at, kind, tags, b);
    reveal_strlit("]");
    assert(l =~= head + seq!['"'] + escaped(a) + seq!['"', ']']);
    assert(r =~= head + seq!['"'] + escaped(b) + seq!['"', ']']);
    if l == r {
        let from = head.len() as int + 1;
        assert(l.subrange(from, l.len() - 2) =~= escaped(a));
        assert(r.subrange(from, r.len() - 2) =~= escaped(b));
        escaping_tells_apart(a, b);
    }
}

/// Whether two texts differ and have one digest all the same.
pub open spec fn collide(a: Seq<char>, b: Seq<char>) -> bool {
    a != b && sha256(encode_utf8(a)) == sha256(encode_utf8(b))
}

/// An event whose content was altered is refused: it verifies under its old id only
/// where two different texts have one digest.
pub proof fn altered_content_is_noticed(e: Event, altered: Event)
    requires
        e.verifies(),
        altered == (Event { content: altered.content, ..e }),
        altered.content@ != e.content@,
    ensures
        altered.verifies() ==> collide(form_of(e), form_of(altered)),
{
    contents_are_told_apart(
        e.pubkey@,
        e.created_at as int,
        e.kind as nat,
        text_rows(e.tags@),
        e.content@,
        altered.content@,
    );
    hex_round_trip(sha256(encode_utf8(form_of(e))));
    hex_round_trip(sha256(encode_utf8(form_of(altered))));
}

} // verus!
