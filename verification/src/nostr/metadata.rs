//! The name a key publishes for itself.
//!
//! It is a stranger's string and is treated like one: nothing invisible, nothing
//! that spans two lines, and no more of it than a row can show.

use crate::crypto::SecretKey;
use crate::json::{
    all_plain, field_views, json_member_str, json_single, json_string, member_str, object, quote,
};
use crate::nostr::event::{Event, sign_with, signed_with};
use crate::text::{chars_of, is_whitespace, opt_text, slice_text, white_space};
use vstd::prelude::*;
use vstd::string::*;

verus! {

/// The kind of a key's own description.
pub const KIND_METADATA: u16 = 0;

/// The longest name that is handed on.
pub const MAX_NAME_CHARS: usize = 48;

/// Characters that a reader cannot see and so cannot judge: direction marks and
/// overrides, the zero-width space and the byte order mark.
pub open spec fn invisible(c: char) -> bool {
    c == '\u{200B}' || c == '\u{200E}' || c == '\u{200F}' || ('\u{202A}' <= c && c <= '\u{202E}')
        || ('\u{2066}' <= c && c <= '\u{2069}') || c == '\u{FEFF}'
}

/// Whether a character is removed outright.
pub fn is_invisible(c: char) -> (r: bool)
    ensures
        r == invisible(c),
{
    c == '\u{200B}' || c == '\u{200E}' || c == '\u{200F}' || ('\u{202A}' <= c && c <= '\u{202E}')
        || ('\u{2066}' <= c && c <= '\u{2069}') || c == '\u{FEFF}'
}

/// The control codes.
pub open spec fn control(c: char) -> bool {
    c <= '\u{1F}' || ('\u{7F}' <= c && c <= '\u{9F}')
}

fn is_control(c: char) -> (r: bool)
    ensures
        r == control(c),
{
    c <= '\u{1F}' || ('\u{7F}' <= c && c <= '\u{9F}')
}

/// A text without invisible characters and control codes, in which each run of
/// whitespace is one blank, and none stands at the start.
pub open spec fn squeezed(s: Seq<char>) -> Seq<char>
    decreases s.len(),
{
    if s.len() == 0 {
        Seq::empty()
    } else {
        let before = squeezed(s.drop_last());
        let c = s.last();
        if invisible(c) {
            before
        } else if white_space(c) {
            if before.len() == 0 || before.last() == ' ' {
                before
            } else {
                before.push(' ')
            }
        } else if control(c) {
            before
        } else {
            before.push(c)
        }
    }
}

/// A text without a blank at its end.
pub open spec fn unblanked(s: Seq<char>) -> Seq<char> {
    if s.len() > 0 && s.last() == ' ' {
        s.drop_last()
    } else {
        s
    }
}

/// At most the first `MAX_NAME_CHARS` characters.
pub open spec fn cut(s: Seq<char>) -> Seq<char> {
    if s.len() <= MAX_NAME_CHARS {
        s
    } else {
        s.take(MAX_NAME_CHARS as int)
    }
}

/// The name that can be drawn for a published one: squeezed, with no blank left at
/// its end, and cut.
pub open spec fn drawable(raw: Seq<char>) -> Seq<char> {
    cut(unblanked(squeezed(raw)))
}

proof fn squeezed_grows(s: Seq<char>, n: int)
    requires
        0 <= n <= s.len(),
    ensures
        squeezed(s.take(n)).len() <= squeezed(s).len(),
        squeezed(s.take(n)) == squeezed(s).take(squeezed(s.take(n)).len() as int),
    decreases s.len() - n,
{
    if n < s.len() {
        squeezed_grows(s, n + 1);
        let a = squeezed(s.take(n));
        let b = squeezed(s.take(n + 1));
        assert(s.take(n + 1).drop_last() =~= s.take(n));
        assert(a =~= b.take(a.len() as int));
        assert(squeezed(s).take(b.len() as int).take(a.len() as int) =~= squeezed(s).take(
            a.len() as int,
        ));
    } else {
        assert(s.take(n) =~= s);
        assert(squeezed(s).take(squeezed(s).len() as int) =~= squeezed(s));
    }
}

proof fn cut_there(all: Seq<char>, i: int, out: Seq<char>)
    requires
        0 <= i < all.len(),
        !invisible(all[i]) && !white_space(all[i]) && !control(all[i]),
        out.len() == MAX_NAME_CHARS,
        squeezed(all.take(i)) == out || squeezed(all.take(i)) == out.push(' '),
    ensures
        out == drawable(all),
{
    let part = squeezed(all.take(i));
    let whole = squeezed(all);
    let m = MAX_NAME_CHARS as int;
    assert(all.take(i + 1).drop_last() =~= all.take(i));
    assert(squeezed(all.take(i + 1)) == part.push(all[i]));
    squeezed_grows(all, i + 1);
    let longer = part.push(all[i]);
    assert(whole.len() > m);
    assert(unblanked(whole).len() >= m);
    assert(unblanked(whole).take(m) =~= whole.take(m));
    assert(whole.take(longer.len() as int).take(m) =~= whole.take(m));
    assert(longer.take(m) =~= out);
    if unblanked(whole).len() == m {
        assert(unblanked(whole) =~= unblanked(whole).take(m));
    }
}

/// Turns a published name into one that can be drawn, or nothing when nothing is
/// left of it.
pub fn sanitize(raw: &str) -> (r: Option<String>)
    ensures
        opt_text(r) == if drawable(raw@).len() == 0 {
            None
        } else {
            Some(drawable(raw@))
        },
{
    let mut out: Vec<char> = Vec::new();
    let mut pending_space: bool = false;
    let cs: Vec<char> = chars_of(raw);
    let mut i: usize = 0;
    let ghost all = raw@;
    let ghost mut full = false;
    assert(all.take(0) =~= Seq::empty());
    while i < cs.len()
        invariant_except_break
            !full,
        invariant
            !full ==> squeezed(all.take(i as int)) =~= if pending_space {
                out@.push(' ')
            } else {
                out@
            },
            full ==> out@ == drawable(all),
            cs@ == all,
            i <= cs@.len(),
            out@.len() <= MAX_NAME_CHARS,
            pending_space ==> out@.len() > 0,
            !full && out@.len() > 0 ==> out@.last() != ' ',
        ensures
            full || i == cs@.len(),
        decreases cs@.len() - i,
    {
        let c: char = cs[i];
        proof {
            assert(all.take(i + 1).drop_last() =~= all.take(i as int));
            assert(all.take(i + 1).last() == c);
        }
        if is_invisible(c) {
            i = i + 1;
            continue;
        }
        if is_whitespace(c) {
            pending_space = out.len() > 0;
            i = i + 1;
            continue;
        }
        if is_control(c) {
            i = i + 1;
            continue;
        }
        if out.len() >= MAX_NAME_CHARS {
            proof {
                cut_there(all, i as int, out@);
                full = true;
            }
            break;
        }
        if pending_space {
            out.push(' ');
            pending_space = false;
            if out.len() >= MAX_NAME_CHARS {
                proof {
                    cut_there(all, i as int, out@);
                    full = true;
                }
                break;
            }
        }
        out.push(c);
        i = i + 1;
    }
    proof {
        if !full {
            assert(all.take(i as int) =~= all);
            assert(out@.push(' ').drop_last() =~= out@);
            assert(out@.push(' ').take(out@.len() as int) =~= out@);
        }
    }
    if out.len() == 0 {
        None
    } else {
        let text: String = slice_text(&out, 0, out.len());
        assert(out@.subrange(0, out@.len() as int) =~= out@);
        Some(text)
    }
}

/// A drawn name is at most the cap long, shows no invisible character and no
/// control code, and has no whitespace but single blanks: none at its start, and one at
/// its end only where it was cut.
pub proof fn drawable_is_tame(raw: Seq<char>)
    ensures
        drawable(raw).len() <= MAX_NAME_CHARS,
        forall|i: int|
            0 <= i < drawable(raw).len() ==> {
                let c = #[trigger] drawable(raw)[i];
                !invisible(c) && (c == ' ' || (!white_space(c) && !control(c)))
            },
        drawable(raw).len() > 0 ==> drawable(raw)[0] != ' ',
        0 < drawable(raw).len() < MAX_NAME_CHARS ==> drawable(raw).last() != ' ',
        forall|i: int|
            0 < i < drawable(raw).len() && (#[trigger] drawable(raw)[i]) == ' ' ==> drawable(
                raw,
            )[i - 1] != ' ',
{
    squeezed_is_tame(raw);
    let q = squeezed(raw);
    let d = drawable(raw);
    assert forall|i: int| 0 <= i < d.len() implies #[trigger] d[i] == q[i] by {}
    if 0 < d.len() < MAX_NAME_CHARS && d.last() == ' ' {
        let k = d.len() as int;
        assert(d == unblanked(q));
        assert(q.len() == k + 1 && q.last() == ' ');
        assert(q[k] == ' ' && q[k - 1] == ' ');
    }
}

proof fn squeezed_is_tame(s: Seq<char>)
    ensures
        forall|i: int|
            0 <= i < squeezed(s).len() ==> {
                let c = #[trigger] squeezed(s)[i];
                !invisible(c) && (c == ' ' || (!white_space(c) && !control(c)))
            },
        squeezed(s).len() > 0 ==> squeezed(s)[0] != ' ',
        forall|i: int|
            0 < i < squeezed(s).len() && (#[trigger] squeezed(s)[i]) == ' ' ==> squeezed(s)[i - 1]
                != ' ',
    decreases s.len(),
{
    if s.len() > 0 {
        squeezed_is_tame(s.drop_last());
    }
}

/// The first usable name among three members of an object, the one its owner
/// would rather be called by first.
pub open spec fn published_name(content: Seq<char>) -> Option<Seq<char>> {
    let first = usable(json_member_str(content, "display_name"@));
    let second = usable(json_member_str(content, "displayName"@));
    if first is Some {
        first
    } else if second is Some {
        second
    } else {
        usable(json_member_str(content, "name"@))
    }
}

/// The drawable form of a name, where one is left.
pub open spec fn usable(name: Option<Seq<char>>) -> Option<Seq<char>> {
    match name {
        None => None,
        Some(raw) => if drawable(raw).len() == 0 {
            None
        } else {
            Some(drawable(raw))
        },
    }
}

fn usable_name(name: Option<String>) -> (r: Option<String>)
    ensures
        opt_text(r) == usable(opt_text(name)),
{
    match name {
        None => None,
        Some(raw) => sanitize(raw.as_str()),
    }
}

/// The name that one of three candidate members gives, in order of preference.
pub fn preferred_name(
    display_name: Option<String>,
    legacy: Option<String>,
    handle: Option<String>,
) -> (r: Option<String>)
    ensures
        opt_text(r) == if usable(opt_text(display_name)) is Some {
            usable(opt_text(display_name))
        } else if usable(opt_text(legacy)) is Some {
            usable(opt_text(legacy))
        } else {
            usable(opt_text(handle))
        },
{
    let first: Option<String> = usable_name(display_name);
    if first.is_some() {
        return first;
    }
    let second: Option<String> = usable_name(legacy);
    if second.is_some() {
        return second;
    }
    usable_name(handle)
}

proof fn name_keys()
    ensures
        all_plain("name"@),
        "display_name"@ != "name"@,
        "displayName"@ != "name"@,
{
    reveal_strlit("name");
    reveal_strlit("display_name");
    reveal_strlit("displayName");
    assert("display_name"@.len() != "name"@.len());
    assert("displayName"@.len() != "name"@.len());
}

/// The description that a key publishes of itself: its name and nothing else.
pub open spec fn own_description(display_name: Seq<char>) -> Seq<char> {
    json_single("name"@, display_name)
}

/// Publishes the name that a key goes by, so that others read more than the key.
pub fn own_metadata_event(secret: &SecretKey, display_name: &str, now: i64) -> (r: Event)
    ensures
        signed_with(r, secret@),
        r.verifies(),
        r.created_at == now,
        r.kind == KIND_METADATA,
        r.tags@.len() == 0,
        r.content@ == own_description(display_name@),
{
    let mut fields: Vec<(&str, String)> = Vec::new();
    fields.push(("name", quote(display_name)));
    assert(field_views(fields@) =~= seq![("name"@, json_string(display_name@))]);
    sign_with(secret, now, KIND_METADATA, Vec::new(), object(&fields))
}

/// The name in an event of the right kind. A name that a key published with
/// `own_metadata_event` is read as that name, in its drawable form.
pub fn name_from(event: &Event) -> (r: Option<String>)
    ensures
        opt_text(r) == if event.kind == KIND_METADATA {
            published_name(event.content@)
        } else {
            None
        },
        forall|name: Seq<char>|
            event.kind == KIND_METADATA && #[trigger] own_description(name) == event.content@
                ==> opt_text(r) == usable(Some(name)),
{
    if event.kind != KIND_METADATA {
        return None;
    }
    let content: &str = event.content.as_str();
    proof {
        name_keys();
    }
    preferred_name(
        member_str(content, "display_name"),
        member_str(content, "displayName"),
        member_str(content, "name"),
    )
}

} // verus!
