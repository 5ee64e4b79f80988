//! The servers a key can go to.

use crate::text::{begins_with, skip, starts_with};
use vstd::prelude::*;
use vstd::string::*;

verus! {

/// How a session is reached.
#[derive(Debug, Clone, PartialEq, Eq)]
pub enum SessionMode {
    Remote { server_url: String },
    SelfHost {
        allow_lan: bool,
        rendezvous_url: Option<String>,
        publish_name: String,
        description: String,
        publish_public: bool,
    },
    ByCode { rendezvous_url: String, code: String },
}

/// A text without a prefix, however often it stands in front.
pub open spec fn stripped(s: Seq<char>, p: Seq<char>) -> Seq<char>
    decreases s.len(),
{
    if p.len() > 0 && begins_with(s, p) {
        stripped(s.skip(p.len() as int), p)
    } else {
        s
    }
}

fn strip_all(s: &str, p: &str) -> (r: String)
    ensures
        r@ == stripped(s@, p@),
    decreases s@.len(),
{
    let n: usize = p.unicode_len();
    if n > 0 && starts_with(s, p) {
        let rest: String = skip(s, n);
        strip_all(rest.as_str(), p)
    } else {
        s.to_owned()
    }
}

/// The part of a server's label that tells it from the others.
pub fn short_label(mode: &SessionMode) -> (r: String)
    ensures
        r@ == match *mode {
            SessionMode::Remote { server_url } => stripped(
                stripped(server_url@, "ws://"@),
                "wss://"@,
            ),
            SessionMode::SelfHost { .. } => "This machine"@,
            SessionMode::ByCode { code, .. } => code@,
        },
{
    match mode {
        SessionMode::Remote { server_url } => {
            let bare: String = strip_all(server_url.as_str(), "ws://");
            strip_all(bare.as_str(), "wss://")
        },
        SessionMode::SelfHost { .. } => "This machine".to_owned(),
        SessionMode::ByCode { code, .. } => code.clone(),
    }
}

/// The letter on a server's tile: the first of its label, an ASCII letter in upper
/// case.
pub fn tile_letter(label: &str) -> (r: char)
    ensures
        r == if label@.len() == 0 {
            '?'
        } else if 'a' <= label@[0] && label@[0] <= 'z' {
            (label@[0] as u32 - 32) as char
        } else {
            label@[0]
        },
{
    if label.unicode_len() == 0 {
        return '?';
    }
    let c: char = label.get_char(0);
    if 'a' <= c && c <= 'z' {
        (c as u8 - 32) as char
    } else {
        c
    }
}

} // verus!
