//! Where this session's data goes: the legs it travels, how each is protected, and
//! the picture of them.

use crate::state::Transport;
use crate::text::{chars_of, decimal, decimal_int, decimal_int_text, decimal_text, opt_text};
use vstd::prelude::*;
use vstd::string::*;

verus! {

/// How protected a leg is.
#[derive(Debug, Clone, Copy, PartialEq, Eq, Structural)]
pub enum Seal {
    /// Nobody in the middle can read it, whoever forwards it included.
    EndToEnd,
    /// Encrypted on the wire, but an endpoint on the path can read it.
    InTransit,
    /// Not encrypted, because it never leaves this machine.
    Local,
}

impl Seal {
    /// The label and the colour of a seal.
    pub fn chip(self) -> (r: (&'static str, &'static str))
        ensures
            (r.0@, r.1@) == match self {
                Seal::EndToEnd => ("end to end"@, "var(--success)"@),
                Seal::InTransit => ("in transit"@, "var(--warn)"@),
                Seal::Local => ("stays local"@, "var(--text-muted)"@),
            },
    {
        match self {
            Seal::EndToEnd => ("end to end", "var(--success)"),
            Seal::InTransit => ("in transit", "var(--warn)"),
            Seal::Local => ("stays local", "var(--text-muted)"),
        }
    }

    /// The colour, the arrowhead and the dashes of an arrow.
    pub open spec fn stroke(&self) -> (Seq<char>, Seq<char>, Seq<char>) {
        match self {
            Seal::EndToEnd => ("var(--success)"@, "dxa-e2e"@, ""@),
            Seal::InTransit => ("var(--warn)"@, "dxa-tr"@, " stroke-dasharray=\"6 4\""@),
            Seal::Local => ("var(--text-muted)"@, "dxa-lo"@, " stroke-dasharray=\"2 3\""@),
        }
    }

    fn stroke_text(self) -> (r: (&'static str, &'static str, &'static str))
        ensures
            (r.0@, r.1@, r.2@) == self.stroke(),
    {
        match self {
            Seal::EndToEnd => ("var(--success)", "dxa-e2e", ""),
            Seal::InTransit => ("var(--warn)", "dxa-tr", " stroke-dasharray=\"6 4\""),
            Seal::Local => ("var(--text-muted)", "dxa-lo", " stroke-dasharray=\"2 3\""),
        }
    }
}

/// One way that data goes.
#[derive(Debug, Clone, PartialEq, Eq)]
pub struct Leg {
    pub what: &'static str,
    pub node: &'static str,
    pub where_to: String,
    pub seal: Seal,
    pub note: String,
    /// Whether this node holds the messages.
    pub holds_db: bool,
    /// Whether anything travels at all.
    pub travels: bool,
    /// A machine that is passed on the way.
    pub via: Option<String>,
}

/// One way that data goes, as mathematics.
pub struct LegView {
    pub what: Seq<char>,
    pub node: Seq<char>,
    pub where_to: Seq<char>,
    pub seal: Seal,
    pub note: Seq<char>,
    pub holds_db: bool,
    pub travels: bool,
    pub via: Option<Seq<char>>,
}

impl View for Leg {
    type V = LegView;

    open spec fn view(&self) -> LegView {
        LegView {
            what: self.what@,
            node: self.node@,
            where_to: self.where_to@,
            seal: self.seal,
            note: self.note@,
            holds_db: self.holds_db,
            travels: self.travels,
            via: opt_text(self.via),
        }
    }
}

/// The legs of a list.
pub open spec fn leg_views(legs: Seq<Leg>) -> Seq<LegView> {
    legs.map_values(|l: Leg| l@)
}

/// What stands for a character in markup.
pub open spec fn markup_char(c: char) -> Seq<char> {
    if c == '&' {
        "&amp;"@
    } else if c == '<' {
        "&lt;"@
    } else if c == '>' {
        "&gt;"@
    } else {
        seq![c]
    }
}

/// A text that markup shows as it is.
pub open spec fn markup(s: Seq<char>) -> Seq<char>
    decreases s.len(),
{
    if s.len() == 0 {
        Seq::empty()
    } else {
        markup(s.drop_last()) + markup_char(s.last())
    }
}

/// Makes a text that markup shows as it is.
pub fn esc(raw: &str) -> (r: String)
    ensures
        r@ == markup(raw@),
{
    let cs: Vec<char> = chars_of(raw);
    let mut out: String = String::new();
    let mut i: usize = 0;
    assert(cs@.take(0) =~= Seq::empty());
    while i < cs.len()
        invariant
            i <= cs@.len(),
            cs@ == raw@,
            out@ == markup(cs@.take(i as int)),
        decreases cs@.len() - i,
    {
        let c: char = cs[i];
        let ghost before = out@;
        assert(cs@.take(i + 1).drop_last() =~= cs@.take(i as int));
        if c == '&' {
            out.append("&amp;");
        } else if c == '<' {
            out.append("&lt;");
        } else if c == '>' {
            out.append("&gt;");
        } else {
            out.push(c);
            assert(out@ =~= before + seq![c]);
        }
        i = i + 1;
    }
    assert(cs@.take(i as int) =~= raw@);
    out
}

/// Whatever a text says, it cannot close the tag it lands in: no angle bracket is
/// left of it.
pub proof fn markup_is_tame(s: Seq<char>)
    ensures
        forall|i: int|
            0 <= i < markup(s).len() ==> (#[trigger] markup(s)[i]) != '<' && markup(s)[i] != '>',
    decreases s.len(),
{
    reveal_strlit("&amp;");
    reveal_strlit("&lt;");
    reveal_strlit("&gt;");
    if s.len() > 0 {
        markup_is_tame(s.drop_last());
        let head = markup(s.drop_last());
        let tail = markup_char(s.last());
        assert forall|i: int| 0 <= i < markup(s).len() implies (#[trigger] markup(s)[i]) != '<'
            && markup(s)[i] != '>' by {
            if i < head.len() {
                assert(markup(s)[i] == head[i]);
            } else {
                assert(markup(s)[i] == tail[i - head.len()]);
            }
        }
    }
}

/// A text cut to a length: its middle goes, so that its end is kept.
pub open spec fn shortened(s: Seq<char>, max: nat) -> Seq<char> {
    if s.len() <= max {
        s
    } else {
        let keep = if max == 0 {
            0int
        } else {
            (max - 1) / 2
        };
        s.take(keep) + "…"@ + s.skip(s.len() - keep)
    }
}

/// Cuts a text to a length, in the middle.
pub fn ellipsize(raw: &str, max: usize) -> (r: String)
    ensures
        r@ == shortened(raw@, max as nat),
{
    let count: usize = raw.unicode_len();
    if count <= max {
        return raw.to_owned();
    }
    let keep: usize = if max == 0 {
        0
    } else {
        (max - 1) / 2
    };
    let head: &str = raw.substring_char(0, keep);
    let tail: &str = raw.substring_char(count - keep, count);
    assert(raw@.subrange(0, keep as int) =~= raw@.take(keep as int));
    assert(raw@.subrange(count - keep, count as int) =~= raw@.skip(count - keep));
    head.to_owned().concat("…").concat(tail)
}

/// A text that was cut is no longer than asked, and keeps both its ends.
pub proof fn shortened_fits(s: Seq<char>, max: nat)
    requires
        max >= 1,
    ensures
        shortened(s, max).len() <= max,
        s.len() > max ==> {
            let keep = (max - 1) / 2;
            &&& shortened(s, max).take(keep) == s.take(keep)
            &&& shortened(s, max).skip(shortened(s, max).len() - keep) == s.skip(s.len() - keep)
        },
{
    reveal_strlit("…");
    if s.len() > max {
        let keep = (max - 1) / 2;
        let t = shortened(s, max);
        assert(t.take(keep) =~= s.take(keep));
        assert(t.skip(t.len() - keep) =~= s.skip(s.len() - keep));
    }
}

/// The head of the picture: its size, the arrowheads and our own box, in the middle
/// of `n` others.
pub open spec fn picture_head(n: int, you: Seq<char>) -> Seq<char> {
    let mid = 32 * n + 5;
    "<svg viewBox=\"0 0 460 "@ + decimal_int(64 * n + 10)
        + "\" width=\"100%\" xmlns=\"http://www.w3.org/2000/svg\">\n<defs>\n<marker id=\"dxa-e2e\" viewBox=\"0 0 8 8\" refX=\"7\" refY=\"4\" markerWidth=\"6\" markerHeight=\"6\" orient=\"auto\"><path d=\"M0,0 L8,4 L0,8 z\" fill=\"var(--success)\"/></marker>\n<marker id=\"dxa-tr\" viewBox=\"0 0 8 8\" refX=\"7\" refY=\"4\" markerWidth=\"6\" markerHeight=\"6\" orient=\"auto\"><path d=\"M0,0 L8,4 L0,8 z\" fill=\"var(--warn)\"/></marker>\n<marker id=\"dxa-lo\" viewBox=\"0 0 8 8\" refX=\"7\" refY=\"4\" markerWidth=\"6\" markerHeight=\"6\" orient=\"auto\"><path d=\"M0,0 L8,4 L0,8 z\" fill=\"var(--text-muted)\"/></marker>\n</defs>\n<rect x=\"8\" y=\""@
        + decimal_int(mid - 25)
        + "\" width=\"104\" height=\"50\" rx=\"9\" fill=\"var(--accent-soft)\" stroke=\"var(--accent)\"/>\n<text x=\"60\" y=\""@
        + decimal_int(mid - 1)
        + "\" text-anchor=\"middle\" font-size=\"12\" font-weight=\"700\" fill=\"var(--accent)\">You</text>\n<text x=\"60\" y=\""@
        + decimal_int(mid + 12)
        + "\" text-anchor=\"middle\" font-size=\"9\" fill=\"var(--text-muted)\">"@ + markup(you)
        + "</text>\n"@
}

/// What is said under our own box when something stays in it.
pub open spec fn picture_caption(n: int) -> Seq<char> {
    "<text x=\"60\" y=\""@ + decimal_int(32 * n + 43)
        + "\" text-anchor=\"middle\" font-size=\"8.5\" fill=\"var(--text-dim)\">your key never leaves</text>\n"@
}

/// The arrow and the box of the leg at place `i` of `n`.
pub open spec fn picture_leg(n: int, i: int, leg: LegView) -> Seq<char> {
    let mid = 32 * n + 5;
    let cy = 37 + 64 * i;
    let (stroke, marker, dash) = leg.seal.stroke();
    "<path d=\"M112,"@ + decimal_int(mid) + " C158,"@ + decimal_int(mid) + " 168,"@ + decimal_int(
        cy,
    ) + " 210,"@ + decimal_int(cy) + "\" fill=\"none\" stroke=\""@ + stroke
        + "\" stroke-width=\"1.8\""@ + dash + " marker-end=\"url(#"@ + marker
        + ")\"/>\n<rect x=\"214\" y=\""@ + decimal_int(cy - 25)
        + "\" width=\"238\" height=\"50\" rx=\"9\" fill=\"var(--panel2)\" stroke=\""@ + stroke
        + "\" stroke-opacity=\"0.5\"/>\n<text x=\"333\" y=\""@ + decimal_int(cy - 2)
        + "\" text-anchor=\"middle\" font-size=\"11\" font-weight=\"600\" fill=\"var(--text)\">"@
        + markup(leg.what) + "</text>\n<text x=\"333\" y=\""@ + decimal_int(cy + 12)
        + "\" text-anchor=\"middle\" font-size=\"9\" fill=\"var(--text-muted)\">"@ + markup(
        leg.node,
    ) + " · "@ + markup(shortened(leg.where_to, 28)) + "</text>\n"@
}

/// A number of tenths as a decimal.
pub open spec fn tenths(t: nat) -> Seq<char> {
    if t % 10 == 0 {
        decimal(t / 10)
    } else {
        decimal(t / 10) + "."@ + decimal(t % 10)
    }
}

/// The width of a pill around a label of `k` characters, in tenths: 4.6 for each
/// and 8 around them, 88 at most.
pub open spec fn pill_width(k: nat) -> nat {
    if 80 + 46 * k <= 880 {
        80 + 46 * k
    } else {
        880
    }
}

/// The width of a pill as it is written. It is computed in binary fractions, in which
/// 4.6 has no exact form, so that some widths come out a hair short.
pub open spec fn pill_width_text(k: nat) -> Seq<char> {
    if k == 3 {
        "21.799999999999997"@
    } else if k == 6 {
        "35.599999999999994"@
    } else if k == 7 {
        "40.199999999999996"@
    } else if k == 11 {
        "58.599999999999994"@
    } else if k == 12 {
        "63.199999999999996"@
    } else if k == 14 {
        "72.39999999999999"@
    } else if k == 17 {
        "86.19999999999999"@
    } else {
        tenths(pill_width(k))
    }
}

/// The left edge of a pill as it is written: half its width before the middle, a hair
/// off in one case.
pub open spec fn pill_left_text(k: nat) -> Seq<char> {
    if k == 14 {
        "126.80000000000001"@
    } else {
        tenths((1630 - pill_width(k) as int / 2) as nat)
    }
}

/// The pill on an arrow that names what is passed on the way.
pub open spec fn picture_hop(n: int, i: int, seal: Seal, via: Seq<char>) -> Seq<char> {
    let label = shortened(via, 18);
    let vy = 16 * n + 21 + 32 * i;
    let k = label.len();
    "<rect x=\""@ + pill_left_text(k) + "\" y=\""@ + decimal_int(vy - 8)
        + ".5\" width=\""@ + pill_width_text(k)
        + "\" height=\"15\" rx=\"7.5\" fill=\"var(--panel-solid)\" stroke=\""@ + seal.stroke().0
        + "\" stroke-opacity=\"0.55\"/>\n<text x=\"163\" y=\""@ + decimal_int(vy + 3)
        + "\" text-anchor=\"middle\" font-size=\"8\" fill=\"var(--text-muted)\">"@ + markup(label)
        + "</text>\n"@
}

/// The cylinder beside whoever holds the messages.
pub open spec fn picture_store(i: int) -> Seq<char> {
    let dy = 23 + 64 * i;
    "<g fill=\"none\" stroke=\"var(--text-dim)\" stroke-width=\"1.2\"><ellipse cx=\"435\" cy=\""@
        + decimal_int(dy) + "\" rx=\"7\" ry=\"2.6\"/><path d=\"M428,"@ + decimal_int(dy)
        + " v11 a7,2.6 0 0 0 14,0 v-11\"/></g>\n"@
}

/// Everything that is drawn for the leg at place `i` of `n`.
pub open spec fn picture_row(n: int, i: int, leg: LegView) -> Seq<char> {
    picture_leg(n, i, leg) + (match leg.via {
        Some(via) => picture_hop(n, i, leg.seal, via),
        None => Seq::empty(),
    }) + (if leg.holds_db {
        picture_store(i)
    } else {
        Seq::empty()
    })
}

/// The first `k` of `n` rows.
pub open spec fn picture_rows(n: int, legs: Seq<LegView>, k: int) -> Seq<char>
    decreases k,
{
    if k <= 0 {
        Seq::empty()
    } else {
        picture_rows(n, legs, k - 1) + picture_row(n, k - 1, legs[k - 1])
    }
}

/// The legs on which something travels.
pub open spec fn is_travelling() -> spec_fn(LegView) -> bool {
    |l: LegView| l.travels
}

/// The picture: one box and one arrow for each leg on which something travels, and
/// a line for what stays.
pub open spec fn picture(legs: Seq<LegView>, you: Seq<char>) -> Seq<char> {
    let moving = legs.filter(is_travelling());
    let n = moving.len() as int;
    picture_head(n, you) + (if moving.len() < legs.len() {
        picture_caption(n)
    } else {
        Seq::empty()
    }) + picture_rows(n, moving, n) + "</svg>"@
}

fn tenths_text(t: u64) -> (r: String)
    ensures
        r@ == tenths(t as nat),
{
    if t % 10 == 0 {
        decimal_text(t / 10)
    } else {
        decimal_text(t / 10).concat(".").concat(decimal_text(t % 10).as_str())
    }
}

fn head_text(n: i64, you: &str) -> (r: String)
    requires
        0 <= n <= 0xffff_ffff,
    ensures
        r@ == picture_head(n as int, you@),
{
    let mid: i64 = 32 * n + 5;
    "<svg viewBox=\"0 0 460 ".to_owned().concat(decimal_int_text(64 * n + 10).as_str()).concat(
        "\" width=\"100%\" xmlns=\"http://www.w3.org/2000/svg\">\n<defs>\n<marker id=\"dxa-e2e\" viewBox=\"0 0 8 8\" refX=\"7\" refY=\"4\" markerWidth=\"6\" markerHeight=\"6\" orient=\"auto\"><path d=\"M0,0 L8,4 L0,8 z\" fill=\"var(--success)\"/></marker>\n<marker id=\"dxa-tr\" viewBox=\"0 0 8 8\" refX=\"7\" refY=\"4\" markerWidth=\"6\" markerHeight=\"6\" orient=\"auto\"><path d=\"M0,0 L8,4 L0,8 z\" fill=\"var(--warn)\"/></marker>\n<marker id=\"dxa-lo\" viewBox=\"0 0 8 8\" refX=\"7\" refY=\"4\" markerWidth=\"6\" markerHeight=\"6\" orient=\"auto\"><path d=\"M0,0 L8,4 L0,8 z\" fill=\"var(--text-muted)\"/></marker>\n</defs>\n<rect x=\"8\" y=\"",
    ).concat(decimal_int_text(mid - 25).as_str()).concat(
        "\" width=\"104\" height=\"50\" rx=\"9\" fill=\"var(--accent-soft)\" stroke=\"var(--accent)\"/>\n<text x=\"60\" y=\"",
    ).concat(decimal_int_text(mid - 1).as_str()).concat(
        "\" text-anchor=\"middle\" font-size=\"12\" font-weight=\"700\" fill=\"var(--accent)\">You</text>\n<text x=\"60\" y=\"",
    ).concat(decimal_int_text(mid + 12).as_str()).concat(
        "\" text-anchor=\"middle\" font-size=\"9\" fill=\"var(--text-muted)\">",
    ).concat(esc(you).as_str()).concat("</text>\n")
}

fn caption_text(n: i64) -> (r: String)
    requires
        0 <= n <= 0xffff_ffff,
    ensures
        r@ == picture_caption(n as int),
{
    "<text x=\"60\" y=\"".to_owned().concat(decimal_int_text(32 * n + 43).as_str()).concat(
        "\" text-anchor=\"middle\" font-size=\"8.5\" fill=\"var(--text-dim)\">your key never leaves</text>\n",
    )
}

fn leg_text(n: i64, i: i64, leg: &Leg) -> (r: String)
    requires
        0 <= n <= 0xffff_ffff,
        0 <= i <= 0xffff_ffff,
    ensures
        r@ == picture_leg(n as int, i as int, leg@),
{
    let mid: i64 = 32 * n + 5;
    let cy: i64 = 37 + 64 * i;
    let (stroke, marker, dash) = leg.seal.stroke_text();
    "<path d=\"M112,".to_owned().concat(decimal_int_text(mid).as_str()).concat(" C158,").concat(
        decimal_int_text(mid).as_str(),
    ).concat(" 168,").concat(decimal_int_text(cy).as_str()).concat(" 210,").concat(
        decimal_int_text(cy).as_str(),
    ).concat("\" fill=\"none\" stroke=\"").concat(stroke).concat(
        "\" stroke-width=\"1.8\"",
    ).concat(dash).concat(" marker-end=\"url(#").concat(marker).concat(
        ")\"/>\n<rect x=\"214\" y=\"",
    ).concat(decimal_int_text(cy - 25).as_str()).concat(
        "\" width=\"238\" height=\"50\" rx=\"9\" fill=\"var(--panel2)\" stroke=\"",
    ).concat(stroke).concat("\" stroke-opacity=\"0.5\"/>\n<text x=\"333\" y=\"").concat(
        decimal_int_text(cy - 2).as_str(),
    ).concat(
        "\" text-anchor=\"middle\" font-size=\"11\" font-weight=\"600\" fill=\"var(--text)\">",
    ).concat(esc(leg.what).as_str()).concat("</text>\n<text x=\"333\" y=\"").concat(
        decimal_int_text(cy + 12).as_str(),
    ).concat("\" text-anchor=\"middle\" font-size=\"9\" fill=\"var(--text-muted)\">").concat(
        esc(leg.node).as_str(),
    ).concat(" · ").concat(
        esc(ellipsize(leg.where_to.as_str(), 28).as_str()).as_str(),
    ).concat("</text>\n")
}

fn pill_tenths(k: u64) -> (r: u64)
    ensures
        r == pill_width(k as nat),
{
    if k <= 17 {
        80 + 46 * k
    } else {
        880
    }
}

fn pill_width_written(k: u64) -> (r: String)
    ensures
        r@ == pill_width_text(k as nat),
{
    if k == 3 {
        "21.799999999999997".to_owned()
    } else if k == 6 {
        "35.599999999999994".to_owned()
    } else if k == 7 {
        "40.199999999999996".to_owned()
    } else if k == 11 {
        "58.599999999999994".to_owned()
    } else if k == 12 {
        "63.199999999999996".to_owned()
    } else if k == 14 {
        "72.39999999999999".to_owned()
    } else if k == 17 {
        "86.19999999999999".to_owned()
    } else {
        tenths_text(pill_tenths(k))
    }
}

fn pill_left(k: u64) -> (r: String)
    ensures
        r@ == pill_left_text(k as nat),
{
    if k == 14 {
        "126.80000000000001".to_owned()
    } else {
        tenths_text(1630 - pill_tenths(k) / 2)
    }
}

fn hop_text(n: i64, i: i64, seal: Seal, via: &str) -> (r: String)
    requires
        0 <= n <= 0xffff_ffff,
        0 <= i <= 0xffff_ffff,
    ensures
        r@ == picture_hop(n as int, i as int, seal, via@),
{
    let label: String = ellipsize(via, 18);
    let vy: i64 = 16 * n + 21 + 32 * i;
    let k: u64 = label.as_str().unicode_len() as u64;
    let (stroke, _, _) = seal.stroke_text();
    "<rect x=\"".to_owned().concat(pill_left(k).as_str()).concat("\" y=\"").concat(
        decimal_int_text(vy - 8).as_str(),
    ).concat(".5\" width=\"").concat(pill_width_written(k).as_str()).concat(
        "\" height=\"15\" rx=\"7.5\" fill=\"var(--panel-solid)\" stroke=\"",
    ).concat(stroke).concat("\" stroke-opacity=\"0.55\"/>\n<text x=\"163\" y=\"").concat(
        decimal_int_text(vy + 3).as_str(),
    ).concat("\" text-anchor=\"middle\" font-size=\"8\" fill=\"var(--text-muted)\">").concat(
        esc(label.as_str()).as_str(),
    ).concat("</text>\n")
}

fn store_text(i: i64) -> (r: String)
    requires
        0 <= i <= 0xffff_ffff,
    ensures
        r@ == picture_store(i as int),
{
    let dy: i64 = 23 + 64 * i;
    "<g fill=\"none\" stroke=\"var(--text-dim)\" stroke-width=\"1.2\"><ellipse cx=\"435\" cy=\"".to_owned().concat(
        decimal_int_text(dy).as_str(),
    ).concat("\" rx=\"7\" ry=\"2.6\"/><path d=\"M428,").concat(
        decimal_int_text(dy).as_str(),
    ).concat(" v11 a7,2.6 0 0 0 14,0 v-11\"/></g>\n")
}

fn row_text(n: i64, i: i64, leg: &Leg) -> (r: String)
    requires
        0 <= n <= 0xffff_ffff,
        0 <= i <= 0xffff_ffff,
    ensures
        r@ == picture_row(n as int, i as int, leg@),
{
    let mut out: String = leg_text(n, i, leg);
    let ghost first = out@;
    if let Some(via) = &leg.via {
        out.append(hop_text(n, i, leg.seal, via.as_str()).as_str());
    }
    let ghost second = match leg@.via {
        Some(via) => picture_hop(n as int, i as int, leg.seal, via),
        None => Seq::empty(),
    };
    assert(out@ =~= first + second);
    if leg.holds_db {
        out.append(store_text(i).as_str());
    }
    assert(out@ =~= picture_row(n as int, i as int, leg@));
    out
}

/// Draws the legs, from this client outward.
pub fn diagram_svg(legs: &Vec<Leg>, you: &str) -> (r: String)
    requires
        legs@.len() <= 0xffff_ffff,
    ensures
        r@ == picture(leg_views(legs@), you@),
{
    let ghost views = leg_views(legs@);
    let ghost p = is_travelling();
    let mut moving: Vec<usize> = Vec::new();
    let mut k: usize = 0;
    proof {
        reveal(Seq::filter);
        assert(views.take(0).filter(p) =~= Seq::empty());
    }
    while k < legs.len()
        invariant
            k <= legs@.len(),
            views == leg_views(legs@),
            p == is_travelling(),
            moving@.len() <= k,
            forall|j: int| 0 <= j < moving@.len() ==> (#[trigger] moving@[j]) < legs@.len(),
            moving@.len() == views.take(k as int).filter(p).len(),
            forall|j: int|
                0 <= j < moving@.len() ==> #[trigger] views.take(k as int).filter(p)[j]
                    == views[moving@[j] as int],
        decreases legs@.len() - k,
    {
        proof {
            reveal(Seq::filter);
            assert(views.take(k + 1).drop_last() =~= views.take(k as int));
            assert(views.take(k + 1).last() == legs@[k as int]@);
        }
        if legs[k].travels {
            moving.push(k);
        }
        k = k + 1;
    }
    assert(views.take(k as int) =~= views);
    let ghost shown = views.filter(p);
    let n: i64 = moving.len() as i64;
    let mut out: String = head_text(n, you);
    let ghost head = out@;
    let ghost caption = if shown.len() < views.len() {
        picture_caption(n as int)
    } else {
        Seq::empty()
    };
    if moving.len() < legs.len() {
        out.append(caption_text(n).as_str());
    }
    assert(out@ =~= head + caption);
    let ghost before = out@;
    let mut i: usize = 0;
    assert(out@ =~= before + picture_rows(n as int, shown, 0));
    while i < moving.len()
        invariant
            i <= moving@.len(),
            n == moving@.len(),
            n <= 0xffff_ffff,
            views == leg_views(legs@),
            shown.len() == n,
            forall|j: int| 0 <= j < moving@.len() ==> (#[trigger] moving@[j]) < legs@.len(),
            forall|j: int|
                0 <= j < moving@.len() ==> #[trigger] shown[j] == views[moving@[j] as int],
            out@ =~= before + picture_rows(n as int, shown, i as int),
        decreases moving@.len() - i,
    {
        let at: usize = moving[i];
        assert(shown[i as int] == legs@[at as int]@);
        out.append(row_text(n, i as i64, &legs[at]).as_str());
        i = i + 1;
    }
    out.append("</svg>");
    out
}

/// What is known of a session, as far as its data's ways depend on it.
pub struct SessionPaths {
    pub self_hosting: bool,
    pub voice_bundled: bool,
    pub listed_public: bool,
    pub transport: Transport,
    pub origin: String,
    pub rendezvous: Option<String>,
    pub relays: Vec<String>,
    pub in_voice: bool,
    pub voice_sealed: bool,
}

/// The leg to the gateway.
pub open spec fn gateway_leg(p: SessionPaths) -> LegView {
    let (where_to, seal, note) = if p.self_hosting {
        (
            "loopback on this machine"@,
            Seal::Local,
            "The gateway is a thread in this process. This leg never reaches a network interface."@,
        )
    } else {
        match p.transport {
            Transport::Quic => (
                p.origin@,
                Seal::EndToEnd,
                "QUIC straight to the host, authenticated by its key. Nobody in between can read it. The host sees your IP address."@,
            ),
            Transport::QuicRelayed => (
                p.origin@,
                Seal::EndToEnd,
                "Carried by the rendezvous relay. It forwards ciphertext and sees only the two keys — but it, not the host, learns your address."@,
            ),
            Transport::Proxied => (
                p.origin@,
                Seal::InTransit,
                "TLS to a proxy in front of the gateway. The proxy's operator — usually the server's — can read this leg. Nobody else on the path can."@,
            ),
            Transport::Loopback => (
                p.origin@,
                Seal::Local,
                "A plain WebSocket to this machine. Allowed only because it is loopback."@,
            ),
        }
    };
    LegView {
        what: "channels · members"@,
        node: if p.self_hosting {
            "Your own server"@
        } else {
            "Server"@
        },
        where_to,
        seal,
        note,
        holds_db: true,
        travels: true,
        via: if p.transport == Transport::QuicRelayed {
            Some("via relay"@)
        } else {
            None
        },
    }
}

fn gateway_leg_of(p: &SessionPaths) -> (r: Leg)
    ensures
        r@ == gateway_leg(*p),
{
    let (where_to, seal, note): (String, Seal, String) = if p.self_hosting {
        (
            "loopback on this machine".to_owned(),
            Seal::Local,
            "The gateway is a thread in this process. This leg never reaches a network interface.".to_owned(),
        )
    } else {
        match p.transport {
            Transport::Quic => (
                p.origin.clone(),
                Seal::EndToEnd,
                "QUIC straight to the host, authenticated by its key. Nobody in between can read it. The host sees your IP address.".to_owned(),
            ),
            Transport::QuicRelayed => (
                p.origin.clone(),
                Seal::EndToEnd,
                "Carried by the rendezvous relay. It forwards ciphertext and sees only the two keys — but it, not the host, learns your address.".to_owned(),
            ),
            Transport::Proxied => (
                p.origin.clone(),
                Seal::InTransit,
                "TLS to a proxy in front of the gateway. The proxy's operator — usually the server's — can read this leg. Nobody else on the path can.".to_owned(),
            ),
            Transport::Loopback => (
                p.origin.clone(),
                Seal::Local,
                "A plain WebSocket to this machine. Allowed only because it is loopback.".to_owned(),
            ),
        }
    };
    Leg {
        what: "channels · members",
        node: if p.self_hosting {
            "Your own server"
        } else {
            "Server"
        },
        where_to,
        seal,
        note,
        holds_db: true,
        travels: true,
        via: if p.transport == Transport::QuicRelayed {
            Some("via relay".to_owned())
        } else {
            None
        },
    }
}

/// The leg of direct messages.
pub open spec fn message_leg(p: SessionPaths) -> LegView {
    let n = p.relays@.len();
    LegView {
        what: "direct messages"@,
        node: "Nostr relays"@,
        where_to: if n == 0 {
            "no relay connected"@
        } else if n == 1 {
            p.relays@[0]@
        } else {
            p.relays@[0]@ + " and "@ + decimal((n - 1) as nat) + " more"@
        },
        seal: Seal::EndToEnd,
        note:
            "Nostr relays, never the gateway. Sealed to the recipient's key and wrapped again so the relay cannot see who sent it. The relay stores the ciphertext and cannot be made to forget it."@,
        holds_db: false,
        travels: true,
        via: None,
    }
}

fn message_leg_of(p: &SessionPaths) -> (r: Leg)
    ensures
        r@ == message_leg(*p),
{
    let n: usize = p.relays.len();
    let where_to: String = if n == 0 {
        "no relay connected".to_owned()
    } else if n == 1 {
        p.relays[0].clone()
    } else {
        p.relays[0].clone().concat(" and ").concat(decimal_text((n - 1) as u64).as_str()).concat(
            " more",
        )
    };
    Leg {
        what: "direct messages",
        node: "Nostr relays",
        where_to,
        seal: Seal::EndToEnd,
        note: "Nostr relays, never the gateway. Sealed to the recipient's key and wrapped again so the relay cannot see who sent it. The relay stores the ciphertext and cannot be made to forget it.".to_owned(),
        holds_db: false,
        travels: true,
        via: None,
    }
}

/// The leg of a call.
pub open spec fn voice_leg(p: SessionPaths) -> LegView {
    LegView {
        what: "voice · screen"@,
        node: "SFU"@,
        where_to: if p.voice_bundled {
            "an SFU on this machine"@
        } else {
            "the SFU this server uses"@
        },
        seal: if p.voice_sealed {
            Seal::EndToEnd
        } else {
            Seal::InTransit
        },
        note: if p.voice_sealed {
            "Frames are encrypted before they leave. The SFU forwards what it cannot decrypt — including one you run yourself."@
        } else {
            "No media key for this channel yet. Until one arrives the SFU is trusted with the frames."@
        },
        holds_db: false,
        travels: true,
        via: None,
    }
}

fn voice_leg_of(p: &SessionPaths) -> (r: Leg)
    ensures
        r@ == voice_leg(*p),
{
    Leg {
        what: "voice · screen",
        node: "SFU",
        where_to: if p.voice_bundled {
            "an SFU on this machine".to_owned()
        } else {
            "the SFU this server uses".to_owned()
        },
        seal: if p.voice_sealed {
            Seal::EndToEnd
        } else {
            Seal::InTransit
        },
        note: if p.voice_sealed {
            "Frames are encrypted before they leave. The SFU forwards what it cannot decrypt — including one you run yourself.".to_owned()
        } else {
            "No media key for this channel yet. Until one arrives the SFU is trusted with the frames.".to_owned()
        },
        holds_db: false,
        travels: true,
        via: None,
    }
}

/// The leg of discovery, to a directory.
pub open spec fn discovery_leg(p: SessionPaths, at: Seq<char>) -> LegView {
    LegView {
        what: "discovery"@,
        node: "Rendezvous"@,
        where_to: at,
        seal: Seal::InTransit,
        note: if p.self_hosting {
            "This machine registered here so a friend can find it by code. It holds your address and your key"@
                + (if p.listed_public {
                ", and this guild is listed in its public directory"@
            } else {
                ""@
            }) + ". No message or frame passes through it"@ + (if p.transport
                == Transport::QuicRelayed {
                " except while relaying, as above"@
            } else {
                ""@
            }) + "."@
        } else {
            "It answered your join code with the host's address, so it knows you asked for that code and it saw your IP. Nothing you say afterwards goes through it unless the connection is relayed."@
        },
        holds_db: false,
        travels: true,
        via: None,
    }
}

fn discovery_leg_of(p: &SessionPaths, at: &String) -> (r: Leg)
    ensures
        r@ == discovery_leg(*p, at@),
{
    let note: String = if p.self_hosting {
        "This machine registered here so a friend can find it by code. It holds your address and your key".to_owned().concat(
            if p.listed_public {
                ", and this guild is listed in its public directory"
            } else {
                ""
            },
        ).concat(". No message or frame passes through it").concat(
            if p.transport == Transport::QuicRelayed {
                " except while relaying, as above"
            } else {
                ""
            },
        ).concat(".")
    } else {
        "It answered your join code with the host's address, so it knows you asked for that code and it saw your IP. Nothing you say afterwards goes through it unless the connection is relayed.".to_owned()
    };
    Leg {
        what: "discovery",
        node: "Rendezvous",
        where_to: at.clone(),
        seal: Seal::InTransit,
        note,
        holds_db: false,
        travels: true,
        via: None,
    }
}

/// What becomes of the secret key: nothing travels.
pub open spec fn key_leg() -> LegView {
    LegView {
        what: "your key"@,
        node: "Stays here"@,
        where_to: "never sent"@,
        seal: Seal::Local,
        note:
            "The private half never leaves. It signs a login for the exact address you dialled, so a signature for one server is useless to another."@,
        holds_db: false,
        travels: false,
        via: None,
    }
}

/// All legs of a session. A call and a directory are there only when they are.
pub open spec fn session_legs_spec(p: SessionPaths) -> Seq<LegView> {
    seq![gateway_leg(p), message_leg(p)] + (if p.in_voice {
        seq![voice_leg(p)]
    } else {
        Seq::empty()
    }) + (match p.rendezvous {
        Some(at) => seq![discovery_leg(p, at@)],
        None => Seq::empty(),
    }) + seq![key_leg()]
}

/// Lists the legs of a session.
pub fn session_legs(p: &SessionPaths) -> (r: Vec<Leg>)
    ensures
        leg_views(r@) == session_legs_spec(*p),
{
    let mut legs: Vec<Leg> = Vec::new();
    legs.push(gateway_leg_of(p));
    legs.push(message_leg_of(p));
    if p.in_voice {
        legs.push(voice_leg_of(p));
    }
    if let Some(at) = &p.rendezvous {
        legs.push(discovery_leg_of(p, at));
    }
    legs.push(
        Leg {
            what: "your key",
            node: "Stays here",
            where_to: "never sent".to_owned(),
            seal: Seal::Local,
            note: "The private half never leaves. It signs a login for the exact address you dialled, so a signature for one server is useless to another.".to_owned(),
            holds_db: false,
            travels: false,
            via: None,
        },
    );
    assert(leg_views(legs@) =~= session_legs_spec(*p));
    legs
}

/// Nothing is called end to end that an endpoint on the way can read: a proxied
/// gateway never is, and a call is only once it has a key. Only what stays on this
/// machine is called local.
pub proof fn seals_are_honest(p: SessionPaths)
    ensures
        !p.self_hosting && p.transport == Transport::Proxied ==> gateway_leg(p).seal
            == Seal::InTransit,
        gateway_leg(p).seal == Seal::Local <==> p.self_hosting || p.transport
            == Transport::Loopback,
        voice_leg(p).seal == Seal::EndToEnd <==> p.voice_sealed,
        !key_leg().travels,
{
}

/// Where the messages are kept.
pub fn database_line(self_hosting: bool) -> (r: &'static str)
    ensures
        r@ == if self_hosting {
            "On this disk. You are the server, so every message, member and guild row is a file here and nowhere else."@
        } else {
            "On the server's disk, not yours. Messages live only in its database (this client holds what it fetched, in memory)."@
        },
{
    if self_hosting {
        "On this disk. You are the server, so every message, member and guild row is a file here and nowhere else."
    } else {
        "On the server's disk, not yours. Messages live only in its database (this client holds what it fetched, in memory)."
    }
}

/// What our own box is called.
pub fn own_label(self_hosting: bool) -> (r: &'static str)
    ensures
        r@ == if self_hosting {
            "host + client"@
        } else {
            "this client"@
        },
{
    if self_hosting {
        "host + client"
    } else {
        "this client"
    }
}

} // verus!
