//! A level that spans servers, published as application data.
//!
//! The number has no authority behind it: its owner adds it up and signs it, so
//! it is shown and never allowed to gate anything. Which servers contributed is
//! not published; only their count is.

use crate::crypto::{SecretKey, hex_text, public_x};
use crate::json::{field_views, json_object, object};
use crate::nostr::event::{Event, sign_with};
use crate::text::{decimal, decimal_text, same, text_rows, texts};
use vstd::prelude::*;
use vstd::string::*;

verus! {

/// Application data, of which a relay holds one event per key and `d` tag.
pub const KIND_APP_DATA: u16 = 30078;

/// The `d` tag of this application's level.
pub const D_TAG: &'static str = "discordia:xp";

/// The largest level that is believed. Above it a claim is cut, not refused.
pub const MAX_XP: u64 = 100_000_000;

#[derive(Debug, Clone, Copy, PartialEq, Eq, Structural)]
pub struct GlobalXp {
    pub xp: u64,
    /// How many servers went into the sum.
    pub servers: u32,
}

impl Default for GlobalXp {
    fn default() -> (r: GlobalXp)
        ensures
            r.xp == 0 && r.servers == 0,
    {
        GlobalXp { xp: 0, servers: 0 }
    }
}

/// At most one event in this span, in milliseconds.
pub const PUBLISH_COOLDOWN: u64 = 300_000;

/// Paces the publishing: the first total goes at once, later ones wait for the
/// cooldown, and only the latest of those is sent when it ends. Times are
/// milliseconds of a clock that does not run backwards.
#[derive(Debug)]
pub struct Publisher {
    published: Option<GlobalXp>,
    last_at: Option<u64>,
    pending: Option<GlobalXp>,
}

/// The state of a publisher, as mathematics.
pub struct Pace {
    pub published: Option<GlobalXp>,
    pub last_at: Option<u64>,
    pub pending: Option<GlobalXp>,
}

/// Whether the cooldown after the last event is over.
pub open spec fn is_cooled(p: Pace, now: u64) -> bool {
    match p.last_at {
        None => true,
        Some(t) => now - t >= PUBLISH_COOLDOWN,
    }
}

/// A publisher that has just sent a total.
pub open spec fn just_sent(total: GlobalXp, now: u64) -> Pace {
    Pace { published: Some(total), last_at: Some(now), pending: None }
}

/// When the waiting total may go.
pub open spec fn due(p: Pace) -> Option<int> {
    match (p.pending, p.last_at) {
        (Some(_), Some(t)) => Some(t + PUBLISH_COOLDOWN),
        _ => None,
    }
}

/// What is asked of a publisher.
pub enum Act {
    /// The current total is offered.
    Offer { total: GlobalXp, now: u64 },
    /// The waiting total is asked for.
    TakeDue { now: u64 },
}

/// When something is asked of a publisher.
pub open spec fn act_time(a: Act) -> u64 {
    match a {
        Act::Offer { now, .. } => now,
        Act::TakeDue { now } => now,
    }
}

/// A publisher after what was asked of it, and the total that is to be sent now.
pub open spec fn acted(p: Pace, a: Act) -> (Pace, Option<GlobalXp>) {
    match a {
        Act::Offer { total, now } => if p.published == Some(total) {
            (Pace { pending: None, ..p }, None)
        } else if !is_cooled(p, now) {
            (Pace { pending: Some(total), ..p }, None)
        } else {
            (just_sent(total, now), Some(total))
        },
        Act::TakeDue { now } => match due(p) {
            Some(at) if at <= now => (just_sent(p.pending->Some_0, now), p.pending),
            _ => (p, None),
        },
    }
}

impl View for Publisher {
    type V = Pace;

    closed spec fn view(&self) -> Pace {
        Pace { published: self.published, last_at: self.last_at, pending: self.pending }
    }
}

impl Default for Publisher {
    fn default() -> (r: Publisher)
        ensures
            r@ == at_rest(),
    {
        Publisher { published: None, last_at: None, pending: None }
    }
}

impl Publisher {
    /// Offers the current total. What comes back is to be signed and sent now.
    pub fn offer(&mut self, total: GlobalXp, now: u64) -> (r: Option<GlobalXp>)
        ensures
            (final(self)@, r) == acted(old(self)@, Act::Offer { total, now }),
    {
        let unchanged: bool = match self.published {
            Some(p) => p == total,
            None => false,
        };
        if unchanged {
            self.pending = None;
            return None;
        }
        if !self.cooled(now) {
            self.pending = Some(total);
            return None;
        }
        self.mark_sent(total, now);
        Some(total)
    }

    /// When the waiting total may go, if one is waiting. The clock must reach that far.
    pub fn due_at(&self) -> (r: Option<u64>)
        requires
            due(self@) matches Some(at) ==> at <= u64::MAX,
        ensures
            r is Some <==> due(self@) is Some,
            r is Some ==> r->Some_0 == due(self@)->Some_0,
    {
        match (self.pending, self.last_at) {
            (Some(_), Some(t)) => Some(t + PUBLISH_COOLDOWN),
            _ => None,
        }
    }

    /// The waiting total, once its time has come.
    pub fn take_due(&mut self, now: u64) -> (r: Option<GlobalXp>)
        ensures
            (final(self)@, r) == acted(old(self)@, Act::TakeDue { now }),
    {
        match (self.pending, self.last_at) {
            (Some(total), Some(t)) => {
                if now < t || now - t < PUBLISH_COOLDOWN {
                    return None;
                }
                self.mark_sent(total, now);
                Some(total)
            },
            _ => None,
        }
    }

    fn cooled(&self, now: u64) -> (r: bool)
        ensures
            r == is_cooled(self@, now),
    {
        match self.last_at {
            None => true,
            Some(t) => now >= t && now - t >= PUBLISH_COOLDOWN,
        }
    }

    fn mark_sent(&mut self, total: GlobalXp, now: u64)
        ensures
            final(self)@ == just_sent(total, now),
    {
        *self = Publisher { published: Some(total), last_at: Some(now), pending: None };
    }
}

/// A level with its claim cut to what is believed.
pub open spec fn believed(xp: GlobalXp) -> GlobalXp {
    GlobalXp {
        xp: if xp.xp <= MAX_XP {
            xp.xp
        } else {
            MAX_XP
        },
        servers: xp.servers,
    }
}

/// Cuts a claim to what is believed.
pub fn clamp_xp(xp: GlobalXp) -> (r: GlobalXp)
    ensures
        r == believed(xp),
{
    GlobalXp {
        xp: if xp.xp <= MAX_XP {
            xp.xp
        } else {
            MAX_XP
        },
        servers: xp.servers,
    }
}

/// The content that carries a level.
pub open spec fn xp_json(xp: GlobalXp) -> Seq<char> {
    json_object(
        seq![("xp"@, decimal(xp.xp as nat)), ("servers"@, decimal(xp.servers as nat))],
    )
}

/// Publishes a level.
pub fn xp_event(secret: &SecretKey, xp: &GlobalXp, now: i64) -> (r: Event)
    ensures
        r.verifies(),
        r.pubkey@ == hex_text(public_x(secret@)),
        r.created_at == now,
        r.kind == KIND_APP_DATA,
        r.content@ == xp_json(believed(*xp)),
        text_rows(r.tags@) == seq![seq!["d"@, D_TAG@]],
{
    let level: GlobalXp = clamp_xp(*xp);
    let mut fields: Vec<(&str, String)> = Vec::new();
    fields.push(("xp", decimal_text(level.xp)));
    fields.push(("servers", decimal_text(level.servers as u64)));
    assert(field_views(fields@) =~= seq![
        ("xp"@, decimal(level.xp as nat)),
        ("servers"@, decimal(level.servers as nat)),
    ]);
    let content: String = object(&fields);
    let mut tag: Vec<String> = Vec::new();
    tag.push("d".to_owned());
    tag.push(D_TAG.to_owned());
    assert(texts(tag@) =~= seq!["d"@, D_TAG@]);
    let mut tags: Vec<Vec<String>> = Vec::new();
    tags.push(tag);
    assert(text_rows(tags@) =~= seq![seq!["d"@, D_TAG@]]);
    sign_with(secret, now, KIND_APP_DATA, tags, content)
}

/// Whether a tag marks application data as this application's level.
pub open spec fn is_ours(row: Seq<Seq<char>>) -> bool {
    row.len() > 1 && row[0] == "d"@ && row[1] == D_TAG@
}

/// Whether an event carries this application's level.
pub open spec fn carries_xp(event: Event) -> bool {
    event.kind == KIND_APP_DATA && exists|i: int|
        0 <= i < text_rows(event.tags@).len() && is_ours(#[trigger] text_rows(event.tags@)[i])
}

/// Whether an event is of the right kind and tagged as ours. The kind is shared
/// with every other application.
pub fn is_xp_event(event: &Event) -> (r: bool)
    ensures
        r == carries_xp(*event),
{
    if event.kind != KIND_APP_DATA {
        return false;
    }
    let ghost rows = text_rows(event.tags@);
    let mut i: usize = 0;
    while i < event.tags.len()
        invariant
            i <= event.tags@.len(),
            event.kind == KIND_APP_DATA,
            rows == text_rows(event.tags@),
            forall|j: int| 0 <= j < i ==> !is_ours(#[trigger] rows[j]),
        decreases event.tags@.len() - i,
    {
        let row: &Vec<String> = &event.tags[i];
        assert(rows[i as int] == texts(row@));
        if row.len() > 1 && same(row[0].as_str(), "d") && same(row[1].as_str(), D_TAG) {
            assert(is_ours(text_rows(event.tags@)[i as int]));
            return true;
        }
        i = i + 1;
    }
    false
}

/// Whether this is the level an event carries, whatever `read` makes of the JSON in it.
pub open spec fn parsed_xp<F>(event: Event, read: F, r: Option<GlobalXp>) -> bool where
    F: Fn(&str) -> Option<GlobalXp>,
 {
    if !carries_xp(event) {
        r is None
    } else {
        exists|text: &str, got: Option<GlobalXp>|
            {
                &&& text@ == event.content@
                &&& #[trigger] read.ensures((text,), got)
                &&& r == match got {
                    Some(xp) => Some(believed(xp)),
                    None => None,
                }
            }
    }
}

/// The level an event carries, read from the JSON in it.
pub fn parse_xp<F>(event: &Event, read: F) -> (r: Option<GlobalXp>) where
    F: Fn(&str) -> Option<GlobalXp>,

    requires
        forall|text: &str| read.requires((text,)),
    ensures
        parsed_xp(*event, read, r),
{
    if !is_xp_event(event) {
        return None;
    }
    let text: &str = event.content.as_str();
    match read(text) {
        Some(xp) => Some(clamp_xp(xp)),
        None => None,
    }
}

/// A total that was sent is not sent again, whenever it is offered, and nothing waits
/// behind it then.
pub proof fn unchanged_is_never_resent(p: Pace, total: GlobalXp, now: u64)
    requires
        p.published == Some(total),
    ensures
        acted(p, Act::Offer { total, now }).1 is None,
        acted(p, Act::Offer { total, now }).0.published == Some(total),
        due(acted(p, Act::Offer { total, now }).0) is None,
{
}

/// A level that was published comes back as it was, cut to what is believed, to
/// whoever reads the JSON back as it was written.
pub proof fn a_total_comes_back<F>(xp: GlobalXp, event: Event, read: F, r: Option<GlobalXp>) where
    F: Fn(&str) -> Option<GlobalXp>,

    requires
        event.kind == KIND_APP_DATA,
        event.content@ == xp_json(believed(xp)),
        text_rows(event.tags@) == seq![seq!["d"@, D_TAG@]],
        forall|level: GlobalXp, text: &str, got: Option<GlobalXp>|
            #![trigger xp_json(level), read.ensures((text,), got)]
            text@ == xp_json(level) && read.ensures((text,), got) ==> got == Some(level),
        parsed_xp(event, read, r),
    ensures
        r == Some(believed(xp)),
        xp.xp <= MAX_XP ==> r == Some(xp),
{
    let rows = text_rows(event.tags@);
    assert(is_ours(rows[0]));
    assert(carries_xp(event));
}

/// A publisher of which nothing was asked yet.
pub open spec fn at_rest() -> Pace {
    Pace { published: None, last_at: None, pending: None }
}

/// A new publisher after everything that was asked of it.
pub open spec fn pace_after(acts: Seq<Act>) -> Pace
    decreases acts.len(),
{
    if acts.len() == 0 {
        at_rest()
    } else {
        acted(pace_after(acts.drop_last()), acts.last()).0
    }
}

/// The total that is to be sent after one of the things asked.
pub open spec fn sent_at(acts: Seq<Act>, i: int) -> Option<GlobalXp> {
    acted(pace_after(acts.take(i)), acts[i]).1
}

/// Whether times never run backwards.
pub open spec fn in_order(acts: Seq<Act>) -> bool {
    forall|i: int, j: int|
        0 <= i < j < acts.len() ==> act_time(#[trigger] acts[i]) <= act_time(#[trigger] acts[j])
}

/// Whether nothing was sent between two places.
pub open spec fn quiet_between(acts: Seq<Act>, i: int, j: int) -> bool {
    forall|k: int| i < k < j ==> #[trigger] sent_at(acts, k) is None
}

proof fn pace_facts(acts: Seq<Act>, n: int)
    requires
        0 <= n <= acts.len(),
        in_order(acts),
    ensures
        ({
            let p = pace_after(acts.take(n));
            &&& p.pending is Some ==> p.pending != p.published && p.last_at is Some
            &&& forall|i: int|
                0 <= i < n && #[trigger] sent_at(acts, i) is Some ==> p.last_at is Some
                    && p.last_at->Some_0 >= act_time(acts[i])
            &&& forall|i: int|
                0 <= i < n && #[trigger] sent_at(acts, i) is Some && quiet_between(acts, i, n)
                    ==> p.published == sent_at(acts, i)
        }),
    decreases n,
{
    if n > 0 {
        pace_facts(acts, n - 1);
        let q = pace_after(acts.take(n - 1));
        let p = pace_after(acts.take(n));
        let a = acts[n - 1];
        assert(acts.take(n).drop_last() =~= acts.take(n - 1));
        assert(acts.take(n).last() == a);
        assert((p, sent_at(acts, n - 1)) == acted(q, a));
        assert forall|i: int| 0 <= i < n && #[trigger] sent_at(acts, i) is Some implies p.last_at
            is Some && p.last_at->Some_0 >= act_time(acts[i]) by {
            if i < n - 1 {
                assert(q.last_at->Some_0 >= act_time(acts[i]));
                assert(act_time(acts[i]) <= act_time(acts[n - 1]));
            }
        }
        assert forall|i: int|
            0 <= i < n && #[trigger] sent_at(acts, i) is Some && quiet_between(
                acts,
                i,
                n,
            ) implies p.published == sent_at(acts, i) by {
            if i < n - 1 {
                assert(sent_at(acts, n - 1) is None);
                assert(quiet_between(acts, i, n - 1));
                assert(q.published == sent_at(acts, i));
            }
        }
    }
}

/// Whatever is asked of a publisher, and in whatever order, as long as its clock does
/// not run backwards: any two totals are sent at least a cooldown apart, two that are
/// sent one after the other differ, and what an offer sends is what was offered.
pub proof fn any_run_is_paced(acts: Seq<Act>)
    requires
        in_order(acts),
    ensures
        forall|i: int, j: int|
            0 <= i < j < acts.len() && #[trigger] sent_at(acts, i) is Some && #[trigger] sent_at(
                acts,
                j,
            ) is Some ==> act_time(acts[j]) - act_time(acts[i]) >= PUBLISH_COOLDOWN,
        forall|i: int, j: int|
            0 <= i < j < acts.len() && #[trigger] sent_at(acts, i) is Some && #[trigger] sent_at(
                acts,
                j,
            ) is Some && quiet_between(acts, i, j) ==> sent_at(acts, i) != sent_at(acts, j),
        forall|i: int|
            0 <= i < acts.len() && acts[i] is Offer && #[trigger] sent_at(acts, i) is Some
                ==> sent_at(acts, i) == Some(acts[i]->total),
{
    assert forall|i: int, j: int|
        0 <= i < j < acts.len() && #[trigger] sent_at(acts, i) is Some && #[trigger] sent_at(
            acts,
            j,
        ) is Some implies act_time(acts[j]) - act_time(acts[i]) >= PUBLISH_COOLDOWN by {
        pace_facts(acts, j);
        let p = pace_after(acts.take(j));
        assert(p.last_at->Some_0 >= act_time(acts[i]));
    }
    assert forall|i: int, j: int|
        0 <= i < j < acts.len() && #[trigger] sent_at(acts, i) is Some && #[trigger] sent_at(
            acts,
            j,
        ) is Some && quiet_between(acts, i, j) implies sent_at(acts, i) != sent_at(acts, j) by {
        pace_facts(acts, j);
        let p = pace_after(acts.take(j));
        assert(p.published == sent_at(acts, i));
    }
}

} // verus!
