//! What is said to a relay and what is taken from it.

use crate::json::{
    array, field_views, item_bool, item_str, item_text, json_array, json_item_bool, json_item_str,
    json_item_text, json_numbers, json_object, json_rows, json_string, json_strings, numbers_text,
    object, quote, rows_text, strings_text,
};
use crate::nostr::event::Event;
use crate::text::{
    decimal, decimal_int, decimal_int_text, decimal_text, opt_text, same, text_rows, texts,
};
use vstd::prelude::*;
use vstd::string::*;

verus! {

/// The shortest wait before a relay is dialled again, in seconds.
pub const RECONNECT_MIN: u64 = 2;

/// The longest.
pub const RECONNECT_MAX: u64 = 60;

/// The wait after the next failure: twice the last, up to the longest.
pub fn next_backoff(backoff: u64) -> (r: u64)
    ensures
        r == if 2 * backoff <= RECONNECT_MAX {
            2 * backoff
        } else {
            RECONNECT_MAX as int
        },
{
    if backoff <= RECONNECT_MAX / 2 {
        backoff * 2
    } else {
        RECONNECT_MAX
    }
}

/// The relays that are used until others are chosen.
pub fn default_relays() -> (r: Vec<String>)
    ensures
        texts(r@) == seq![
            "wss://relay.damus.io"@,
            "wss://nos.lol"@,
            "wss://relay.primal.net"@,
            "wss://relay.nostr.band"@,
        ],
{
    let mut out: Vec<String> = Vec::new();
    out.push("wss://relay.damus.io".to_owned());
    out.push("wss://nos.lol".to_owned());
    out.push("wss://relay.primal.net".to_owned());
    out.push("wss://relay.nostr.band".to_owned());
    assert(texts(out@) =~= seq![
        "wss://relay.damus.io"@,
        "wss://nos.lol"@,
        "wss://relay.primal.net"@,
        "wss://relay.nostr.band"@,
    ]);
    out
}

/// Which events a subscription asks for. What is absent does not restrict it.
#[derive(Debug, Clone)]
pub struct Filter {
    pub kinds: Option<Vec<u16>>,
    pub p: Option<Vec<String>>,
    pub authors: Option<Vec<String>>,
    pub since: Option<i64>,
    pub limit: Option<u32>,
}

/// What a relay said, or what became of the connection to it.
#[derive(Debug, Clone)]
pub enum RelayEvent {
    Event(Box<Event>),
    EndOfStored { relay: String },
    Published { relay: String, id: String, accepted: bool, message: String },
    Connected(String),
    Disconnected { relay: String, why: String },
}

impl Default for Filter {
    fn default() -> (r: Filter)
        ensures
            r.kinds is None && r.p is None && r.authors is None && r.since is None
                && r.limit is None,
    {
        Filter { kinds: None, p: None, authors: None, since: None, limit: None }
    }
}

/// One member, when there is something to write.
pub open spec fn optional_field(name: Seq<char>, value: Option<Seq<char>>) -> Seq<
    (Seq<char>, Seq<char>),
> {
    match value {
        Some(v) => seq![(name, v)],
        None => Seq::empty(),
    }
}

/// The JSON text of each part of a filter.
pub open spec fn kinds_json(f: Filter) -> Option<Seq<char>> {
    match f.kinds {
        Some(k) => Some(json_numbers(k@)),
        None => None,
    }
}

/// The JSON text of an optional list of strings.
pub open spec fn list_json(l: Option<Vec<String>>) -> Option<Seq<char>> {
    match l {
        Some(v) => Some(json_strings(texts(v@))),
        None => None,
    }
}

/// The JSON text of an optional time.
pub open spec fn since_json(f: Filter) -> Option<Seq<char>> {
    match f.since {
        Some(n) => Some(decimal_int(n as int)),
        None => None,
    }
}

/// The JSON text of an optional count.
pub open spec fn limit_json(f: Filter) -> Option<Seq<char>> {
    match f.limit {
        Some(n) => Some(decimal(n as nat)),
        None => None,
    }
}

fn push_field<'a>(fields: &mut Vec<(&'a str, String)>, name: &'a str, value: Option<String>)
    ensures
        field_views(final(fields)@) == field_views(old(fields)@) + optional_field(
            name@,
            opt_text(value),
        ),
{
    let ghost before = fields@;
    match value {
        Some(v) => {
            fields.push((name, v));
        },
        None => {},
    }
    assert(field_views(fields@) =~= field_views(before) + optional_field(name@, opt_text(value)));
}

fn optional_list(l: &Option<Vec<String>>) -> (r: Option<String>)
    ensures
        opt_text(r) == list_json(*l),
{
    match l {
        Some(v) => Some(strings_text(v)),
        None => None,
    }
}

impl Filter {
    fn kinds_text(&self) -> (r: Option<String>)
        ensures
            opt_text(r) == kinds_json(*self),
    {
        match &self.kinds {
            Some(k) => Some(numbers_text(k)),
            None => None,
        }
    }

    fn since_text(&self) -> (r: Option<String>)
        ensures
            opt_text(r) == since_json(*self),
    {
        match self.since {
            Some(n) => Some(decimal_int_text(n)),
            None => None,
        }
    }

    fn limit_text(&self) -> (r: Option<String>)
        ensures
            opt_text(r) == limit_json(*self),
    {
        match self.limit {
            Some(n) => Some(decimal_text(n as u64)),
            None => None,
        }
    }

    /// The filter as a JSON object. What is absent is left out.
    pub open spec fn json(&self) -> Seq<char> {
        json_object(
            optional_field("kinds"@, kinds_json(*self)) + optional_field("#p"@, list_json(self.p))
                + optional_field("authors"@, list_json(self.authors)) + optional_field(
                "since"@,
                since_json(*self),
            ) + optional_field("limit"@, limit_json(*self)),
        )
    }

    /// Writes the filter the way relays read it.
    pub fn to_json(&self) -> (r: String)
        ensures
            r@ == self.json(),
    {
        let mut fields: Vec<(&str, String)> = Vec::new();
        assert(field_views(fields@) =~= Seq::empty());
        push_field(&mut fields, "kinds", self.kinds_text());
        push_field(&mut fields, "#p", optional_list(&self.p));
        push_field(&mut fields, "authors", optional_list(&self.authors));
        push_field(&mut fields, "since", self.since_text());
        push_field(&mut fields, "limit", self.limit_text());
        proof {
            let all = optional_field("kinds"@, kinds_json(*self)) + optional_field(
                "#p"@,
                list_json(self.p),
            ) + optional_field("authors"@, list_json(self.authors)) + optional_field(
                "since"@,
                since_json(*self),
            ) + optional_field("limit"@, limit_json(*self));
            assert(field_views(fields@) =~= all);
        }
        object(&fields)
    }

    /// The filter as it stands in a frame, its members in the order of their names.
    pub open spec fn sorted_json(&self) -> Seq<char> {
        json_object(
            optional_field("#p"@, list_json(self.p)) + optional_field(
                "authors"@,
                list_json(self.authors),
            ) + optional_field("kinds"@, kinds_json(*self)) + optional_field(
                "limit"@,
                limit_json(*self),
            ) + optional_field("since"@, since_json(*self)),
        )
    }

    fn to_sorted_json(&self) -> (r: String)
        ensures
            r@ == self.sorted_json(),
    {
        let mut fields: Vec<(&str, String)> = Vec::new();
        assert(field_views(fields@) =~= Seq::empty());
        push_field(&mut fields, "#p", optional_list(&self.p));
        push_field(&mut fields, "authors", optional_list(&self.authors));
        push_field(&mut fields, "kinds", self.kinds_text());
        push_field(&mut fields, "limit", self.limit_text());
        push_field(&mut fields, "since", self.since_text());
        proof {
            let all = optional_field("#p"@, list_json(self.p)) + optional_field(
                "authors"@,
                list_json(self.authors),
            ) + optional_field("kinds"@, kinds_json(*self)) + optional_field(
                "limit"@,
                limit_json(*self),
            ) + optional_field("since"@, since_json(*self));
            assert(field_views(fields@) =~= all);
        }
        object(&fields)
    }
}

/// The frame that opens a subscription.
pub open spec fn request_json(sub: Seq<char>, filters: Seq<Filter>) -> Seq<char> {
    json_array(
        seq![json_string("REQ"@), json_string(sub)] + filters.map_values(
            |f: Filter| f.sorted_json(),
        ),
    )
}

/// Writes the frame that opens a subscription.
pub fn request_frame(sub: &str, filters: &Vec<Filter>) -> (r: String)
    ensures
        r@ == request_json(sub@, filters@),
{
    let mut items: Vec<String> = Vec::new();
    items.push(quote("REQ"));
    items.push(quote(sub));
    let mut i: usize = 0;
    while i < filters.len()
        invariant
            i <= filters@.len(),
            items@.len() == i + 2,
            items@[0]@ == json_string("REQ"@),
            items@[1]@ == json_string(sub@),
            forall|j: int|
                2 <= j < i + 2 ==> (#[trigger] items@[j])@ == filters@[j - 2].sorted_json(),
        decreases filters@.len() - i,
    {
        items.push(filters[i].to_sorted_json());
        i = i + 1;
    }
    assert(texts(items@) =~= seq![json_string("REQ"@), json_string(sub@)] + filters@.map_values(
        |f: Filter| f.sorted_json(),
    ));
    array(&items)
}

/// An event as it stands in a frame, its members in the order of their names.
pub open spec fn event_frame_json(e: Event) -> Seq<char> {
    json_object(
        seq![
            ("content"@, json_string(e.content@)),
            ("created_at"@, decimal_int(e.created_at as int)),
            ("id"@, json_string(e.id@)),
            ("kind"@, decimal(e.kind as nat)),
            ("pubkey"@, json_string(e.pubkey@)),
            ("sig"@, json_string(e.sig@)),
            ("tags"@, json_rows(text_rows(e.tags@))),
        ],
    )
}

/// Writes the frame that publishes an event.
pub fn publish_frame(e: &Event) -> (r: String)
    ensures
        r@ == json_array(seq![json_string("EVENT"@), event_frame_json(*e)]),
{
    let mut fields: Vec<(&str, String)> = Vec::new();
    fields.push(("content", quote(e.content.as_str())));
    fields.push(("created_at", decimal_int_text(e.created_at)));
    fields.push(("id", quote(e.id.as_str())));
    fields.push(("kind", decimal_text(e.kind as u64)));
    fields.push(("pubkey", quote(e.pubkey.as_str())));
    fields.push(("sig", quote(e.sig.as_str())));
    fields.push(("tags", rows_text(&e.tags)));
    assert(json_object(field_views(fields@)) == event_frame_json(*e)) by {
        assert(field_views(fields@) =~= seq![
            ("content"@, json_string(e.content@)),
            ("created_at"@, decimal_int(e.created_at as int)),
            ("id"@, json_string(e.id@)),
            ("kind"@, decimal(e.kind as nat)),
            ("pubkey"@, json_string(e.pubkey@)),
            ("sig"@, json_string(e.sig@)),
            ("tags"@, json_rows(text_rows(e.tags@))),
        ]);
    }
    let mut items: Vec<String> = Vec::new();
    items.push(quote("EVENT"));
    items.push(object(&fields));
    assert(texts(items@) =~= seq![json_string("EVENT"@), event_frame_json(*e)]);
    array(&items)
}

/// How many ids are remembered at most.
pub const SEEN_CAP: usize = 8192;

/// The ids of events that were delivered already, oldest first.
#[derive(Debug)]
pub struct SeenSet {
    order: Vec<String>,
}

/// Whether no id is remembered twice and none are remembered past the cap.
pub open spec fn seen_ok(s: Seq<Seq<char>>) -> bool {
    s.len() <= SEEN_CAP && s.no_duplicates()
}

/// What is remembered once a new id arrived: when the memory is full, its older
/// half is given up first.
pub open spec fn remembered(s: Seq<Seq<char>>, id: Seq<char>) -> Seq<Seq<char>> {
    if s.len() >= SEEN_CAP {
        s.skip(SEEN_CAP as int / 2).push(id)
    } else {
        s.push(id)
    }
}

impl View for SeenSet {
    type V = Seq<Seq<char>>;

    closed spec fn view(&self) -> Seq<Seq<char>> {
        texts(self.order@)
    }
}

impl Default for SeenSet {
    fn default() -> (r: SeenSet)
        ensures
            r@ == Seq::<Seq<char>>::empty(),
    {
        let order: Vec<String> = Vec::new();
        assert(texts(order@) =~= Seq::<Seq<char>>::empty());
        SeenSet { order }
    }
}

impl SeenSet {
    pub const CAP: usize = SEEN_CAP;

    #[verifier::type_invariant]
    spec fn sound(self) -> bool {
        seen_ok(texts(self.order@))
    }

    /// How many ids are remembered.
    pub fn len(&self) -> (r: usize)
        ensures
            r == self@.len(),
            r <= SEEN_CAP,
            seen_ok(self@),
    {
        proof {
            use_type_invariant(self);
        }
        self.order.len()
    }

    /// Whether an id is remembered.
    pub fn contains(&self, id: &str) -> (r: bool)
        ensures
            r == self@.contains(id@),
    {
        let mut i: usize = 0;
        while i < self.order.len()
            invariant
                i <= self.order@.len(),
                forall|j: int| 0 <= j < i ==> (#[trigger] self@[j]) != id@,
            decreases self.order@.len() - i,
        {
            if same(self.order[i].as_str(), id) {
                assert(self@[i as int] == id@);
                return true;
            }
            i = i + 1;
        }
        false
    }

    /// Remembers an id. `false` when it was remembered already.
    pub fn insert_new(&mut self, id: &str) -> (r: bool)
        ensures
            r == !old(self)@.contains(id@),
            final(self)@ == if r {
                remembered(old(self)@, id@)
            } else {
                old(self)@
            },
    {
        proof {
            use_type_invariant(&*self);
        }
        if self.contains(id) {
            return false;
        }
        let ghost before = texts(self.order@);
        let start: usize = if self.order.len() >= SEEN_CAP {
            SEEN_CAP / 2
        } else {
            0
        };
        let mut order: Vec<String> = Vec::new();
        let mut i: usize = start;
        assert(before.subrange(start as int, start as int) =~= texts(order@));
        while i < self.order.len()
            invariant
                start <= i <= self.order@.len(),
                before == texts(self.order@),
                texts(order@) == before.subrange(start as int, i as int),
            decreases self.order@.len() - i,
        {
            let ghost was = order@;
            order.push(self.order[i].clone());
            assert(texts(order@) =~= texts(was).push(before[i as int]));
            i = i + 1;
            assert(before.subrange(start as int, i as int) =~= before.subrange(
                start as int,
                i - 1,
            ).push(before[i - 1]));
        }
        let ghost was = order@;
        order.push(id.to_owned());
        proof {
            assert(texts(order@) =~= texts(was).push(id@));
            assert(before.subrange(start as int, before.len() as int) =~= before.skip(
                start as int,
            ));
            assert(before.skip(0) =~= before);
            assert(texts(order@) == remembered(before, id@));
            assert forall|a: int, b: int|
                0 <= a < texts(order@).len() && 0 <= b < texts(order@).len() && a != b implies (
            #[trigger] texts(order@)[a]) != (#[trigger] texts(order@)[b]) by {
                let n = texts(was).len() as int;
                if a < n {
                    assert(texts(order@)[a] == before[start + a]);
                }
                if b < n {
                    assert(texts(order@)[b] == before[start + b]);
                }
            }
        }
        *self = SeenSet { order };
        true
    }
}

/// An event is delivered once: an id that was just remembered is known, and the
/// memory stays within its cap with no id twice.
pub proof fn seen_once(s: Seq<Seq<char>>, id: Seq<char>)
    requires
        seen_ok(s),
        !s.contains(id),
    ensures
        remembered(s, id).contains(id),
        seen_ok(remembered(s, id)),
{
    let t = remembered(s, id);
    assert(t[t.len() - 1] == id);
    assert forall|a: int, b: int| 0 <= a < t.len() && 0 <= b < t.len() && a != b implies t[a]
        != t[b] by {
        let from = t.len() - 1;
        let start = s.len() - from;
        if a < from {
            assert(t[a] == s[start + a]);
        }
        if b < from {
            assert(t[b] == s[start + b]);
        }
    }
}

/// What a relay's frame says.
#[derive(Debug, Clone)]
pub enum Frame {
    /// An event, as JSON.
    Event(String),
    EndOfStored,
    Published { id: String, accepted: bool, message: String },
    /// Nothing this client acts on.
    Other,
}

/// What a frame says, as mathematics.
pub enum FrameView {
    Event(Seq<char>),
    EndOfStored,
    Published(Seq<char>, bool, Seq<char>),
    Other,
}

impl View for Frame {
    type V = FrameView;

    open spec fn view(&self) -> FrameView {
        match self {
            Frame::Event(json) => FrameView::Event(json@),
            Frame::EndOfStored => FrameView::EndOfStored,
            Frame::Published { id, accepted, message } => FrameView::Published(
                id@,
                *accepted,
                message@,
            ),
            Frame::Other => FrameView::Other,
        }
    }
}

/// A text, or the empty one.
pub open spec fn or_blank(o: Option<Seq<char>>) -> Seq<char> {
    match o {
        Some(s) => s,
        None => Seq::empty(),
    }
}

/// What the items of a frame say: its name, its second item as a string, its
/// third as a boolean and as JSON, and its fourth as a string.
pub open spec fn frame_of(
    name: Option<Seq<char>>,
    second: Option<Seq<char>>,
    flag: Option<bool>,
    third: Option<Seq<char>>,
    fourth: Option<Seq<char>>,
) -> FrameView {
    if name == Some("EVENT"@) && third is Some {
        FrameView::Event(third->Some_0)
    } else if name == Some("EOSE"@) {
        FrameView::EndOfStored
    } else if name == Some("OK"@) {
        FrameView::Published(or_blank(second), flag == Some(true), or_blank(fourth))
    } else {
        FrameView::Other
    }
}

fn blank_or(o: Option<String>) -> (r: String)
    ensures
        r@ == or_blank(opt_text(o)),
{
    match o {
        Some(s) => s,
        None => String::new(),
    }
}

/// Reads a frame out of its items.
pub fn frame_from_items(
    name: Option<String>,
    second: Option<String>,
    flag: Option<bool>,
    third: Option<String>,
    fourth: Option<String>,
) -> (r: Frame)
    ensures
        r@ == frame_of(opt_text(name), opt_text(second), flag, opt_text(third), opt_text(fourth)),
{
    proof {
        reveal_strlit("EVENT");
        reveal_strlit("EOSE");
        reveal_strlit("OK");
        assert("EVENT"@.len() != "EOSE"@.len() && "EOSE"@.len() != "OK"@.len());
    }
    match name {
        None => Frame::Other,
        Some(name) => {
            if same(name.as_str(), "EVENT") {
                match third {
                    Some(json) => Frame::Event(json),
                    None => Frame::Other,
                }
            } else if same(name.as_str(), "EOSE") {
                Frame::EndOfStored
            } else if same(name.as_str(), "OK") {
                let accepted: bool = match flag {
                    Some(b) => b,
                    None => false,
                };
                Frame::Published { id: blank_or(second), accepted, message: blank_or(fourth) }
            } else {
                Frame::Other
            }
        },
    }
}

/// What a text frame of a relay says.
pub open spec fn frame_said(text: Seq<char>) -> FrameView {
    frame_of(
        json_item_str(text, 0),
        json_item_str(text, 1),
        json_item_bool(text, 2),
        json_item_text(text, 2),
        json_item_str(text, 3),
    )
}

/// Reads a text frame of a relay.
pub fn parse_frame(text: &str) -> (r: Frame)
    ensures
        r@ == frame_said(text@),
{
    frame_from_items(
        item_str(text, 0),
        item_str(text, 1),
        item_bool(text, 2),
        item_text(text, 2),
        item_str(text, 3),
    )
}

/// Whether an event is handed on: it verifies, and it was not seen before.
pub fn admit_event(event: &Event, seen: &mut SeenSet) -> (r: bool)
    ensures
        r == (event.verifies() && !old(seen)@.contains(event.id@)),
        final(seen)@ == if r {
            remembered(old(seen)@, event.id@)
        } else {
            old(seen)@
        },
{
    if !event.verify() {
        return false;
    }
    seen.insert_new(event.id.as_str())
}

/// What is handed on for a frame that carries no event.
pub open spec fn answered(url: Seq<char>, frame: FrameView, r: Option<RelayEvent>) -> bool {
    match frame {
        FrameView::EndOfStored => r matches Some(RelayEvent::EndOfStored { relay }) && relay@
            == url,
        FrameView::Published(id, accepted, message) => r matches Some(
            RelayEvent::Published { relay, id: rid, accepted: ra, message: rm },
        ) && relay@ == url && rid@ == id && ra == accepted && rm@ == message,
        _ => r is None,
    }
}

/// What is handed on for an event that was read, and what is remembered of it.
pub open spec fn delivered(
    event: Event,
    before: Seq<Seq<char>>,
    after: Seq<Seq<char>>,
    r: Option<RelayEvent>,
) -> bool {
    if event.verifies() && !before.contains(event.id@) {
        r == Some(RelayEvent::Event(Box::new(event))) && after == remembered(before, event.id@)
    } else {
        r is None && after == before
    }
}

/// Reads a text frame of a relay and says what the application hears of it. An
/// event that does not verify, or that was heard before, never reaches it.
/// `read_event` turns JSON into an event.
pub fn handle_relay_message<F>(url: &str, text: &str, seen: &mut SeenSet, read_event: F) -> (r:
    Option<RelayEvent>) where F: Fn(&str) -> Option<Event>
    requires
        forall|json: &str| read_event.requires((json,)),
    ensures
        match frame_said(text@) {
            FrameView::Event(json) => exists|s: &str, read: Option<Event>|
                {
                    &&& s@ == json
                    &&& #[trigger] read_event.ensures((s,), read)
                    &&& match read {
                        None => r is None && final(seen)@ == old(seen)@,
                        Some(event) => delivered(event, old(seen)@, final(seen)@, r),
                    }
                },
            frame => answered(url@, frame, r) && final(seen)@ == old(seen)@,
        },
{
    match parse_frame(text) {
        Frame::Event(json) => {
            let s: &str = json.as_str();
            match read_event(s) {
                None => None,
                Some(event) => {
                    if admit_event(&event, seen) {
                        Some(RelayEvent::Event(Box::new(event)))
                    } else {
                        None
                    }
                },
            }
        },
        Frame::EndOfStored => Some(RelayEvent::EndOfStored { relay: url.to_owned() }),
        Frame::Published { id, accepted, message } => Some(
            RelayEvent::Published { relay: url.to_owned(), id, accepted, message },
        ),
        Frame::Other => None,
    }
}

} // verus!
