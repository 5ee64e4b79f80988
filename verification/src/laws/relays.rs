//! What holds of relays: what is asked of them, and what reaches the application.

use crate::json::{json_numbers, json_object, json_rows, json_string, json_strings};
use crate::nostr::event::Event;
use crate::nostr::relay::{
    Filter, FrameView, RelayEvent, answered, delivered, event_frame_json, frame_of, kinds_json,
    limit_json, list_json, optional_field, remembered, seen_ok, seen_once, since_json,
};
use crate::text::{decimal, decimal_int, text_rows, texts};
use vstd::prelude::*;
use vstd::string::*;

verus! {

/// Whether the members of an object are just those that a filter has, each under its
/// own name.
pub open spec fn says_what_it_asks(f: Filter, fields: Seq<(Seq<char>, Seq<char>)>) -> bool {
    let count = (if f.kinds is Some {
        1int
    } else {
        0
    }) + (if f.p is Some {
        1int
    } else {
        0
    }) + (if f.authors is Some {
        1int
    } else {
        0
    }) + (if f.since is Some {
        1int
    } else {
        0
    }) + (if f.limit is Some {
        1int
    } else {
        0
    });
    &&& fields.len() == count
    &&& f.kinds matches Some(v) ==> fields.contains(("kinds"@, json_numbers(v@)))
    &&& f.p matches Some(v) ==> fields.contains(("#p"@, json_strings(texts(v@))))
    &&& f.authors matches Some(v) ==> fields.contains(("authors"@, json_strings(texts(v@))))
    &&& f.since matches Some(t) ==> fields.contains(("since"@, decimal_int(t as int)))
    &&& f.limit matches Some(n) ==> fields.contains(("limit"@, decimal(n as nat)))
}

proof fn five_parts<T>(a: Seq<T>, b: Seq<T>, c: Seq<T>, d: Seq<T>, e: Seq<T>)
    ensures
        ({
            let all = a + b + c + d + e;
            &&& all.len() == a.len() + b.len() + c.len() + d.len() + e.len()
            &&& a.len() == 1 ==> all.contains(a[0])
            &&& b.len() == 1 ==> all.contains(b[0])
            &&& c.len() == 1 ==> all.contains(c[0])
            &&& d.len() == 1 ==> all.contains(d[0])
            &&& e.len() == 1 ==> all.contains(e[0])
        }),
{
    let all = a + b + c + d + e;
    if a.len() == 1 {
        assert(all[0] == a[0]);
    }
    if b.len() == 1 {
        assert(all[a.len() as int] == b[0]);
    }
    if c.len() == 1 {
        assert(all[(a.len() + b.len()) as int] == c[0]);
    }
    if d.len() == 1 {
        assert(all[(a.len() + b.len() + c.len()) as int] == d[0]);
    }
    if e.len() == 1 {
        assert(all[(a.len() + b.len() + c.len() + d.len()) as int] == e[0]);
    }
}

/// A filter is written as an object with just the members it has: kinds, recipients,
/// authors, a time and a count, each under its own name and with its own value.
pub proof fn a_filter_says_what_it_asks(f: Filter)
    ensures
        exists|fields: Seq<(Seq<char>, Seq<char>)>|
            f.json() == #[trigger] json_object(fields) && says_what_it_asks(f, fields),
        exists|fields: Seq<(Seq<char>, Seq<char>)>|
            f.sorted_json() == #[trigger] json_object(fields) && says_what_it_asks(f, fields),
{
    let k = optional_field("kinds"@, kinds_json(f));
    let p = optional_field("#p"@, list_json(f.p));
    let a = optional_field("authors"@, list_json(f.authors));
    let s = optional_field("since"@, since_json(f));
    let l = optional_field("limit"@, limit_json(f));
    five_parts(k, p, a, s, l);
    five_parts(p, a, k, l, s);
    let one = k + p + a + s + l;
    let two = p + a + k + l + s;
    assert(f.json() == json_object(one));
    assert(says_what_it_asks(f, one));
    assert(f.sorted_json() == json_object(two));
    assert(says_what_it_asks(f, two));
}

/// An event reaches the application once: exactly where it verifies and was not heard
/// before, and then unchanged. Heard again, from whichever relay, it does not.
pub proof fn an_event_is_heard_once(
    event: Event,
    before: Seq<Seq<char>>,
    mid: Seq<Seq<char>>,
    first: Option<RelayEvent>,
    after: Seq<Seq<char>>,
    again: Option<RelayEvent>,
)
    requires
        seen_ok(before),
        delivered(event, before, mid, first),
        delivered(event, mid, after, again),
    ensures
        first is Some <==> event.verifies() && !before.contains(event.id@),
        first matches Some(e) ==> e is Event && *e->Event_0 == event,
        again is None,
        after == mid,
{
    if event.verifies() && !before.contains(event.id@) {
        seen_once(before, event.id@);
    }
}

/// What was heard lately stays known: nothing is forgotten below the cap, and at the cap
/// nothing of the newer half.
pub proof fn what_was_heard_lately_is_known(s: Seq<Seq<char>>, id: Seq<char>)
    ensures
        remembered(s, id).last() == id,
        s.len() < 8192 ==> remembered(s, id).drop_last() == s,
        s.len() >= 8192 ==> remembered(s, id).len() == s.len() - 4096 + 1 && forall|i: int|
            4096 <= i < s.len() ==> #[trigger] s[i] == remembered(s, id)[i - 4096],
        s.len() <= 8192 ==> remembered(s, id).len() <= 8192,
{
    assert(s.push(id).drop_last() =~= s);
}

/// What a frame says goes by its name: an event is its third item, the end of what was
/// stored is that, and a receipt says accepted only where the relay says so.
pub proof fn frames_go_by_their_names(
    second: Option<Seq<char>>,
    flag: Option<bool>,
    third: Option<Seq<char>>,
    fourth: Option<Seq<char>>,
)
    ensures
        third matches Some(json) ==> frame_of(Some("EVENT"@), second, flag, third, fourth)
            == FrameView::Event(json),
        third is None ==> frame_of(Some("EVENT"@), second, flag, third, fourth)
            == FrameView::Other,
        frame_of(Some("EOSE"@), second, flag, third, fourth) == FrameView::EndOfStored,
        frame_of(Some("OK"@), second, flag, third, fourth) matches FrameView::Published(
            id,
            accepted,
            message,
        ) && (accepted <==> flag == Some(true)) && (second matches Some(s) ==> id == s) && (
        fourth matches Some(m) ==> message == m),
        frame_of(None, second, flag, third, fourth) == FrameView::Other,
        frame_of(Some("NOTICE"@), second, flag, third, fourth) == FrameView::Other,
{
    reveal_strlit("EVENT");
    reveal_strlit("EOSE");
    reveal_strlit("OK");
    reveal_strlit("NOTICE");
    assert("EVENT"@.len() == 5 && "EOSE"@.len() == 4 && "OK"@.len() == 2 && "NOTICE"@.len() == 6);
}

/// What is handed on names the relay it came from.
pub proof fn what_is_heard_names_its_relay(
    url: Seq<char>,
    frame: FrameView,
    r: Option<RelayEvent>,
)
    requires
        answered(url, frame, r),
    ensures
        r matches Some(RelayEvent::EndOfStored { relay }) ==> relay@ == url && frame is EndOfStored,
        frame is EndOfStored ==> r is Some && r->Some_0 is EndOfStored,
        frame matches FrameView::Published(id, accepted, message) ==> (r matches Some(
            RelayEvent::Published { relay, id: i, accepted: a, message: m },
        ) && relay@ == url && i@ == id && a == accepted && m@ == message),
        frame is Other ==> r is None,
{
}

/// An event goes out whole: each of its parts stands under its own name, and there is
/// nothing else.
pub proof fn an_event_goes_out_whole(e: Event)
    ensures
        exists|fields: Seq<(Seq<char>, Seq<char>)>|
            {
                &&& event_frame_json(e) == #[trigger] json_object(fields)
                &&& fields.len() == 7
                &&& fields.contains(("id"@, json_string(e.id@)))
                &&& fields.contains(("pubkey"@, json_string(e.pubkey@)))
                &&& fields.contains(("created_at"@, decimal_int(e.created_at as int)))
                &&& fields.contains(("kind"@, decimal(e.kind as nat)))
                &&& fields.contains(("tags"@, json_rows(text_rows(e.tags@))))
                &&& fields.contains(("content"@, json_string(e.content@)))
                &&& fields.contains(("sig"@, json_string(e.sig@)))
            },
{
    let fields = seq![
        ("content"@, json_string(e.content@)),
        ("created_at"@, decimal_int(e.created_at as int)),
        ("id"@, json_string(e.id@)),
        ("kind"@, decimal(e.kind as nat)),
        ("pubkey"@, json_string(e.pubkey@)),
        ("sig"@, json_string(e.sig@)),
        ("tags"@, json_rows(text_rows(e.tags@))),
    ];
    assert(event_frame_json(e) == json_object(fields));
    assert(fields[0] == ("content"@, json_string(e.content@)));
    assert(fields[1] == ("created_at"@, decimal_int(e.created_at as int)));
    assert(fields[2] == ("id"@, json_string(e.id@)));
    assert(fields[3] == ("kind"@, decimal(e.kind as nat)));
    assert(fields[4] == ("pubkey"@, json_string(e.pubkey@)));
    assert(fields[5] == ("sig"@, json_string(e.sig@)));
    assert(fields[6] == ("tags"@, json_rows(text_rows(e.tags@))));
}

} // verus!
