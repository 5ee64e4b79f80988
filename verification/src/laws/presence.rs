//! What holds of what is shown of a person's games.

use crate::json::{json_at_int, json_at_str, json_at_text};
use crate::net::ascii_lowered;
use crate::presence::detect::{Process, known, known_as, longest, with_extra};
use crate::presence::ipc::{FrameStep, command_in, followed, said};
use crate::protocol::{Activity, ActivityKind};
use crate::table::as_map;
use crate::text::{opt_text, trimmed};
use vstd::prelude::*;
use vstd::string::*;

verus! {

/// What is shown as played is a known program that runs, with the time since which it
/// does, and no known program has run longer. Nothing is shown exactly where nothing
/// known runs.
pub proof fn the_longest_game_is_shown(list: Map<Seq<char>, Seq<char>>, processes: Seq<Process>)
    ensures
        longest(list, processes) matches Some(best) ==> exists|i: int|
            {
                &&& 0 <= i < processes.len()
                &&& (#[trigger] processes[i]).started == best.0
                &&& known_as(list, processes[i]) == Some(best.1)
            },
        longest(list, processes) matches Some(best) ==> forall|i: int|
            0 <= i < processes.len() && known_as(list, #[trigger] processes[i]) is Some
                ==> processes[i].started >= best.0,
        longest(list, processes) is None <==> forall|i: int|
            0 <= i < processes.len() ==> known_as(list, #[trigger] processes[i]) is None,
    decreases processes.len(),
{
    if processes.len() > 0 {
        let rest = processes.drop_last();
        let p = processes.last();
        the_longest_game_is_shown(list, rest);
        let before = longest(list, rest);
        let all = longest(list, processes);
        assert(processes[processes.len() - 1] == p);
        if let Some(best) = before {
            let i = choose|i: int|
                {
                    &&& 0 <= i < rest.len()
                    &&& (#[trigger] rest[i]).started == best.0
                    &&& known_as(list, rest[i]) == Some(best.1)
                };
            assert(processes[i] == rest[i]);
            assert(known_as(list, processes[i]) is Some);
        }
        if let Some(best) = all {
            assert forall|i: int|
                0 <= i < processes.len() && known_as(list, #[trigger] processes[i]) is Some implies
                processes[i].started >= best.0 by {
                if i < rest.len() {
                    assert(rest[i] == processes[i]);
                    assert(before is Some);
                }
            }
        } else {
            assert forall|i: int| 0 <= i < processes.len() implies known_as(
                list,
                #[trigger] processes[i],
            ) is None by {
                if i < rest.len() {
                    assert(rest[i] == processes[i]);
                }
            }
        }
    }
}

/// A program is known by its file before its own name, and the case of letters does not
/// matter.
pub proof fn a_file_comes_before_a_name(list: Map<Seq<char>, Seq<char>>, p: Process)
    ensures
        p.exe matches Some(e) ==> list.dom().contains(ascii_lowered(e@)) ==> known_as(list, p)
            == Some(list[ascii_lowered(e@)]),
        (p.exe matches Some(e) ==> !list.dom().contains(ascii_lowered(e@))) ==> known_as(list, p)
            == if list.dom().contains(ascii_lowered(p.name@)) {
            Some(list[ascii_lowered(p.name@)])
        } else {
            None
        },
{
}

proof fn keys_are_mapped<K, V>(s: Seq<(K, V)>)
    ensures
        forall|i: int| 0 <= i < s.len() ==> as_map(s).dom().contains((#[trigger] s[i]).0),
    decreases s.len(),
{
    if s.len() > 0 {
        let rest = s.drop_last();
        keys_are_mapped(rest);
        assert forall|i: int| 0 <= i < s.len() implies as_map(s).dom().contains(
            (#[trigger] s[i]).0,
        ) by {
            if i < rest.len() {
                assert(rest[i] == s[i]);
            }
        }
    }
}

/// What a person adds to the list counts: its file is known, by the name they gave, if
/// nothing behind it names the same file. What was known stays so.
pub proof fn what_is_added_is_known(extra: Seq<(String, String)>, k: int)
    requires
        0 <= k < extra.len(),
    ensures
        trimmed(extra[k].0@).len() > 0 && trimmed(extra[k].1@).len() > 0 ==> with_extra(
            extra,
        ).dom().contains(ascii_lowered(trimmed(extra[k].0@))),
        trimmed(extra[k].0@).len() > 0 && trimmed(extra[k].1@).len() > 0 && (forall|j: int|
            k < j < extra.len() ==> ascii_lowered(trimmed((#[trigger] extra[j]).0@))
                != ascii_lowered(trimmed(extra[k].0@))) ==> with_extra(extra)[ascii_lowered(
            trimmed(extra[k].0@),
        )] == trimmed(extra[k].1@),
        forall|i: int|
            0 <= i < known().len() ==> with_extra(extra).dom().contains((#[trigger] known()[i]).0),
    decreases extra.len(),
{
    let rest = extra.drop_last();
    known_stays(extra);
    if k < rest.len() {
        what_is_added_is_known(rest, k);
        assert(rest[k] == extra[k]);
        let file = ascii_lowered(trimmed(extra[k].0@));
        if forall|j: int|
            k < j < extra.len() ==> ascii_lowered(trimmed((#[trigger] extra[j]).0@)) != file {
            assert forall|j: int| k < j < rest.len() implies ascii_lowered(
                trimmed((#[trigger] rest[j]).0@),
            ) != file by {
                assert(rest[j] == extra[j]);
            }
            assert(ascii_lowered(trimmed(extra[extra.len() - 1].0@)) != file);
        }
    }
}

proof fn known_stays(extra: Seq<(String, String)>)
    ensures
        forall|i: int|
            0 <= i < known().len() ==> with_extra(extra).dom().contains((#[trigger] known()[i]).0),
    decreases extra.len(),
{
    if extra.len() > 0 {
        known_stays(extra.drop_last());
    } else {
        keys_are_mapped(known());
    }
}

/// What a game says of itself is shown under its name, or under what it says first, and
/// that is not said again below. A game that says nothing is not shown.
pub proof fn a_game_is_shown_by_its_name(
    name: Option<Seq<char>>,
    details: Option<Seq<char>>,
    state: Option<Seq<char>>,
    start: Option<i64>,
    r: Option<Activity>,
)
    requires
        said(name, details, state, start, r),
    ensures
        name matches Some(n) ==> trimmed(n).len() > 0 ==> r is Some && r->Some_0.name@ == n,
        (name matches Some(n) ==> trimmed(n).len() == 0) && details is Some && trimmed(
            details->Some_0,
        ).len() > 0 ==> r is Some && r->Some_0.name@ == details->Some_0 && r->Some_0.details is None,
        r is None <==> (name matches Some(n) ==> trimmed(n).len() == 0) && (
        details matches Some(d) ==> trimmed(d).len() == 0) && (state matches Some(s) ==> trimmed(
            s,
        ).len() == 0),
        r matches Some(a) ==> a.kind == ActivityKind::Playing && trimmed(a.name@).len() > 0,
        r matches Some(a) ==> (a.details matches Some(d) ==> details == Some(d@) && d@ != a.name@
            && trimmed(d@).len() > 0),
        r matches Some(a) ==> (a.state matches Some(s) ==> state == Some(s@) && s@ != a.name@
            && trimmed(s@).len() > 0),
        r matches Some(a) ==> details is Some && details->Some_0 != a.name@ && trimmed(
            details->Some_0,
        ).len() > 0 ==> opt_text(a.details) == details,
        r matches Some(a) ==> (start is None ==> a.started_ms is None),
        r matches Some(a) ==> start matches Some(t) ==> t >= 978_307_200_000 ==> a.started_ms
            == Some(t),
        r matches Some(a) ==> start matches Some(t) ==> 0 < t < 978_307_200_000 ==> a.started_ms
            is Some && a.started_ms->Some_0 == t * 1000,
{
}

/// A game is heard only after its greeting, and only where it sets what it is doing. A
/// greeting is answered, a ping is answered with what it carried, a command with its
/// mark, and only a goodbye closes.
pub proof fn a_game_is_heard_after_its_greeting(
    handshaken: bool,
    op: u32,
    body: Seq<u8>,
    r: FrameStep,
)
    requires
        followed(handshaken, op, body, r),
    ensures
        r.update is Some ==> handshaken && op == 1 && json_at_str(body, "/cmd"@) == Some(
            "SET_ACTIVITY"@,
        ),
        handshaken && op == 1 && json_at_str(body, "/cmd"@) == Some("SET_ACTIVITY"@) ==> r.update
            is Some && said(
            json_at_str(body, "/args/activity/name"@),
            json_at_str(body, "/args/activity/details"@),
            json_at_str(body, "/args/activity/state"@),
            json_at_int(body, "/args/activity/timestamps/start"@),
            r.update->Some_0.activity,
        ),
        r.handshaken == (handshaken || op == 0),
        r.close == (op == 2),
        op == 0 ==> r.reply is Some && r.reply->Some_0.0 == 1,
        op == 3 ==> r.reply is Some && r.reply->Some_0.0 == 4 && (json_at_text(body, ""@) matches Some(
            t,
        ) ==> r.reply->Some_0.1@ == t),
        op == 1 ==> (r.reply is Some) == handshaken,
        op == 1 && handshaken ==> r.reply->Some_0.0 == 1,
        op == 2 || op > 3 ==> r.reply is None,
{
    reveal_strlit("SET_ACTIVITY");
    if json_at_str(body, "/cmd"@) is None {
        assert(command_in(body).len() == 0);
        assert("SET_ACTIVITY"@.len() > 0);
    }
}

} // verus!
