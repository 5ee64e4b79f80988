//! The bounds that others rely on, each where it counts.

use crate::net::{
    EMOJI_PER_REQUEST, IMAGES_PER_REQUEST, batches, batches_cover, emojis_sought, pictures_sought,
    requests_due, resolved,
};
use crate::nostr::metadata::{KIND_METADATA, control, drawable, invisible, squeezed};
use crate::nostr::nip02::KIND_CONTACTS;
use crate::nostr::nip17::{KIND_CHAT, KIND_DM_RELAYS};
use crate::nostr::nip44::fits;
use crate::nostr::nip59::{KIND_GIFT_WRAP, KIND_SEAL};
use crate::nostr::xp::{
    Act, GlobalXp, KIND_APP_DATA, Pace, act_time, acted, any_run_is_paced, at_rest, believed,
    in_order, quiet_between, sent_at,
};
use crate::protocol::ClientMessage;
use crate::state::AppState;
use crate::text::{texts, white_space};
use crate::voice::{GateState, stepped};
use vstd::prelude::*;
use vstd::string::*;

verus! {

/// Any two totals are published at least five minutes apart, in milliseconds.
pub proof fn totals_are_five_minutes_apart(acts: Seq<Act>, i: int, j: int)
    requires
        in_order(acts),
        0 <= i < j < acts.len(),
        sent_at(acts, i) is Some,
        sent_at(acts, j) is Some,
    ensures
        act_time(acts[j]) - act_time(acts[i]) >= 300_000,
        sent_at(acts, j)->Some_0 != sent_at(acts, i)->Some_0 || exists|k: int|
            i < k < j && #[trigger] sent_at(acts, k) is Some,
{
    any_run_is_paced(acts);
    if !(exists|k: int| i < k < j && #[trigger] sent_at(acts, k) is Some) {
        assert(quiet_between(acts, i, j));
    }
}

/// A total that waits goes out once its time has come, if nothing is published before.
pub proof fn a_waiting_total_goes_out(p: Pace, total: GlobalXp, now: u64, later: u64)
    requires
        p.last_at is Some,
        p.published != Some(total),
        p.last_at->Some_0 <= now,
        now - p.last_at->Some_0 < 300_000,
        later >= p.last_at->Some_0 + 300_000,
    ensures
        ({
            let waits = acted(p, Act::Offer { total, now });
            &&& waits.1 is None
            &&& acted(waits.0, Act::TakeDue { now: later }).1 == Some(total)
        }),
{
}

/// The first total goes out at once.
pub proof fn the_first_total_goes_at_once(total: GlobalXp, now: u64)
    ensures
        acted(at_rest(), Act::Offer { total, now }).1 == Some(total),
{
}

/// A claimed total is believed up to a hundred million, and what lies above is cut.
pub proof fn a_claim_is_cut(xp: GlobalXp)
    ensures
        believed(xp).xp <= 100_000_000,
        xp.xp <= 100_000_000 ==> believed(xp) == xp,
        xp.xp > 100_000_000 ==> believed(xp).xp == 100_000_000,
        believed(xp).servers == xp.servers,
{
}

/// A name is shown up to forty-eight characters, and a shorter one that holds nothing to
/// be removed as it is.
pub proof fn a_name_is_cut(raw: Seq<char>)
    ensures
        drawable(raw).len() <= 48,
        (forall|i: int|
            0 <= i < raw.len() ==> !invisible(#[trigger] raw[i]) && !white_space(raw[i])
                && !control(raw[i])) && raw.len() <= 48 ==> drawable(raw) == raw,
        (forall|i: int|
            0 <= i < raw.len() ==> !invisible(#[trigger] raw[i]) && !white_space(raw[i])
                && !control(raw[i])) && raw.len() > 48 ==> drawable(raw) == raw.take(48),
{
    if forall|i: int|
        0 <= i < raw.len() ==> !invisible(#[trigger] raw[i]) && !white_space(raw[i]) && !control(
            raw[i],
        ) {
        plain_is_kept(raw);
        if raw.len() > 0 {
            assert(!white_space(raw[raw.len() - 1]));
            assert(white_space(' '));
            assert(raw.last() != ' ');
        }
    }
}

proof fn plain_is_kept(s: Seq<char>)
    requires
        forall|i: int|
            0 <= i < s.len() ==> !invisible(#[trigger] s[i]) && !white_space(s[i]) && !control(
                s[i],
            ),
    ensures
        squeezed(s) == s,
    decreases s.len(),
{
    if s.len() > 0 {
        let t = s.drop_last();
        assert forall|i: int| 0 <= i < t.len() implies !invisible(#[trigger] t[i]) && !white_space(
            t[i],
        ) && !control(t[i]) by {
            assert(s[i] == t[i]);
        }
        plain_is_kept(t);
        assert(!invisible(s[s.len() - 1]));
        assert(t.push(s.last()) =~= s);
    } else {
        assert(squeezed(s) =~= s);
    }
}

/// What lies in a name that cannot be seen or controls the line is left out wherever it
/// stands.
pub proof fn what_cannot_be_seen_is_left_out(a: Seq<char>, c: char)
    ensures
        invisible(c) || (control(c) && !white_space(c)) ==> squeezed(a.push(c)) == squeezed(a),
        white_space(c) && !invisible(c) && squeezed(a).len() > 0 && squeezed(a).last() != ' '
            ==> squeezed(a.push(c)) == squeezed(a).push(' '),
        white_space(c) && squeezed(a).len() == 0 ==> squeezed(a.push(c)).len() == 0,
{
    assert(a.push(c).drop_last() =~= a);
}

/// An open noise gate holds for what is louder than half its level, and the envelope
/// loses a quarter with every silent frame.
pub proof fn an_open_gate_holds_at_half(g: GateState, peak: i32, open_at: i32)
    requires
        0 <= g.envelope <= 1_000_000,
        0 <= open_at <= 1_000_000,
    ensures
        g.hangover > 0 && 2 * peak > open_at ==> stepped(g, peak, open_at).hangover == 30,
        g.hangover > 0 && peak >= 0 && 2 * peak + 1 < open_at && 3 * g.envelope <= 4 * peak
            ==> stepped(g, peak, open_at).hangover == g.hangover - 1,
        stepped(g, 0, open_at).envelope <= g.envelope,
        4 * stepped(g, 0, open_at).envelope <= 3 * g.envelope < 4 * stepped(
            g,
            0,
            open_at,
        ).envelope + 4,
{
}

/// Whatever is asked of the gateway at once, a request names at least one picture and no
/// more than sixteen.
pub proof fn requests_are_small(
    o: AppState,
    disk: Map<Seq<char>, String>,
    now: u64,
    n: AppState,
    r: Seq<ClientMessage>,
    i: int,
)
    requires
        resolved(o, disk, now, n, r),
        0 <= i < r.len(),
    ensures
        r[i] is FetchEmoji,
        0 < r[i]->FetchEmoji_images@.len() <= 16,
{
    let first = batches(emojis_sought(o, disk, now).wanted, EMOJI_PER_REQUEST as nat);
    let second = batches(pictures_sought(o, disk, now).wanted, IMAGES_PER_REQUEST as nat);
    batches_cover(emojis_sought(o, disk, now).wanted, EMOJI_PER_REQUEST as nat);
    batches_cover(pictures_sought(o, disk, now).wanted, IMAGES_PER_REQUEST as nat);
    let due = requests_due(o, disk, now);
    assert(texts(r[i]->FetchEmoji_images@) == due[i]);
    assert(texts(r[i]->FetchEmoji_images@).len() == r[i]->FetchEmoji_images@.len());
    if i < first.len() {
        assert(due[i] == first[i]);
    } else {
        assert(due[i] == second[i - first.len()]);
    }
}

/// What can be sent as a message: at least one byte, and no more than two bytes can
/// count; and what is wrapped around it has the kinds that relays and readers know.
pub proof fn what_can_be_sent(n: nat)
    ensures
        fits(n) <==> 1 <= n <= 65_535,
        KIND_SEAL == 13 && KIND_GIFT_WRAP == 1059 && KIND_CHAT == 14,
        KIND_CONTACTS == 3 && KIND_DM_RELAYS == 10_050 && KIND_METADATA == 0,
        KIND_APP_DATA == 30_078,
{
}

} // verus!
