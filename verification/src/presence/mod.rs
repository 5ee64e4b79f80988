//! What we tell others that we are doing.
//!
//! A game that speaks for itself beats one that was merely seen running.

use crate::protocol::{Activity, ActivityKind, ClientMessage, copy_text};
use crate::text::{opt_text, same};
use vstd::prelude::*;
use vstd::string::*;

pub mod detect;
pub mod ipc;

verus! {

/// How often the processes are looked through, in seconds.
pub const SCAN_EVERY: u64 = 15;

/// Who says what we are doing.
#[derive(Debug, Clone, Copy, PartialEq, Eq, Structural)]
pub enum Source {
    /// A game that told us itself.
    Rpc,
    /// A process that was recognised.
    Detected,
}

/// What each of the two says.
#[derive(Debug)]
pub struct Merge {
    pub rpc: Option<Activity>,
    pub detected: Option<Activity>,
}

/// What is shown of the two.
pub open spec fn shown(m: Merge) -> Option<Activity> {
    match m.rpc {
        Some(a) => Some(a),
        None => m.detected,
    }
}

impl Default for Merge {
    fn default() -> (r: Merge)
        ensures
            r == (Merge { rpc: None, detected: None }),
    {
        Merge { rpc: None, detected: None }
    }
}

impl Merge {
    /// Takes in what one of the two says.
    pub fn apply(&mut self, source: Source, activity: Option<Activity>)
        ensures
            *final(self) == match source {
                Source::Rpc => Merge { rpc: activity, ..*old(self) },
                Source::Detected => Merge { detected: activity, ..*old(self) },
            },
    {
        match source {
            Source::Rpc => {
                self.rpc = activity;
            },
            Source::Detected => {
                self.detected = activity;
            },
        }
    }

    /// What is shown: what a game says of itself, else what was seen.
    pub fn current(&self) -> (r: Option<&Activity>)
        ensures
            match r {
                Some(a) => shown(*self) == Some(*a),
                None => shown(*self) is None,
            },
    {
        match &self.rpc {
            Some(a) => Some(a),
            None => match &self.detected {
                Some(a) => Some(a),
                None => None,
            },
        }
    }
}

/// A game that speaks outranks one that was seen, in whatever order they come; and
/// when it falls silent, what can still be seen is shown.
pub proof fn speaking_outranks_seeing(m: Merge, said: Activity, seen: Option<Activity>)
    ensures
        shown(Merge { rpc: Some(said), detected: seen }) == Some(said),
        shown(Merge { rpc: None, detected: seen }) == seen,
        shown(Merge { rpc: Some(said), ..(Merge { detected: seen, ..m }) }) == shown(
            Merge { detected: seen, ..(Merge { rpc: Some(said), ..m }) },
        ),
{
}

/// What an activity says, as mathematics.
pub struct ActivityView {
    pub kind: ActivityKind,
    pub name: Seq<char>,
    pub details: Option<Seq<char>>,
    pub state: Option<Seq<char>>,
    pub started_ms: Option<i64>,
}

/// What an activity says.
pub open spec fn activity_view(a: Activity) -> ActivityView {
    ActivityView {
        kind: a.kind,
        name: a.name@,
        details: opt_text(a.details),
        state: opt_text(a.state),
        started_ms: a.started_ms,
    }
}

/// What an optional activity says.
pub open spec fn opt_activity(a: Option<Activity>) -> Option<ActivityView> {
    match a {
        Some(a) => Some(activity_view(a)),
        None => None,
    }
}

fn same_opt(a: &Option<String>, b: &Option<String>) -> (r: bool)
    ensures
        r == (opt_text(*a) == opt_text(*b)),
{
    match (a, b) {
        (Some(x), Some(y)) => same(x.as_str(), y.as_str()),
        (None, None) => true,
        _ => false,
    }
}

fn same_time(a: Option<i64>, b: Option<i64>) -> (r: bool)
    ensures
        r == (a == b),
{
    match (a, b) {
        (Some(x), Some(y)) => x == y,
        (None, None) => true,
        _ => false,
    }
}

fn same_activity(a: &Activity, b: &Activity) -> (r: bool)
    ensures
        r == (activity_view(*a) == activity_view(*b)),
{
    a.kind == b.kind && same(a.name.as_str(), b.name.as_str()) && same_opt(&a.details, &b.details)
        && same_opt(&a.state, &b.state) && same_time(a.started_ms, b.started_ms)
}

/// A copy of an activity.
pub fn copy_activity(a: &Activity) -> (r: Activity)
    ensures
        r == *a,
{
    Activity {
        kind: a.kind,
        name: a.name.clone(),
        details: copy_text(&a.details),
        state: copy_text(&a.state),
        started_ms: a.started_ms,
    }
}

/// What the gateway is to be told: what is shown, or nothing at all when it is not
/// shared; and only when that differs from what it was told last.
pub fn announcement(share: bool, merge: &Merge, published: &Option<Activity>) -> (r: Option<
    ClientMessage,
>)
    ensures
        ({
            let now = if share {
                shown(*merge)
            } else {
                None
            };
            if opt_activity(now) == opt_activity(*published) {
                r is None
            } else {
                r == Some(ClientMessage::SetActivity { activity: now })
            }
        }),
{
    let now: Option<&Activity> = if share {
        merge.current()
    } else {
        None
    };
    let unchanged: bool = match (now, published) {
        (Some(a), Some(b)) => same_activity(a, b),
        (None, None) => true,
        _ => false,
    };
    if unchanged {
        return None;
    }
    let activity: Option<Activity> = match now {
        Some(a) => Some(copy_activity(a)),
        None => None,
    };
    Some(ClientMessage::SetActivity { activity })
}

/// What the service is set to.
#[derive(Debug, Clone, Copy, PartialEq, Eq, Structural)]
pub struct Config {
    pub share: bool,
    pub detect: bool,
    pub discord_socket: bool,
}

/// What the service has to begin or to end.
#[derive(Debug, Clone, Copy, PartialEq, Eq, Structural)]
pub struct ServiceStep {
    pub start_scan: bool,
    pub stop_scan: bool,
    /// The socket is opened once and kept, so that nobody else takes its name.
    pub listen: bool,
}

/// Decides what the service has to begin or to end. Nothing runs that was not asked
/// for.
pub fn service_step(cfg: Config, scanning: bool, listening: bool) -> (r: ServiceStep)
    ensures
        r.start_scan == (cfg.share && cfg.detect && !scanning),
        r.stop_scan == (scanning && !(cfg.share && cfg.detect)),
        r.listen == (cfg.share && !listening),
{
    ServiceStep {
        start_scan: cfg.share && cfg.detect && !scanning,
        stop_scan: scanning && !(cfg.share && cfg.detect),
        listen: cfg.share && !listening,
    }
}

} // verus!
