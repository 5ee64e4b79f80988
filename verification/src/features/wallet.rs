//! What the wallet shows.

use crate::text::{decimal, decimal_int, decimal_int_text, decimal_text};
use vstd::prelude::*;
use vstd::string::*;

verus! {

/// A text with its middle left out, when it is longer than its two ends and the
/// mark between them.
pub open spec fn middle_out(s: Seq<char>, head: nat, tail: nat) -> Seq<char> {
    if s.len() <= head + tail + 1 {
        s
    } else {
        s.take(head as int) + "…"@ + s.skip(s.len() - tail)
    }
}

/// Leaves the middle of a text out.
pub fn truncate_middle(s: &str, head: usize, tail: usize) -> (r: String)
    requires
        head + tail < usize::MAX,
    ensures
        r@ == middle_out(s@, head as nat, tail as nat),
{
    let n: usize = s.unicode_len();
    if n <= head + tail + 1 {
        return s.to_owned();
    }
    let front: &str = s.substring_char(0, head);
    let back: &str = s.substring_char(n - tail, n);
    assert(s@.subrange(0, head as int) =~= s@.take(head as int));
    assert(s@.subrange(n - tail, n as int) =~= s@.skip(n - tail));
    front.to_owned().concat("…").concat(back)
}

/// How long ago a moment was, in the largest unit that fits; a moment that is
/// still to come stands as it is.
pub open spec fn ago(secs: int, now: int) -> Seq<char> {
    let s = now - secs;
    if s < 0 {
        decimal_int(secs)
    } else if s < 60 {
        decimal(s as nat) + "s ago"@
    } else if s < 3600 {
        decimal(s as nat / 60) + "m ago"@
    } else if s < 86_400 {
        decimal(s as nat / 3600) + "h ago"@
    } else {
        decimal(s as nat / 86_400) + "d ago"@
    }
}

/// Says how long ago a moment was. A clock that is behind leaves the raw time.
pub fn format_unix_relative(secs: i64, now: i64) -> (r: String)
    requires
        i64::MIN <= now - secs <= i64::MAX,
    ensures
        r@ == ago(secs as int, now as int),
{
    let diff: i64 = now - secs;
    if diff < 0 {
        return decimal_int_text(secs);
    }
    let s: u64 = diff as u64;
    if s < 60 {
        decimal_text(s).concat("s ago")
    } else if s < 3600 {
        decimal_text(s / 60).concat("m ago")
    } else if s < 86_400 {
        decimal_text(s / 3600).concat("h ago")
    } else {
        decimal_text(s / 86_400).concat("d ago")
    }
}

/// How a transfer stands.
#[derive(Debug, Clone, PartialEq, Eq)]
pub enum Status {
    Idle,
    Sending,
    Sent { signature: String, explorer_url: String },
    Failed(String),
}

/// What a transfer shows once an amount was typed: whether it is a number, and the
/// whole units it comes to, when it comes to any.
pub fn begin_send(is_number: bool, units: Option<u64>) -> (r: Status)
    ensures
        !is_number ==> (r matches Status::Failed(e) && e@ == "amount must be a number"@),
        is_number && units is None ==> (r matches Status::Failed(e) && e@
            == "amount must be positive"@),
        is_number && units is Some ==> r is Sending,
{
    if !is_number {
        return Status::Failed("amount must be a number".to_owned());
    }
    if units.is_none() {
        return Status::Failed("amount must be positive".to_owned());
    }
    Status::Sending
}

/// What a transfer shows once the network has answered.
pub fn finish_send(result: Result<String, String>, explorer_url: String) -> (r: Status)
    ensures
        match result {
            Ok(signature) => r == (Status::Sent { signature, explorer_url }),
            Err(e) => r == Status::Failed(e),
        },
{
    match result {
        Ok(signature) => Status::Sent { signature, explorer_url },
        Err(e) => Status::Failed(e),
    }
}

/// The label of a transaction, and when it was.
pub fn activity_row(failed: bool, block_time: Option<i64>, now: i64) -> (r: (&'static str, String))
    requires
        block_time is Some ==> i64::MIN <= now - block_time->Some_0 <= i64::MAX,
    ensures
        r.0@ == if failed {
            "failed"@
        } else {
            "ok"@
        },
        r.1@ == match block_time {
            Some(t) => ago(t as int, now as int),
            None => "pending"@,
        },
{
    let label: &'static str = if failed {
        "failed"
    } else {
        "ok"
    };
    let when: String = match block_time {
        Some(t) => format_unix_relative(t, now),
        None => "pending".to_owned(),
    };
    (label, when)
}

/// What is shown of an account: each part is loading, there, or failed.
#[derive(Debug)]
pub struct Account<T, H> {
    pub balance: Option<u64>,
    pub balance_error: Option<String>,
    pub tokens: Vec<T>,
    pub tokens_error: Option<String>,
    pub history: Vec<H>,
    pub history_error: Option<String>,
}

/// The failure of a part, where it failed.
pub open spec fn failure<A>(r: Result<A, String>) -> Option<String> {
    match r {
        Ok(_) => None,
        Err(e) => Some(e),
    }
}

/// The items of a part, none where it failed.
pub open spec fn items<A>(r: Result<Vec<A>, String>) -> Seq<A> {
    match r {
        Ok(v) => v@,
        Err(_) => Seq::empty(),
    }
}

fn split<A>(r: Result<Vec<A>, String>) -> (p: (Vec<A>, Option<String>))
    ensures
        p.0@ == items(r),
        p.1 == failure(r),
{
    match r {
        Ok(v) => (v, None),
        Err(e) => {
            let none: Vec<A> = Vec::new();
            assert(none@ =~= Seq::<A>::empty());
            (none, Some(e))
        },
    }
}

impl<T, H> Account<T, H> {
    /// An account of which nothing is known yet. Changing the network begins here
    /// again, so that nothing of another network is shown.
    pub fn loading() -> (r: Account<T, H>)
        ensures
            r.balance is None && r.balance_error is None && r.tokens_error is None
                && r.history_error is None,
            r.tokens@.len() == 0 && r.history@.len() == 0,
    {
        Account {
            balance: None,
            balance_error: None,
            tokens: Vec::new(),
            tokens_error: None,
            history: Vec::new(),
            history_error: None,
        }
    }

    /// An account as three answers give it. One that failed does not hide the others.
    pub fn loaded(
        balance: Result<u64, String>,
        tokens: Result<Vec<T>, String>,
        history: Result<Vec<H>, String>,
    ) -> (r: Account<T, H>)
        ensures
            r.balance == match balance {
                Ok(n) => Some(n),
                Err(_) => None,
            },
            r.balance_error == failure(balance),
            r.tokens@ == items(tokens),
            r.tokens_error == failure(tokens),
            r.history@ == items(history),
            r.history_error == failure(history),
    {
        let (balance, balance_error): (Option<u64>, Option<String>) = match balance {
            Ok(n) => (Some(n), None),
            Err(e) => (None, Some(e)),
        };
        let (tokens, tokens_error): (Vec<T>, Option<String>) = split(tokens);
        let (history, history_error): (Vec<H>, Option<String>) = split(history);
        Account { balance, balance_error, tokens, tokens_error, history, history_error }
    }
}

} // verus!
