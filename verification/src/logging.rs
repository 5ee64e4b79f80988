//! What is logged, and when the log is rolled over.

use vstd::prelude::*;
use vstd::string::*;

verus! {

/// The size at which the log is rolled over, in bytes.
pub const LOG_MAX_BYTES: u64 = 5 * 1024 * 1024;

/// The crate whose events are logged in full.
pub fn log_crate_root() -> (r: &'static str)
    ensures
        r@ == "Discordia"@,
{
    "Discordia"
}

/// The filter that is used where none was set.
pub fn default_filter() -> (r: String)
    ensures
        r@ == "warn,"@ + "Discordia"@ + "=info,dioxusfun_server=info"@,
{
    "warn,".to_owned().concat(log_crate_root()).concat("=info,dioxusfun_server=info")
}

/// Whether a log of some size is rolled over. One that is not there is not.
pub fn rolls_over(len: Option<u64>, max_bytes: u64) -> (r: bool)
    ensures
        r == (len is Some && len->Some_0 >= max_bytes),
{
    match len {
        Some(n) => n >= max_bytes,
        None => false,
    }
}

} // verus!
