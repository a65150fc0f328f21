//! Human-readable ages.
use vstd::prelude::*;
use crate::utils::text::{decimal, to_decimal};

verus! {

/// `n`, then the unit, pluralised unless `n` is 1, then " ago".
pub open spec fn ago(n: nat, unit: Seq<char>) -> Seq<char> {
    decimal(n) + unit + (if n == 1 {
        ""@
    } else {
        "s"@
    }) + " ago"@
}

/// How long before `now` the moment `unix_secs` was, both in seconds since
/// the Unix epoch: a moment in the future or less than a minute ago is
/// "just now"; then whole minutes, hours, days, weeks (of 7 days), months
/// (of 30 days) and years (of 365 days), each unit used up to the next.
pub open spec fn age_text(unix_secs: u64, now: u64) -> Seq<char> {
    let diff = now - unix_secs;
    if unix_secs > now || diff < 60 {
        "just now"@
    } else if diff < 3600 {
        decimal((diff / 60) as nat) + " min ago"@
    } else if diff < 86400 {
        decimal((diff / 3600) as nat) + " hr ago"@
    } else if diff < 604800 {
        ago((diff / 86400) as nat, " day"@)
    } else if diff < 2592000 {
        ago((diff / 604800) as nat, " week"@)
    } else if diff < 31536000 {
        ago((diff / 2592000) as nat, " month"@)
    } else {
        ago((diff / 31536000) as nat, " year"@)
    }
}

fn ago_exec(n: u64, unit: &str) -> (r: String)
    ensures
        r@ == ago(n as nat, unit@),
{
    let mut r = to_decimal(n);
    r.append(unit);
    if n == 1 {
        r.append("");
    } else {
        r.append("s");
    }
    r.append(" ago");
    r
}

/// The age of `unix_secs` at the moment `now` (`age_text`).
pub fn format_age_at(unix_secs: u64, now: u64) -> (r: String)
    ensures
        r@ == age_text(unix_secs, now),
{
    if unix_secs > now {
        return String::from_str("just now");
    }
    let diff = now - unix_secs;
    if diff < 60 {
        String::from_str("just now")
    } else if diff < 3600 {
        let mut r = to_decimal(diff / 60);
        r.append(" min ago");
        r
    } else if diff < 86400 {
        let mut r = to_decimal(diff / 3600);
        r.append(" hr ago");
        r
    } else if diff < 86400 * 7 {
        ago_exec(diff / 86400, " day")
    } else if diff < 86400 * 30 {
        ago_exec(diff / (86400 * 7), " week")
    } else if diff < 86400 * 365 {
        ago_exec(diff / (86400 * 30), " month")
    } else {
        ago_exec(diff / (86400 * 365), " year")
    }
}

/// The current time in whole seconds since the Unix epoch.
///
/// Trusted: reads the system clock (`SystemTime::now`) and converts it with
/// `duration_since(UNIX_EPOCH)`, `unwrap_or_default` and `as_secs`; nothing
/// is claimed of the value, which depends on the clock.
#[verifier::external_body]
pub(crate) fn unix_now() -> u64 {
    std::time::SystemTime::now().duration_since(std::time::UNIX_EPOCH).unwrap_or_default().as_secs()
}

/// Format a unix timestamp as a human-readable age (e.g. "3 months ago"),
/// measured from the current time.
pub fn format_age(unix_secs: u64) -> (r: String)
    ensures
        exists|now: u64| r@ == age_text(unix_secs, now),
{
    let now = unix_now();
    format_age_at(unix_secs, now)
}

} // verus!
