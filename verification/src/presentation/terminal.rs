//! Cells of the terminal dashboard.
use crate::domain::service::{status_name, ServiceStatus};
use crate::text::{chars_of, concat, concat3, decimal, string_from, u64_to_string};
use vstd::prelude::*;

verus! {

/// `d h m`, `h m` or `m` of an uptime in seconds.
pub open spec fn uptime_text(secs: u64) -> Seq<char> {
    let days = secs / 86_400;
    let hours = (secs % 86_400) / 3_600;
    let minutes = (secs % 3_600) / 60;
    if days > 0 {
        decimal(days as nat) + "d "@ + decimal(hours as nat) + "h "@ + decimal(minutes as nat) + "m"@
    } else if hours > 0 {
        decimal(hours as nat) + "h "@ + decimal(minutes as nat) + "m"@
    } else {
        decimal(minutes as nat) + "m"@
    }
}

pub fn format_uptime(secs: u64) -> (s: String)
    ensures
        s@ == uptime_text(secs),
{
    let days = secs / 86_400;
    let hours = (secs % 86_400) / 3_600;
    let minutes = (secs % 3_600) / 60;
    let m = u64_to_string(minutes);
    if days > 0 {
        let d = u64_to_string(days);
        let h = u64_to_string(hours);
        let mut s = concat(d.as_str(), "d ");
        s.append(h.as_str());
        s.append("h ");
        s.append(m.as_str());
        s.append("m");
        s
    } else if hours > 0 {
        let h = u64_to_string(hours);
        let mut s = concat(h.as_str(), "h ");
        s.append(m.as_str());
        s.append("m");
        s
    } else {
        concat(m.as_str(), "m")
    }
}

/// The days, hours and minutes shown add up to the uptime, less its
/// seconds; hours stay below a day and minutes below an hour.
pub proof fn lemma_uptime_parts(secs: u64)
    ensures
        (secs / 86_400) * 86_400 + ((secs % 86_400) / 3_600) * 3_600 + ((secs % 3_600) / 60) * 60
            + secs % 60 == secs,
        (secs % 86_400) / 3_600 < 24,
        (secs % 3_600) / 60 < 60,
{
    assert((secs % 86_400) % 3_600 == secs % 3_600) by (nonlinear_arith);
    assert((secs % 3_600) % 60 == secs % 60) by (nonlinear_arith);
}

/// A number, or `-` where there is none.
pub open spec fn optional_number(v: Option<u64>) -> Seq<char> {
    match v {
        Some(n) => decimal(n as nat),
        None => "-"@,
    }
}

pub fn display_u64(value: Option<u64>) -> (s: String)
    ensures
        s@ == optional_number(value),
{
    match value {
        Some(n) => u64_to_string(n),
        None => crate::text::owned("-"),
    }
}

pub fn display_optional_u64(value: Option<u64>) -> (s: String)
    ensures
        s@ == optional_number(value),
{
    display_u64(value)
}

/// The first `max_chars` characters.
pub open spec fn truncated(value: Seq<char>, max_chars: usize) -> Seq<char> {
    if value.len() > max_chars {
        value.take(max_chars as int)
    } else {
        value
    }
}

pub fn truncate(value: &str, max_chars: usize) -> (s: String)
    ensures
        s@ == truncated(value@, max_chars),
{
    let c = chars_of(value);
    if c.len() > max_chars {
        let t = crate::text::slice_range(c.as_slice(), 0, max_chars);
        string_from(t.as_slice())
    } else {
        string_from(c.as_slice())
    }
}

/// The ANSI color code of a status: green running, cyan starting, yellow
/// waiting, red error.
pub open spec fn status_color(status: ServiceStatus) -> Seq<char> {
    match status {
        ServiceStatus::Running => "32"@,
        ServiceStatus::Starting => "36"@,
        ServiceStatus::Waiting => "33"@,
        ServiceStatus::Error => "31"@,
    }
}

pub open spec fn colored_status_text(status: ServiceStatus, color: bool) -> Seq<char> {
    if !color {
        status_name(status)
    } else {
        "\x1b["@ + status_color(status) + "m"@ + status_name(status) + "\x1b[0m"@
    }
}

pub fn colored_status(status: ServiceStatus, color: bool) -> (s: String)
    ensures
        s@ == colored_status_text(status, color),
{
    let value = status.as_str();
    if !color {
        return crate::text::owned(value);
    }
    let code = match status {
        ServiceStatus::Running => "32",
        ServiceStatus::Starting => "36",
        ServiceStatus::Waiting => "33",
        ServiceStatus::Error => "31",
    };
    let mut s = concat3("\x1b[", code, "m");
    s.append(value);
    s.append("\x1b[0m");
    s
}

/// The value, or `-` where it is empty.
pub fn empty_dash(value: &str) -> (s: &str)
    ensures
        s@ == if value@.len() == 0 {
            "-"@
        } else {
            value@
        },
{
    if value.is_empty() {
        "-"
    } else {
        value
    }
}

} // verus!
