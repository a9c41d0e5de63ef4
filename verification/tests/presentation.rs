use gsw::domain::service::ServiceStatus;
use gsw::presentation::summary::display_optional_i64;
use gsw::presentation::terminal::{
    colored_status, display_optional_u64, display_u64, empty_dash, format_uptime, truncate,
};

#[test]
fn uptime_formats() {
    assert_eq!(format_uptime(59), "0m");
    assert_eq!(format_uptime(3_660), "1h 1m");
    assert_eq!(format_uptime(90_061), "1d 1h 1m");
}

#[test]
fn cells() {
    assert_eq!(display_u64(Some(42)), "42");
    assert_eq!(display_u64(None), "-");
    assert_eq!(display_optional_u64(Some(0)), "0");
    assert_eq!(display_optional_i64(Some(-5)), "-5");
    assert_eq!(display_optional_i64(None), "-");
    assert_eq!(truncate("abcdef", 3), "abc");
    assert_eq!(truncate("ab", 3), "ab");
    assert_eq!(empty_dash(""), "-");
    assert_eq!(empty_dash("x"), "x");
}

#[test]
fn statuses() {
    assert_eq!(ServiceStatus::Running.as_str(), "running");
    assert_eq!(ServiceStatus::Waiting.as_str(), "waiting");
    assert_eq!(colored_status(ServiceStatus::Error, false), "error");
    assert_eq!(colored_status(ServiceStatus::Running, true), "\x1b[32mrunning\x1b[0m");
}
