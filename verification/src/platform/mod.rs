//! Process discovery, Docker PID resolution and the clock.
pub mod process;
pub mod time;
