//! Seconds since the Unix epoch.
use crate::text::{concat, has_prefix};
use std::time::SystemTime;
use vstd::prelude::*;

verus! {

#[verifier::external_type_specification]
#[verifier::external_body]
pub struct ExSystemTime(SystemTime);

/// `SystemTime::now`: the current time. Nothing is claimed of it.
#[verifier::external_body]
fn system_now() -> SystemTime {
    SystemTime::now()
}

/// `SystemTime::duration_since(UNIX_EPOCH)`, in whole seconds, or the
/// text of its error where the time lies before the epoch. Nothing is
/// claimed of the value: it depends on the clock.
#[verifier::external_body]
fn secs_since_epoch(t: &SystemTime) -> Result<u64, String> {
    match t.duration_since(std::time::UNIX_EPOCH) {
        Ok(d) => Ok(d.as_secs()),
        Err(e) => Err(format!("{e}")),
    }
}

/// The current time in seconds since the Unix epoch, or an error where
/// the clock lies before it.
pub fn epoch_seconds() -> (r: Result<u64, String>)
    ensures
        r matches Err(m) ==> has_prefix(m@, "invalid system clock: "@),
{
    let now = system_now();
    match secs_since_epoch(&now) {
        Ok(n) => Ok(n),
        Err(e) => {
            let m = concat("invalid system clock: ", e.as_str());
            assert(m@.take("invalid system clock: "@.len() as int) =~= "invalid system clock: "@);
            Err(m)
        },
    }
}

} // verus!
