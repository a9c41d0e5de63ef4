//! Retention of samples by age and by count per service, and the outcome
//! checks of statements.
use crate::text::{contains_str, owned, str_contains};
use vstd::prelude::*;

verus! {

/// What pruning deletes: samples older than `cutoff_epoch`, and samples
/// of a service beyond its newest `max_rows_per_service`; `None` turns a
/// rule off.
#[derive(Debug, Clone, Copy, PartialEq, Eq)]
pub struct PrunePlan {
    pub cutoff_epoch: Option<i64>,
    pub max_rows_per_service: Option<i64>,
}

/// The oldest epoch kept: `retention_hours` before `now_epoch`, and the
/// epoch zero where that lies before it.
pub open spec fn cutoff(retention_hours: u64, now_epoch: u64) -> u64 {
    let span: int = if retention_hours as int * 3600 > u64::MAX {
        u64::MAX as int
    } else {
        retention_hours as int * 3600
    };
    if now_epoch as int >= span {
        (now_epoch - span) as u64
    } else {
        0
    }
}

/// Zero hours and zero samples turn the rules off.
pub fn prune_plan(retention_hours: u64, max_samples: u64, now_epoch: u64) -> (p: PrunePlan)
    ensures
        p.cutoff_epoch == if retention_hours > 0 {
            Some(cutoff(retention_hours, now_epoch) as i64)
        } else {
            None::<i64>
        },
        p.max_rows_per_service == if max_samples > 0 {
            Some(max_samples as i64)
        } else {
            None::<i64>
        },
{
    let cutoff_epoch = if retention_hours > 0 {
        let span = match retention_hours.checked_mul(3600) {
            Some(s) => s,
            None => u64::MAX,
        };
        let c = now_epoch.saturating_sub(span);
        Some(c as i64)
    } else {
        None
    };
    let max_rows_per_service = if max_samples > 0 {
        Some(max_samples as i64)
    } else {
        None
    };
    PrunePlan { cutoff_epoch, max_rows_per_service }
}

/// The cutoff never lies after the present, and it lies exactly the
/// retention span before it where the present is later than that span.
pub proof fn lemma_cutoff_before_now(retention_hours: u64, now_epoch: u64)
    ensures
        cutoff(retention_hours, now_epoch) <= now_epoch,
        retention_hours as int * 3600 <= now_epoch ==> cutoff(retention_hours, now_epoch)
            == now_epoch - retention_hours * 3600,
{
}

/// Whether a failed `ALTER TABLE ... ADD COLUMN` only found the column
/// already there.
pub open spec fn column_already_present_spec(error: Seq<char>) -> bool {
    contains_str(error, "duplicate column name"@)
}

pub fn column_already_present(error: &str) -> (b: bool)
    ensures
        b == column_already_present_spec(error@),
{
    str_contains(error, "duplicate column name")
}

/// The outcome of adding a column: success where the column was added or
/// was already there, the error otherwise.
pub fn add_column_outcome(result: Result<(), String>) -> (r: Result<(), String>)
    ensures
        match result {
            Ok(()) => r is Ok,
            Err(e) => if column_already_present_spec(e@) {
                r is Ok
            } else {
                r matches Err(m) && m@ == e@
            },
        },
{
    match result {
        Ok(()) => Ok(()),
        Err(err) => if column_already_present(err.as_str()) {
            Ok(())
        } else {
            Err(err)
        },
    }
}

/// What one step of a prepared statement gave.
#[derive(Debug, Clone, Copy, PartialEq, Eq)]
pub enum Step {
    Row,
    Done,
}

/// A statement that returns no rows must finish at its first step.
pub fn step_done(step: Step) -> (r: Result<(), String>)
    ensures
        step == Step::Done ==> r is Ok,
        step == Step::Row ==> (r matches Err(m) && m@
            == "SQLite returned a row where completion was expected"@),
{
    match step {
        Step::Done => Ok(()),
        Step::Row => Err(owned("SQLite returned a row where completion was expected")),
    }
}

} // verus!
