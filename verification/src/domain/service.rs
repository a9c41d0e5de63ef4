//! The status of a monitored service.
use vstd::prelude::*;

verus! {

#[derive(Debug, Clone, Copy, PartialEq, Eq, Structural)]
pub enum ServiceStatus {
    Starting,
    Running,
    Waiting,
    Error,
}

pub open spec fn status_name(s: ServiceStatus) -> Seq<char> {
    match s {
        ServiceStatus::Starting => "starting"@,
        ServiceStatus::Running => "running"@,
        ServiceStatus::Waiting => "waiting"@,
        ServiceStatus::Error => "error"@,
    }
}

impl ServiceStatus {
    pub fn as_str(self) -> (s: &'static str)
        ensures
            s@ == status_name(self),
    {
        match self {
            ServiceStatus::Starting => "starting",
            ServiceStatus::Running => "running",
            ServiceStatus::Waiting => "waiting",
            ServiceStatus::Error => "error",
        }
    }
}

/// Different statuses have different names.
pub proof fn lemma_status_names_distinct(a: ServiceStatus, b: ServiceStatus)
    requires
        a != b,
    ensures
        status_name(a) != status_name(b),
{
    reveal_strlit("starting");
    reveal_strlit("running");
    reveal_strlit("waiting");
    reveal_strlit("error");
    if status_name(a) == status_name(b) {
        assert(status_name(a).len() == status_name(b).len());
        assert(status_name(a)[0] == status_name(b)[0]);
    }
}

} // verus!
