//! The decisions of the sampling loop for one service: when its PID is
//! looked up again, what a failed read means for the service, when the Go
//! runtime is asked for its goroutine count, and what the service reports.
//!
//! The caller performs each read and hands its outcome to the matching
//! method here.
use crate::analysis::trends::{suspicious, GoroutineTrend};
use crate::cli::{copy_target, ServiceSpec, Target, TargetView};
use crate::domain::metrics::ProcessSample;
use crate::domain::service::ServiceStatus;
use crate::text::{concat, copy_string, has_prefix, opt_view, str_starts_with};
use vstd::prelude::*;

verus! {

/// How a child process started by the agent stands.
pub enum ChildStatus {
    Running,
    Exited(i32),
    Failed(String),
}

/// Where the PID of a target comes from.
pub enum PidSource {
    /// Known without a lookup.
    Known(Option<i32>),
    /// The single process whose command line holds the text.
    ProcessName(String),
    /// The main process of the Docker container of that name.
    ContainerName(String),
}

/// The state of one monitored service between samples.
pub struct ServiceRuntime {
    pub target: Target,
    pub pid: Option<i32>,
    pub status: ServiceStatus,
    pub last_error: Option<String>,
    pub previous_process: Option<ProcessSample>,
    pub last_goroutines: Option<u64>,
    pub next_pprof_epoch: u64,
    pub goroutine_trend: GoroutineTrend,
    pub leak_warning: bool,
}

/// The text that marks an error of the Go runtime endpoint.
pub open spec fn pprof_marker() -> Seq<char> {
    "pprof:"@
}

pub open spec fn is_pprof_error(e: Option<Seq<char>>) -> bool {
    e matches Some(m) && has_prefix(m, pprof_marker())
}

impl ServiceRuntime {
    /// What holds of the state between any two calls.
    pub open spec fn wf(&self) -> bool {
        &&& self.previous_process is Some ==> self.pid is Some
        &&& self.status == ServiceStatus::Running ==> self.pid is Some
            && self.previous_process is Some
        &&& self.status == ServiceStatus::Waiting ==> self.pid is None && self.last_error is Some
    }

    /// Fields that only a change of process resets.
    pub open spec fn same_history(&self, other: &Self) -> bool {
        &&& self.target@ == other.target@
        &&& self.last_goroutines == other.last_goroutines
        &&& self.next_pprof_epoch == other.next_pprof_epoch
        &&& self.goroutine_trend@ == other.goroutine_trend@
        &&& self.leak_warning == other.leak_warning
    }

    /// A runtime for `spec`; `launched_pid` is the PID of the child
    /// started for a launch target.
    pub fn new(spec: &ServiceSpec, launched_pid: Option<i32>) -> (r: Self)
        ensures
            r.target@ == spec.target@,
            r.pid == (if spec.target@ is Launch {
                launched_pid
            } else {
                None
            }),
            r.status == ServiceStatus::Starting,
            r.last_error is None,
            r.previous_process is None,
            r.last_goroutines is None,
            r.next_pprof_epoch == 0,
            r.goroutine_trend@.len() == 0,
            !r.leak_warning,
            r.wf(),
    {
        let pid = match &spec.target {
            Target::Launch(_) => launched_pid,
            _ => None,
        };
        ServiceRuntime {
            target: copy_target(&spec.target),
            pid,
            status: ServiceStatus::Starting,
            last_error: None,
            previous_process: None,
            last_goroutines: None,
            next_pprof_epoch: 0,
            goroutine_trend: GoroutineTrend::new(),
            leak_warning: false,
        }
    }

    /// Whether the PID has to be looked up before sampling: only after
    /// the known process disappeared, or before the first sample.
    pub fn needs_pid(&self) -> (b: bool)
        ensures
            b == (self.pid is None),
    {
        self.pid.is_none()
    }

    /// Whether samples come from the cgroup of a container, falling back to
    /// the process's own counters.
    pub fn reads_cgroup(&self) -> (b: bool)
        ensures
            b == (self.target@ is Container),
    {
        match &self.target {
            Target::Container(_) => true,
            _ => false,
        }
    }

    /// Where the PID of the target comes from.
    pub fn pid_source(&self) -> (s: PidSource)
        ensures
            match self.target@ {
                TargetView::Pid(p) => s matches PidSource::Known(k) && k == Some(p),
                TargetView::Launch(_) => s matches PidSource::Known(k) && k == self.pid,
                TargetView::Name(n) => s matches PidSource::ProcessName(m) && m@ == n,
                TargetView::Container(n) => s matches PidSource::ContainerName(m) && m@ == n,
            },
    {
        match &self.target {
            Target::Pid(p) => PidSource::Known(Some(*p)),
            Target::Launch(_) => PidSource::Known(self.pid),
            Target::Name(n) => PidSource::ProcessName(copy_string(n)),
            Target::Container(n) => PidSource::ContainerName(copy_string(n)),
        }
    }

    /// The target is not available: waiting for a name or container to
    /// appear again, an error for a fixed PID or a launched child.
    pub fn mark_unavailable(&mut self, error: String)
        requires
            old(self).wf(),
        ensures
            final(self).wf(),
            final(self).same_history(old(self)),
            final(self).last_error == Some(error),
            final(self).previous_process is None,
            match old(self).target@ {
                TargetView::Pid(_) | TargetView::Launch(_) => final(self).status
                    == ServiceStatus::Error && final(self).pid == old(self).pid,
                _ => final(self).status == ServiceStatus::Waiting && final(self).pid is None,
            },
    {
        match &self.target {
            Target::Pid(_) | Target::Launch(_) => {
                self.status = ServiceStatus::Error;
                self.last_error = Some(error);
                self.previous_process = None;
            },
            _ => self.mark_waiting(error),
        }
    }

    fn mark_waiting(&mut self, error: String)
        ensures
            final(self).same_history(old(self)),
            final(self).status == ServiceStatus::Waiting,
            final(self).last_error == Some(error),
            final(self).pid is None,
            final(self).previous_process is None,
            final(self).wf(),
    {
        self.status = ServiceStatus::Waiting;
        self.last_error = Some(error);
        self.pid = None;
        self.previous_process = None;
    }

    /// The outcome of looking up the PID. A new PID starts the service
    /// afresh: its previous sample, goroutine history and warning go.
    /// Returns whether the PID changed, in which case the caller drops the
    /// metrics it shows for the service.
    pub fn on_resolved(&mut self, resolved: Result<Option<i32>, String>) -> (changed: bool)
        requires
            old(self).wf(),
            old(self).pid is None,
        ensures
            final(self).wf(),
            final(self).target@ == old(self).target@,
            match resolved {
                Ok(Some(p)) => {
                    &&& changed == (old(self).pid != Some(p))
                    &&& final(self).pid == Some(p)
                    &&& final(self).last_error is None
                    &&& if changed {
                        &&& final(self).status == ServiceStatus::Starting
                        &&& final(self).previous_process is None
                        &&& final(self).last_goroutines is None
                        &&& final(self).next_pprof_epoch == 0
                        &&& final(self).goroutine_trend@.len() == 0
                        &&& !final(self).leak_warning
                    } else {
                        &&& final(self).status == old(self).status
                        &&& final(self).previous_process == old(self).previous_process
                        &&& final(self).same_history(old(self))
                    }
                },
                Ok(None) => {
                    &&& !changed
                    &&& final(self).same_history(old(self))
                    &&& final(self).status == ServiceStatus::Waiting
                    &&& final(self).last_error matches Some(m) && m@ == "target is not running"@
                    &&& final(self).pid is None
                    &&& final(self).previous_process is None
                },
                Err(e) => {
                    &&& !changed
                    &&& final(self).same_history(old(self))
                    &&& final(self).status == ServiceStatus::Waiting
                    &&& final(self).last_error == Some(e)
                    &&& final(self).pid is None
                    &&& final(self).previous_process is None
                },
            },
    {
        match resolved {
            Ok(Some(pid)) => {
                let changed = match self.pid {
                    Some(old_pid) => old_pid != pid,
                    None => true,
                };
                if changed {
                    self.pid = Some(pid);
                    self.previous_process = None;
                    self.status = ServiceStatus::Starting;
                    self.last_goroutines = None;
                    self.next_pprof_epoch = 0;
                    self.goroutine_trend = GoroutineTrend::new();
                    self.leak_warning = false;
                }
                self.last_error = None;
                changed
            },
            Ok(None) => {
                self.mark_waiting(crate::text::owned("target is not running"));
                false
            },
            Err(err) => {
                self.mark_waiting(err);
                false
            },
        }
    }

    /// The first sample of a service, taken before the loop starts.
    pub fn on_prepare_sample(&mut self, epoch: u64, sample: Result<ProcessSample, String>)
        requires
            old(self).wf(),
            old(self).pid is Some,
        ensures
            final(self).wf(),
            final(self).target@ == old(self).target@,
            match sample {
                Ok(s) => {
                    &&& final(self).previous_process == Some(s)
                    &&& final(self).status == ServiceStatus::Starting
                    &&& final(self).last_error is None
                    &&& final(self).next_pprof_epoch == epoch
                    &&& final(self).pid == old(self).pid
                },
                Err(e) => {
                    &&& final(self).last_error == Some(e)
                    &&& final(self).previous_process is None
                    &&& match old(self).target@ {
                        TargetView::Pid(_) | TargetView::Launch(_) => final(self).status
                            == ServiceStatus::Error && final(self).pid == old(self).pid,
                        _ => final(self).status == ServiceStatus::Waiting
                            && final(self).pid is None,
                    }
                },
            },
    {
        match sample {
            Ok(s) => {
                self.previous_process = Some(s);
                self.status = ServiceStatus::Starting;
                self.last_error = None;
                self.next_pprof_epoch = epoch;
            },
            Err(err) => self.mark_unavailable(err),
        }
    }

    /// How a launched child stands; returns whether sampling stops for
    /// this interval.
    pub fn on_child_status(&mut self, status: ChildStatus) -> (stop: bool)
        requires
            old(self).wf(),
        ensures
            final(self).wf(),
            final(self).same_history(old(self)),
            match status {
                ChildStatus::Running => !stop && *final(self) == *old(self),
                ChildStatus::Exited(code) => {
                    &&& stop
                    &&& final(self).status == ServiceStatus::Error
                    &&& final(self).last_error matches Some(m) && m@
                        == "launched process exited with code "@ + crate::text::signed_decimal(
                        code as int,
                    )
                    &&& final(self).pid is None
                    &&& final(self).previous_process is None
                },
                ChildStatus::Failed(e) => {
                    &&& stop
                    &&& final(self).status == ServiceStatus::Error
                    &&& final(self).last_error == Some(e)
                    &&& final(self).pid == old(self).pid
                    &&& final(self).previous_process == old(self).previous_process
                },
            },
    {
        match status {
            ChildStatus::Running => false,
            ChildStatus::Exited(code) => {
                let c = crate::text::i32_to_string(code);
                self.status = ServiceStatus::Error;
                self.last_error = Some(concat("launched process exited with code ", c.as_str()));
                self.pid = None;
                self.previous_process = None;
                true
            },
            ChildStatus::Failed(err) => {
                self.status = ServiceStatus::Error;
                self.last_error = Some(err);
                true
            },
        }
    }

    /// A sample of the process during the loop. Returns the previous and
    /// the new sample where there is a previous one to compare with.
    pub fn on_process_sample(&mut self, sample: Result<ProcessSample, String>) -> (r: Option<
        (ProcessSample, ProcessSample),
    >)
        requires
            old(self).wf(),
            old(self).pid is Some,
        ensures
            final(self).wf(),
            final(self).same_history(old(self)),
            match sample {
                Ok(s) => {
                    &&& final(self).previous_process == Some(s)
                    &&& final(self).pid == old(self).pid
                    &&& final(self).last_error == old(self).last_error
                    &&& match old(self).previous_process {
                        Some(p) => r == Some((p, s)) && final(self).status == old(self).status,
                        None => r is None && final(self).status == ServiceStatus::Starting,
                    }
                },
                Err(e) => {
                    &&& r is None
                    &&& final(self).last_error == Some(e)
                    &&& final(self).previous_process is None
                    &&& match old(self).target@ {
                        TargetView::Pid(_) | TargetView::Launch(_) => final(self).status
                            == ServiceStatus::Error && final(self).pid == old(self).pid,
                        _ => final(self).status == ServiceStatus::Waiting
                            && final(self).pid is None,
                    }
                },
            },
    {
        match sample {
            Err(err) => {
                self.mark_unavailable(err);
                None
            },
            Ok(current) => match self.previous_process {
                None => {
                    self.previous_process = Some(current);
                    self.status = ServiceStatus::Starting;
                    None
                },
                Some(previous) => {
                    self.previous_process = Some(current);
                    Some((previous, current))
                },
            },
        }
    }

    /// Whether the Go runtime is due to be asked for its goroutine count.
    pub fn pprof_due(&self, epoch: u64) -> (b: bool)
        ensures
            b == (epoch >= self.next_pprof_epoch),
    {
        epoch >= self.next_pprof_epoch
    }

    /// The outcome of asking the Go runtime for its goroutine count (`None`
    /// where the service has no endpoint); the next request is due one
    /// interval later, and at least one second later.
    pub fn after_pprof(&mut self, epoch: u64, interval_secs: u64, outcome: Option<Result<u64, String>>)
        requires
            old(self).wf(),
            old(self).pid is Some,
        ensures
            final(self).wf(),
            final(self).target@ == old(self).target@,
            final(self).pid == old(self).pid,
            final(self).status == old(self).status,
            final(self).previous_process == old(self).previous_process,
            final(self).leak_warning == old(self).leak_warning,
            final(self).next_pprof_epoch == if epoch as int + (if interval_secs > 1 {
                interval_secs as int
            } else {
                1
            }) > u64::MAX {
                u64::MAX as int
            } else {
                epoch as int + (if interval_secs > 1 {
                    interval_secs as int
                } else {
                    1
                })
            },
            match outcome {
                Some(Ok(count)) => {
                    &&& final(self).last_goroutines == Some(count)
                    &&& final(self).goroutine_trend@ == crate::analysis::trends::last_n(
                        old(self).goroutine_trend@.push((epoch, count)),
                        crate::analysis::trends::MAX_SAMPLES as nat,
                    )
                    &&& final(self).last_error == if is_pprof_error(opt_view(old(self).last_error)) {
                        None::<String>
                    } else {
                        old(self).last_error
                    }
                },
                Some(Err(e)) => {
                    &&& final(self).last_goroutines == old(self).last_goroutines
                    &&& final(self).goroutine_trend@ == old(self).goroutine_trend@
                    &&& final(self).last_error matches Some(m) && m@ == "pprof: "@ + e@
                },
                None => {
                    &&& final(self).last_goroutines == old(self).last_goroutines
                    &&& final(self).goroutine_trend@ == old(self).goroutine_trend@
                    &&& final(self).last_error == old(self).last_error
                },
            },
    {
        match outcome {
            Some(Ok(count)) => {
                self.last_goroutines = Some(count);
                self.goroutine_trend.record(epoch, count);
                let clear = match &self.last_error {
                    Some(m) => str_starts_with(m.as_str(), "pprof:"),
                    None => false,
                };
                if clear {
                    self.last_error = None;
                }
            },
            Some(Err(err)) => {
                self.last_error = Some(concat("pprof: ", err.as_str()));
            },
            None => {},
        }
        let step = if interval_secs > 1 {
            interval_secs
        } else {
            1
        };
        self.next_pprof_epoch = epoch.saturating_add(step);
    }

    /// A sample was calculated: the service runs, its leak warning follows
    /// the goroutine window, and an error other than one of the Go runtime
    /// endpoint is over.
    pub fn finish_sample(&mut self)
        requires
            old(self).wf(),
            old(self).pid is Some,
            old(self).previous_process is Some,
        ensures
            final(self).wf(),
            final(self).target@ == old(self).target@,
            final(self).pid == old(self).pid,
            final(self).previous_process == old(self).previous_process,
            final(self).last_goroutines == old(self).last_goroutines,
            final(self).next_pprof_epoch == old(self).next_pprof_epoch,
            final(self).goroutine_trend@ == old(self).goroutine_trend@,
            final(self).status == ServiceStatus::Running,
            final(self).leak_warning == suspicious(old(self).goroutine_trend@),
            final(self).last_error == if is_pprof_error(opt_view(old(self).last_error)) {
                old(self).last_error
            } else {
                None::<String>
            },
    {
        self.leak_warning = self.goroutine_trend.is_suspicious();
        self.status = ServiceStatus::Running;
        let keep = match &self.last_error {
            Some(m) => str_starts_with(m.as_str(), "pprof:"),
            None => false,
        };
        if !keep {
            self.last_error = None;
        }
    }
}

/// What ends a round of the sampling loop, after every service was sampled
/// and old samples were pruned: whether the dashboard is printed, and
/// whether the loop stops.
#[derive(Debug, Clone, Copy, PartialEq, Eq)]
pub struct RoundEnd {
    pub print_dashboard: bool,
    pub stop: bool,
}

/// The PID under which a service's latest figures are stored this round:
/// only a service that has both a PID and figures gets a row.
pub fn stored_pid(pid: Option<i32>, has_metrics: bool) -> (r: Option<i32>)
    ensures
        r == if has_metrics {
            pid
        } else {
            None::<i32>
        },
{
    if has_metrics {
        pid
    } else {
        None
    }
}

/// The end of a round: the dashboard is printed unless the run is headless,
/// and a run with `once` stops after its first round.
pub fn round_end(dashboard: bool, once: bool) -> (r: RoundEnd)
    ensures
        r.print_dashboard == dashboard,
        r.stop == once,
{
    RoundEnd { print_dashboard: dashboard, stop: once }
}

/// Whatever the outcome of a lookup, the state stays well formed, and a
/// service is never waiting while it has a PID.
pub proof fn lemma_waiting_has_no_pid(r: ServiceRuntime)
    requires
        r.wf(),
        r.status == ServiceStatus::Waiting,
    ensures
        r.pid is None,
        r.previous_process is None,
{
}

} // verus!
