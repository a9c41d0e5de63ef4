use gsw::agent::{round_end, stored_pid, ChildStatus, PidSource, RoundEnd, ServiceRuntime};
use gsw::cli::{ServiceSpec, Target};
use gsw::domain::metrics::ProcessSample;
use gsw::domain::service::ServiceStatus;

fn spec(target: Target) -> ServiceSpec {
    ServiceSpec { name: "svc".into(), target, pprof_url: None }
}

fn sample(ticks: u64) -> ProcessSample {
    ProcessSample {
        cpu_time_micros: None,
        proc_ticks: ticks,
        rss_kb: 1,
        vm_size_kb: 1,
        threads: 1,
        file_descriptors: 1,
        read_bytes: None,
        write_bytes: None,
    }
}

#[test]
fn container_target_waits_then_attaches() {
    let mut runtime = ServiceRuntime::new(&spec(Target::Container("api".into())), None);
    assert!(runtime.needs_pid());
    assert!(runtime.reads_cgroup());
    match runtime.pid_source() {
        PidSource::ContainerName(name) => assert_eq!(name, "api"),
        _ => panic!("expected a container lookup"),
    }
    assert!(!runtime.on_resolved(Ok(None)));
    assert_eq!(runtime.status, ServiceStatus::Waiting);
    assert_eq!(runtime.last_error.as_deref(), Some("target is not running"));
    assert!(runtime.on_resolved(Ok(Some(77))));
    assert_eq!(runtime.pid, Some(77));
    assert_eq!(runtime.status, ServiceStatus::Starting);
    assert_eq!(runtime.last_error, None);
    assert_eq!(runtime.on_process_sample(Ok(sample(1))), None);
    assert_eq!(runtime.on_process_sample(Ok(sample(5))), Some((sample(1), sample(5))));
    runtime.finish_sample();
    assert_eq!(runtime.status, ServiceStatus::Running);
    assert_eq!(runtime.on_process_sample(Err("gone".into())), None);
    assert_eq!(runtime.status, ServiceStatus::Waiting);
    assert_eq!(runtime.pid, None);
    assert!(runtime.needs_pid());
}

#[test]
fn fixed_pid_failure_is_an_error() {
    let mut runtime = ServiceRuntime::new(&spec(Target::Pid(9)), None);
    match runtime.pid_source() {
        PidSource::Known(pid) => assert_eq!(pid, Some(9)),
        _ => panic!("expected a known pid"),
    }
    runtime.on_resolved(Ok(Some(9)));
    runtime.on_prepare_sample(100, Err("failed".into()));
    assert_eq!(runtime.status, ServiceStatus::Error);
    assert_eq!(runtime.pid, Some(9));
    assert_eq!(runtime.previous_process, None);
}

#[test]
fn launched_child_exit_stops_sampling() {
    let mut runtime = ServiceRuntime::new(&spec(Target::Launch(vec!["./srv".into()])), Some(55));
    assert_eq!(runtime.pid, Some(55));
    assert!(!runtime.on_child_status(ChildStatus::Running));
    assert!(runtime.on_child_status(ChildStatus::Exited(3)));
    assert_eq!(runtime.status, ServiceStatus::Error);
    assert_eq!(runtime.last_error.as_deref(), Some("launched process exited with code 3"));
    assert_eq!(runtime.pid, None);
}

#[test]
fn pprof_schedule_and_errors() {
    let mut runtime = ServiceRuntime::new(&spec(Target::Pid(1)), None);
    runtime.on_resolved(Ok(Some(1)));
    runtime.on_prepare_sample(1000, Ok(sample(1)));
    assert!(runtime.pprof_due(1000));
    runtime.after_pprof(1000, 30, Some(Err("refused".into())));
    assert_eq!(runtime.last_error.as_deref(), Some("pprof: refused"));
    assert_eq!(runtime.next_pprof_epoch, 1030);
    assert!(!runtime.pprof_due(1029));
    runtime.on_process_sample(Ok(sample(2)));
    runtime.finish_sample();
    assert_eq!(runtime.last_error.as_deref(), Some("pprof: refused"));
    runtime.after_pprof(1030, 0, Some(Ok(12)));
    assert_eq!(runtime.last_goroutines, Some(12));
    assert_eq!(runtime.last_error, None);
    assert_eq!(runtime.next_pprof_epoch, 1031);
    runtime.after_pprof(u64::MAX - 1, 30, None);
    assert_eq!(runtime.next_pprof_epoch, u64::MAX);
}

#[test]
fn new_pid_resets_goroutine_history() {
    let mut runtime = ServiceRuntime::new(&spec(Target::Name("srv".into())), None);
    runtime.on_resolved(Ok(Some(4)));
    runtime.on_prepare_sample(0, Ok(sample(1)));
    runtime.after_pprof(0, 30, Some(Ok(10)));
    runtime.after_pprof(600, 30, Some(Ok(200)));
    runtime.on_process_sample(Ok(sample(2)));
    runtime.finish_sample();
    assert!(runtime.leak_warning);
    runtime.on_process_sample(Err("gone".into()));
    assert!(runtime.on_resolved(Ok(Some(8))));
    assert!(!runtime.leak_warning);
    assert_eq!(runtime.last_goroutines, None);
    assert_eq!(runtime.goroutine_trend.len(), 0);
    assert_eq!(runtime.next_pprof_epoch, 0);
}

#[test]
fn round_decisions() {
    assert_eq!(stored_pid(Some(42), true), Some(42));
    assert_eq!(stored_pid(Some(42), false), None);
    assert_eq!(stored_pid(None, true), None);
    assert_eq!(round_end(true, false), RoundEnd { print_dashboard: true, stop: false });
    assert_eq!(round_end(false, true), RoundEnd { print_dashboard: false, stop: true });
}
