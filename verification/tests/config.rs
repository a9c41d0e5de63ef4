use gsw::cli::{Command, ConfigRequest, Target};
use gsw::config::{load, load_requested, positive_or_default, FileConfig, FileService};

fn service(name: &str, target: &str, pprof_url: Option<&str>) -> FileService {
    FileService { name: name.into(), target: target.into(), pprof_url: pprof_url.map(String::from) }
}

fn config(services: Vec<FileService>) -> FileConfig {
    FileConfig {
        database: Some("/tmp/gsw.db".into()),
        interval_seconds: Some(10),
        pprof_interval_seconds: None,
        retention_hours: None,
        max_samples: None,
        services,
    }
}

#[test]
fn loads_multi_service_config() {
    let loaded = load(
        config(vec![
            service("api", "container:orvix-api", Some("http://127.0.0.1:6060")),
            service("telephony", "container:orvix-telephony", None),
        ]),
        false,
    )
    .unwrap();
    assert_eq!(loaded.services.len(), 2);
    assert_eq!(loaded.interval, 10);
    assert_eq!(loaded.services[0].target, Target::Container("orvix-api".into()));
    assert_eq!(loaded.pprof_interval, 30);
    assert_eq!(loaded.db_path, "/tmp/gsw.db");
    assert_eq!(loaded.retention_hours, 168);
    assert_eq!(loaded.max_samples, 150_000);
    assert_eq!(loaded.services[0].pprof_url.as_deref(), Some("http://127.0.0.1:6060"));
}

#[test]
fn config_errors() {
    assert_eq!(
        load(config(Vec::new()), false).unwrap_err(),
        "config must define at least one [[services]] entry"
    );
    assert_eq!(
        load(config(vec![service("a", "pid:1", None), service("a", "pid:2", None)]), false).unwrap_err(),
        "duplicate service name: 'a'"
    );
    assert_eq!(
        load(config(vec![service("a", "pid:1", Some("https://x"))]), false).unwrap_err(),
        "pprof_url for 'a' must use local http://"
    );
    let mut zero = config(vec![service("a", "pid:1", None)]);
    zero.interval_seconds = Some(0);
    assert_eq!(load(zero, false).unwrap_err(), "interval_seconds must be greater than zero");
    assert_eq!(positive_or_default(None, 30, "x"), Ok(30));
    assert_eq!(positive_or_default(Some(0), 30, "x").unwrap_err(), "x must be greater than zero");
}

#[test]
fn agent_request_turns_off_dashboard() {
    let request = ConfigRequest { path: "a".into(), once: true, dashboard: false };
    let Command::Agent(args) = load_requested(&request, config(vec![service("a", "name:x", None)])).unwrap() else {
        panic!("expected agent");
    };
    assert!(!args.dashboard);
    assert!(args.once);
    let request = ConfigRequest { path: "a".into(), once: false, dashboard: true };
    let Command::Watch(args) = load_requested(&request, config(vec![service("a", "name:x", None)])).unwrap() else {
        panic!("expected watch");
    };
    assert!(args.dashboard);
}
