use gsw::cli::{parse, parse_target_spec, Command, Target};

fn argv(values: &[&str]) -> Vec<String> {
    values.iter().map(|value| value.to_string()).collect()
}

#[test]
fn parses_multiple_services_and_pprof() {
    let command = parse(vec![
        "watch".into(),
        "--service".into(),
        "api=container:orvix-api".into(),
        "--service".into(),
        "telephony=name:orvix-telephony".into(),
        "--pprof".into(),
        "api=http://127.0.0.1:6060".into(),
    ])
    .unwrap();
    let Command::Watch(args) = command else {
        panic!("expected watch command");
    };
    assert_eq!(args.services.len(), 2);
    assert_eq!(args.services[0].name, "api");
    assert_eq!(
        args.services[0].pprof_url.as_deref(),
        Some("http://127.0.0.1:6060")
    );
}

#[test]
fn preserves_legacy_pid_usage() {
    let command = parse(vec!["watch".into(), "--pid".into(), "42".into()]).unwrap();
    let Command::Watch(args) = command else {
        panic!("expected watch command");
    };
    assert_eq!(args.services[0].name, "pid-42");
    assert_eq!(args.services[0].target, Target::Pid(42));
}

#[test]
fn rejects_duplicate_service_names() {
    let error = parse(vec![
        "watch".into(),
        "--service".into(),
        "api=pid:1".into(),
        "--service".into(),
        "api=pid:2".into(),
    ])
    .unwrap_err();
    assert!(error.contains("duplicate service name"));
}

#[test]
fn no_arguments_ask_for_help() {
    assert_eq!(parse(Vec::new()).unwrap(), Command::Help);
    assert_eq!(parse(argv(&["--help"])).unwrap(), Command::Help);
    assert_eq!(parse(argv(&["watch", "--pid", "1", "-h"])).unwrap(), Command::Help);
}

#[test]
fn unknown_command_is_named() {
    assert_eq!(parse(argv(&["frobnicate"])).unwrap_err(), "unknown command: frobnicate");
}

#[test]
fn legacy_top_level_pid_keeps_defaults() {
    let Command::Watch(args) = parse(argv(&["--pid", "7"])).unwrap() else {
        panic!("expected watch command");
    };
    assert_eq!(args.services.len(), 1);
    assert_eq!(args.services[0].name, "pid-7");
    assert_eq!(args.interval, 5);
    assert_eq!(args.pprof_interval, 30);
    assert_eq!(args.db_path, "server-metrics.db");
    assert_eq!(args.retention_hours, 168);
    assert_eq!(args.max_samples, 150_000);
    assert!(args.dashboard);
    assert!(!args.once);
}

#[test]
fn legacy_container_takes_label_and_options() {
    let Command::Watch(args) = parse(argv(&[
        "watch",
        "--container",
        "api-server",
        "--label",
        "api",
        "--interval",
        "9",
        "--once",
        "--db",
        "x.db",
        "--retention-hours",
        "0",
        "--max-samples",
        "10",
    ]))
    .unwrap() else {
        panic!("expected watch command");
    };
    assert_eq!(args.services[0].name, "api");
    assert_eq!(args.services[0].target, Target::Container("api-server".into()));
    assert_eq!(args.interval, 9);
    assert!(args.once);
    assert_eq!(args.db_path, "x.db");
    assert_eq!(args.retention_hours, 0);
    assert_eq!(args.max_samples, 10);
}

#[test]
fn launched_command_is_named_after_its_file() {
    let Command::Watch(args) = parse(argv(&["watch", "--", "./bin/server", "--port", "8080"])).unwrap()
    else {
        panic!("expected watch command");
    };
    assert_eq!(args.services[0].name, "server");
    assert_eq!(
        args.services[0].target,
        Target::Launch(vec!["./bin/server".into(), "--port".into(), "8080".into()])
    );
    let Command::Watch(args) = parse(argv(&["watch", "--", ".."])).unwrap() else {
        panic!("expected watch command");
    };
    assert_eq!(args.services[0].name, "process");
}

#[test]
fn watch_errors() {
    assert_eq!(
        parse(argv(&["watch"])).unwrap_err(),
        "watch requires --service or exactly one legacy target: --pid, --name, --container, or -- <command>"
    );
    assert_eq!(
        parse(argv(&["watch", "--pid", "1", "--name", "x"])).unwrap_err(),
        "watch requires --service or exactly one legacy target: --pid, --name, --container, or -- <command>"
    );
    assert_eq!(
        parse(argv(&["watch", "--service", "a=pid:1", "--pid", "2"])).unwrap_err(),
        "--service cannot be combined with --pid, --name, --container, or --"
    );
    assert_eq!(
        parse(argv(&["watch", "--service", "a=pid:1", "--label", "b"])).unwrap_err(),
        "--label is only valid with a legacy single target"
    );
    assert_eq!(parse(argv(&["watch", "--pid", "x"])).unwrap_err(), "--pid must be numeric");
    assert_eq!(parse(argv(&["watch", "--pid"])).unwrap_err(), "--pid requires a value");
    assert_eq!(
        parse(argv(&["watch", "--pid", "1", "--interval", "0"])).unwrap_err(),
        "--interval must be greater than zero"
    );
    assert_eq!(
        parse(argv(&["watch", "--pid", "1", "--max-samples", "many"])).unwrap_err(),
        "--max-samples must be numeric"
    );
    assert_eq!(parse(argv(&["watch", "--"])).unwrap_err(), "a command is required after --");
    assert_eq!(
        parse(argv(&["watch", "--bogus"])).unwrap_err(),
        "unknown watch argument: --bogus"
    );
    assert_eq!(
        parse(argv(&["watch", "--service", "bad name=pid:1"])).unwrap_err(),
        "invalid service name 'bad name'; use letters, numbers, '.', '_' or '-'"
    );
    assert_eq!(
        parse(argv(&["watch", "--service", "api=port:1"])).unwrap_err(),
        "unsupported service target type: port"
    );
    assert_eq!(
        parse(argv(&["watch", "--service", "api=pid:"])).unwrap_err(),
        "--service target value cannot be empty"
    );
    assert_eq!(
        parse(argv(&["watch", "--service", "api"])).unwrap_err(),
        "--service requires NAME=TYPE:VALUE"
    );
    assert_eq!(
        parse(argv(&["watch", "--service", "api=pid"])).unwrap_err(),
        "service target requires TYPE:VALUE"
    );
    assert_eq!(
        parse(argv(&["watch", "--service", "api=pid:x"])).unwrap_err(),
        "service pid must be numeric"
    );
}

#[test]
fn pprof_errors() {
    assert_eq!(
        parse(argv(&["watch", "--pid", "1", "--pprof", "x=https://h"])).unwrap_err(),
        "--pprof currently supports local http:// URLs only"
    );
    assert_eq!(
        parse(argv(&["watch", "--pid", "1", "--pprof", "pid-1=http://a", "--pprof", "pid-1=http://b"]))
            .unwrap_err(),
        "duplicate --pprof configuration for 'pid-1'"
    );
    assert_eq!(
        parse(argv(&["watch", "--pid", "1", "--pprof", "other=http://a"])).unwrap_err(),
        "--pprof references unknown service 'other'"
    );
    assert_eq!(parse(argv(&["watch", "--pid", "1", "--pprof", "x"])).unwrap_err(), "--pprof requires NAME=URL");
    let Command::Watch(args) = parse(argv(&["watch", "--pid", "1", "--pprof", "pid-1=http://a"])).unwrap() else {
        panic!("expected watch command");
    };
    assert_eq!(args.services[0].pprof_url.as_deref(), Some("http://a"));
}

#[test]
fn config_mode_is_requested() {
    let Command::Configured(request) = parse(argv(&["watch", "--config", "/etc/gsw.toml", "--once"])).unwrap()
    else {
        panic!("expected a configuration request");
    };
    assert_eq!(request.path, "/etc/gsw.toml");
    assert!(request.once);
    assert!(request.dashboard);
    let Command::Configured(request) = parse(argv(&["agent", "--config", "a.toml"])).unwrap() else {
        panic!("expected a configuration request");
    };
    assert!(!request.dashboard);
    assert!(!request.once);
    assert_eq!(parse(argv(&["agent"])).unwrap_err(), "agent requires --config PATH");
    assert_eq!(
        parse(argv(&["watch", "--config", "a", "--config", "b"])).unwrap_err(),
        "--config can only be specified once"
    );
    assert_eq!(
        parse(argv(&["watch", "--config", "a", "--pid", "1"])).unwrap_err(),
        "--pid cannot be combined with --config; put the setting in the TOML file"
    );
    assert_eq!(parse(argv(&["watch", "--config"])).unwrap_err(), "--config requires a path");
}

#[test]
fn summary_arguments() {
    let Command::Summary(summary) = parse(argv(&["summary"])).unwrap() else {
        panic!("expected summary");
    };
    assert_eq!(summary.db_path, "server-metrics.db");
    assert_eq!(summary.service, None);
    let Command::Summary(summary) = parse(argv(&["summary", "--service", "api", "--db", "m.db"])).unwrap()
    else {
        panic!("expected summary");
    };
    assert_eq!(summary.db_path, "m.db");
    assert_eq!(summary.service.as_deref(), Some("api"));
    assert_eq!(
        parse(argv(&["summary", "--bogus"])).unwrap_err(),
        "unknown summary argument: --bogus"
    );
    assert_eq!(parse(argv(&["summary", "--db"])).unwrap_err(), "--db requires a path");
}

#[test]
fn target_descriptions() {
    assert_eq!(Target::Pid(-3).description(), "pid:-3");
    assert_eq!(Target::Name("srv".into()).description(), "name:srv");
    assert_eq!(Target::Container("api".into()).description(), "container:api");
    assert_eq!(
        Target::Launch(vec!["./server".into(), "--port".into(), "1".into()]).description(),
        "launch:./server --port 1"
    );
}

#[test]
fn description_reads_back_as_target() {
    for target in [Target::Pid(42), Target::Pid(-7), Target::Name("a:b".into()), Target::Container("c".into())] {
        assert_eq!(gsw::cli::parse_target_spec(&target.description()).unwrap(), target);
    }
}

#[test]
fn target_forms() {
    assert_eq!(parse_target_spec("pid:12"), Ok(Target::Pid(12)));
    assert_eq!(parse_target_spec("name:a:b"), Ok(Target::Name("a:b".into())));
    assert_eq!(parse_target_spec("container:web"), Ok(Target::Container("web".into())));
    assert_eq!(parse_target_spec("pid:").unwrap_err(), "--service target value cannot be empty");
    assert_eq!(parse_target_spec("pid:x").unwrap_err(), "service pid must be numeric");
    assert_eq!(parse_target_spec("launch:x").unwrap_err(), "unsupported service target type: launch");
    assert_eq!(parse_target_spec("web").unwrap_err(), "service target requires TYPE:VALUE");
}

#[test]
fn agent_requires_config() {
    assert_eq!(parse(argv(&["agent"])).unwrap_err(), "agent requires --config PATH");
    assert_eq!(parse(argv(&["agent", "--once"])).unwrap_err(), "agent requires --config PATH");
}

#[test]
fn watch_intervals_are_positive() {
    assert_eq!(
        parse(argv(&["watch", "--pid", "1", "--interval", "0"])).unwrap_err(),
        "--interval must be greater than zero"
    );
    assert_eq!(
        parse(argv(&["watch", "--pid", "1", "--pprof-interval", "0"])).unwrap_err(),
        "--pprof-interval must be greater than zero"
    );
}
