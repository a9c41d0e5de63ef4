use gsw::cli::legacy::{parse, Command, SummaryArgs, Target, WatchArgs};
use gsw::procfs::{
    parse_cpu_ticks, parse_meminfo, parse_proc_io, parse_proc_status, parse_proc_ticks,
    parse_stat_field, parse_status_kb,
};

fn argv(values: &[&str]) -> Vec<String> {
    values.iter().map(|value| value.to_string()).collect()
}

fn chars(value: &str) -> Vec<char> {
    value.chars().collect()
}

#[test]
fn legacy_watch_by_pid_uses_defaults() {
    let command = parse(argv(&["watch", "--pid", "42"])).unwrap();
    assert_eq!(
        command,
        Command::Watch(WatchArgs {
            target: Target::Pid(42),
            interval: 2,
            db_path: "server-metrics.db".to_string(),
            once: false,
            retention_hours: 72,
            max_samples: 150_000,
        })
    );
}

#[test]
fn legacy_bare_pid_flag_means_watch() {
    let command = parse(argv(&["--pid", "7", "--once", "--interval", "3"])).unwrap();
    let Command::Watch(args) = command else {
        panic!("expected watch command");
    };
    assert_eq!(args.target, Target::Pid(7));
    assert_eq!(args.interval, 3);
    assert!(args.once);
}

#[test]
fn legacy_launch_takes_the_rest_of_the_line() {
    let command = parse(argv(&["watch", "--db", "x.db", "--", "./server", "-flag", "v"])).unwrap();
    let Command::Watch(args) = command else {
        panic!("expected watch command");
    };
    assert_eq!(
        args.target,
        Target::Launch(argv(&["./server", "-flag", "v"]))
    );
    assert_eq!(args.db_path, "x.db");
}

#[test]
fn legacy_watch_needs_exactly_one_target() {
    let expected = "watch necesita exactamente uno: --pid, --name, --container o -- <comando>";
    assert_eq!(parse(argv(&["watch"])).unwrap_err(), expected);
    assert_eq!(
        parse(argv(&["watch", "--pid", "1", "--name", "api"])).unwrap_err(),
        expected
    );
}

#[test]
fn legacy_errors_are_in_spanish() {
    assert_eq!(
        parse(argv(&["watch", "--pid", "x"])).unwrap_err(),
        "--pid debe ser numerico"
    );
    assert_eq!(
        parse(argv(&["watch", "--pid", "1", "--interval", "0"])).unwrap_err(),
        "--interval debe ser mayor a 0"
    );
    assert_eq!(
        parse(argv(&["watch", "--pid", "1", "--"])).unwrap_err(),
        "despues de -- debes pasar el binario a lanzar"
    );
    assert_eq!(
        parse(argv(&["run"])).unwrap_err(),
        "comando no reconocido: run"
    );
    assert_eq!(
        parse(argv(&["watch", "--bogus"])).unwrap_err(),
        "argumento no reconocido en watch: --bogus"
    );
}

#[test]
fn legacy_summary_and_help() {
    assert_eq!(
        parse(argv(&["summary", "--db", "m.db"])).unwrap(),
        Command::Summary(SummaryArgs { db_path: "m.db".to_string() })
    );
    assert_eq!(parse(argv(&[])).unwrap(), Command::Help);
    assert_eq!(parse(argv(&["watch", "--help"])).unwrap(), Command::Help);
}

#[test]
fn strict_status_rejects_malformed_values() {
    assert_eq!(
        parse_proc_status("Name:\tapi\nVmSize:\t 2048 kB\nVmRSS:\t 1024 kB\nThreads:\t9\n"),
        Ok((1024, 2048, 9))
    );
    assert_eq!(
        parse_proc_status("VmRSS:\t lots kB\n").unwrap_err(),
        "valor kB invalido en /proc/<pid>/status"
    );
    assert_eq!(
        parse_proc_status("VmRSS:\n").unwrap_err(),
        "valor kB vacio en /proc/<pid>/status"
    );
    assert_eq!(
        parse_proc_status("Threads: many\n").unwrap_err(),
        "Threads invalido en /proc/<pid>/status"
    );
    assert_eq!(parse_status_kb(&chars(" 12 kB")), Ok(12));
}

#[test]
fn strict_meminfo_requires_both_lines() {
    assert_eq!(
        parse_meminfo("MemTotal: 1000 kB\nMemFree: 10 kB\nMemAvailable: 600 kB\n"),
        Ok((1000, 600))
    );
    assert_eq!(
        parse_meminfo("MemAvailable: 600 kB\n").unwrap_err(),
        "MemTotal no encontrado en /proc/meminfo"
    );
    assert_eq!(
        parse_meminfo("MemTotal: 1000 kB\n").unwrap_err(),
        "MemAvailable no encontrado en /proc/meminfo"
    );
}

#[test]
fn strict_cpu_ticks_reads_the_first_line() {
    assert_eq!(
        parse_cpu_ticks("cpu  10 20 30 40 50 60\ncpu0 1 2 3 4 5 6\n"),
        Ok((210, 90))
    );
    assert_eq!(
        parse_cpu_ticks("cpu 1 x 3\n").unwrap_err(),
        "formato invalido en /proc/stat"
    );
    assert_eq!(
        parse_cpu_ticks("").unwrap_err(),
        "no pude leer la primera linea de /proc/stat"
    );
}

#[test]
fn strict_proc_ticks_adds_user_and_system_time() {
    let stat = "12 (my server) S 1 2 3 4 5 6 7 8 9 10 100 25 0 0";
    assert_eq!(parse_proc_ticks(12, stat), Ok(125));
    assert_eq!(
        parse_proc_ticks(12, "12 no paren").unwrap_err(),
        "formato invalido en /proc/12/stat"
    );
    assert_eq!(
        parse_proc_ticks(12, "12 (x) S 1").unwrap_err(),
        "no encontre utime en /proc/<pid>/stat"
    );
    let fields = vec![chars("abc")];
    assert_eq!(
        parse_stat_field(&fields, 0, "utime").unwrap_err(),
        "utime invalido en /proc/<pid>/stat"
    );
}

#[test]
fn strict_io_reads_unparsable_values_as_none() {
    assert_eq!(
        parse_proc_io("rchar: 5\nread_bytes: 4096\nwrite_bytes: oops\n"),
        (Some(4096), None)
    );
}
