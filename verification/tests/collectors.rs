use gsw::collectors::cgroup::{
    cgroup_directory, cgroup_file, parse_io_stat, parse_keyed_u64, parse_single_u64,
    read_container_sample,
};
use gsw::collectors::go_runtime::{goroutine_count_from_response, parse_goroutine_count, HttpEndpoint};
use gsw::collectors::procfs::{
    count_cpus, parse_cpu_ticks, parse_meminfo, parse_proc_io, parse_proc_status,
    parse_proc_ticks, read_process_sample,
};
use gsw::domain::metrics::ProcessSample;

#[test]
fn parses_keyed_cgroup_stat() {
    assert_eq!(
        parse_keyed_u64("usage_usec 12345\nuser_usec 10000\n", "usage_usec"),
        Some(12345)
    );
}

#[test]
fn parses_plaintext_goroutine_profile() {
    assert_eq!(
        parse_goroutine_count("goroutine profile: total 143\n1 @ 0x123"),
        Some(143)
    );
}

#[test]
fn builds_default_pprof_path() {
    let endpoint = HttpEndpoint::parse("http://127.0.0.1:6060").unwrap();
    assert_eq!(endpoint.authority, "127.0.0.1:6060");
    assert_eq!(endpoint.goroutine_path, "/debug/pprof/goroutine?debug=1");
}

#[test]
fn endpoint_adds_port_and_base_path() {
    let endpoint = HttpEndpoint::parse("http://localhost/app/").unwrap();
    assert_eq!(endpoint.authority, "localhost:80");
    assert_eq!(endpoint.goroutine_path, "/app/debug/pprof/goroutine?debug=1");
    assert_eq!(
        endpoint.request(),
        "GET /app/debug/pprof/goroutine?debug=1 HTTP/1.1\r\nHost: localhost:80\r\nConnection: close\r\nAccept: text/plain\r\n\r\n"
    );
    assert_eq!(HttpEndpoint::parse("https://x").err().unwrap(), "pprof URL must start with http://");
    assert_eq!(HttpEndpoint::parse("http:///x").err().unwrap(), "pprof URL is missing a host");
}

#[test]
fn goroutine_response_status_and_body() {
    assert_eq!(
        goroutine_count_from_response("HTTP/1.1 200 OK\r\nA: b\r\n\r\ngoroutine profile: total 7\n"),
        Ok(7)
    );
    assert_eq!(
        goroutine_count_from_response("HTTP/1.1 404 Not Found\r\n\r\n").unwrap_err(),
        "pprof returned HTTP/1.1 404 Not Found"
    );
    assert_eq!(
        goroutine_count_from_response("garbage").unwrap_err(),
        "invalid HTTP response from pprof"
    );
    assert_eq!(
        goroutine_count_from_response("HTTP/1.1 200 OK\r\n\r\nnothing").unwrap_err(),
        "pprof response did not contain a goroutine count"
    );
    assert_eq!(parse_goroutine_count("no marker"), None);
}

#[test]
fn proc_stat_ticks_count_after_the_command_name() {
    let stat = "42 (my (odd) app) S 1 2 3 4 5 6 7 8 9 10 100 50 0 0";
    assert_eq!(parse_proc_ticks(42, stat), Ok(150));
    assert_eq!(parse_proc_ticks(42, "no paren"), Err("invalid /proc/42/stat".to_string()));
    assert_eq!(
        parse_proc_ticks(42, "1 (x) S 1 2"),
        Err("missing utime in process stat".to_string())
    );
}

#[test]
fn proc_status_io_and_meminfo() {
    assert_eq!(
        parse_proc_status("Name:\tx\nVmSize:\t  2048 kB\nVmRSS:\t 1024 kB\nThreads:\t8\n"),
        (1024, 2048, 8)
    );
    assert_eq!(parse_proc_io("rchar: 1\nread_bytes: 512\nwrite_bytes: 64\n"), (Some(512), Some(64)));
    assert_eq!(parse_proc_io("rchar: 1\n"), (None, None));
    assert_eq!(parse_meminfo("MemTotal: 1000 kB\nMemFree: 1 kB\nMemAvailable: 600 kB\n"), (1000, 600));
}

#[test]
fn host_cpu_lines() {
    let stat = "cpu  10 0 5 100 20 0 0 0\ncpu0 5 0 2 50 10\ncpu1 5 0 3 50 10\nintr 1\n";
    assert_eq!(parse_cpu_ticks(stat), Ok((135, 120)));
    assert_eq!(count_cpus(stat), 2);
    assert_eq!(
        parse_cpu_ticks("intr 1\n"),
        Err("missing aggregate CPU line in /proc/stat".to_string())
    );
}

#[test]
fn process_sample_from_proc_files() {
    let sample = read_process_sample(
        9,
        Ok("9 (a) S 0 0 0 0 0 0 0 0 0 0 3 4".into()),
        Ok("VmRSS: 10 kB\nVmSize: 20 kB\nThreads: 2\n".into()),
        Err("no io".into()),
        Ok(5),
    )
    .unwrap();
    assert_eq!(sample.proc_ticks, 7);
    assert_eq!(sample.rss_kb, 10);
    assert_eq!(sample.vm_size_kb, 20);
    assert_eq!(sample.threads, 2);
    assert_eq!(sample.file_descriptors, 5);
    assert_eq!(sample.read_bytes, None);
    assert_eq!(
        read_process_sample(9, Err("gone".into()), Ok(String::new()), Ok(String::new()), Ok(0)).unwrap_err(),
        "failed to read process 9: gone"
    );
}

#[test]
fn cgroup_directory_and_files() {
    assert_eq!(
        cgroup_directory(5, Ok("1:name=systemd:/x\n0::/system.slice/docker-abc.scope\n".into())),
        Ok("/sys/fs/cgroup/system.slice/docker-abc.scope".to_string())
    );
    assert_eq!(
        cgroup_directory(5, Ok("0::/a/../b\n".into())),
        Err("invalid cgroup path".to_string())
    );
    assert_eq!(
        cgroup_directory(5, Ok("1:cpu:/x\n".into())),
        Err("process is not attached to a cgroup v2 hierarchy".to_string())
    );
    assert_eq!(cgroup_file("/sys/fs/cgroup/", "cpu.stat"), "/sys/fs/cgroup/cpu.stat");
    assert_eq!(cgroup_file("/sys/fs/cgroup/a", "cpu.stat"), "/sys/fs/cgroup/a/cpu.stat");
    assert_eq!(parse_single_u64(" 4096\n"), Some(4096));
    assert_eq!(
        parse_io_stat("8:0 rbytes=100 wbytes=7 rios=1\n8:16 rbytes=1 wbytes=x\n"),
        (Some(101), Some(7))
    );
    assert_eq!(parse_io_stat(""), (None, None));
}

#[test]
fn container_sample_prefers_cgroup_counters() {
    let process = ProcessSample {
        cpu_time_micros: None,
        proc_ticks: 3,
        rss_kb: 1,
        vm_size_kb: 2,
        threads: 4,
        file_descriptors: 5,
        read_bytes: Some(6),
        write_bytes: Some(7),
    };
    let sample = read_container_sample(
        &process,
        "/sys/fs/cgroup/a",
        Ok("usage_usec 900\n".into()),
        Ok("2048\n".into()),
        Err("no pids".into()),
        Err("no io".into()),
    )
    .unwrap();
    assert_eq!(sample.cpu_time_micros, Some(900));
    assert_eq!(sample.rss_kb, 2);
    assert_eq!(sample.threads, 4);
    assert_eq!(sample.read_bytes, Some(6));
    assert_eq!(
        read_container_sample(&process, "/d", Ok("user_usec 1\n".into()), Ok("1".into()), Ok("1".into()), Ok(String::new()))
            .unwrap_err(),
        "missing usage_usec in /d/cpu.stat"
    );
}

#[test]
fn pprof_request_limits() {
    assert_eq!(gsw::collectors::go_runtime::IO_TIMEOUT_MILLIS, 750);
    assert_eq!(gsw::collectors::go_runtime::MAX_RESPONSE_BYTES, 128 * 1024);
}
