use gsw::platform::process::{cmdline_text, docker_container_pid, find_single_process, ProcessCandidate};
use gsw::platform::time::epoch_seconds;

fn candidate(pid: i32, comm: &str, cmdline: &str) -> ProcessCandidate {
    ProcessCandidate { pid, comm: comm.into(), cmdline: cmdline.into() }
}

#[test]
fn single_process_is_found() {
    let found = find_single_process(
        "Server",
        vec![candidate(1, "init", "/sbin/init"), candidate(2, "server", "./server --port 1")],
    )
    .unwrap();
    assert_eq!(found.pid, 2);
    assert_eq!(
        find_single_process("nothing", vec![candidate(1, "init", "")]).unwrap_err(),
        "no processes match 'nothing'"
    );
    let error = find_single_process("s", vec![candidate(1, "s", "a"), candidate(2, "s", "b")]).unwrap_err();
    assert_eq!(
        error,
        "found several processes for 's'. Use --pid with one of these:\n  pid=1 comm=s cmdline=a\n  pid=2 comm=s cmdline=b\n"
    );
}

#[test]
fn docker_pid_output() {
    assert_eq!(docker_container_pid(true, "1234\n"), Ok(Some(1234)));
    assert_eq!(docker_container_pid(true, "0\n"), Ok(None));
    assert_eq!(docker_container_pid(false, "whatever"), Ok(None));
    assert_eq!(
        docker_container_pid(true, "abc\n").unwrap_err(),
        "docker inspect returned an invalid PID: abc"
    );
}

#[test]
fn cmdline_joins_arguments() {
    assert_eq!(cmdline_text(b"./server\0--port\0\08080\0"), "./server --port 8080");
    assert_eq!(cmdline_text(b""), "");
}

#[test]
fn clock_reads_after_epoch() {
    assert!(epoch_seconds().unwrap() > 1_600_000_000);
}

#[test]
fn needle_is_compared_in_lower_case() {
    assert_eq!(
        find_single_process("NoThInG", vec![candidate(1, "init", "")]).unwrap_err(),
        "no processes match 'nothing'"
    );
    let found = find_single_process("API", vec![candidate(7, "Api-Server", "")]).unwrap();
    assert_eq!(found.pid, 7);
}

#[test]
fn cmdline_replaces_invalid_bytes() {
    assert_eq!(cmdline_text(b"a\xff\0b"), "a\u{FFFD} b");
}
