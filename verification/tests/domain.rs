use gsw::domain::metrics::{goroutine_peak, sample_deltas, ProcessSample};

fn process(ticks: u64, read_bytes: u64) -> ProcessSample {
    ProcessSample {
        cpu_time_micros: None,
        proc_ticks: ticks,
        rss_kb: 128 * 1024,
        vm_size_kb: 256 * 1024,
        threads: 8,
        file_descriptors: 32,
        read_bytes: Some(read_bytes),
        write_bytes: Some(0),
    }
}

#[test]
fn deltas_between_samples() {
    let d = sample_deltas(10, 12, 1000, 1200, 500, 550, &process(100, 0), &process(150, 2 * 1024 * 1024));
    assert_eq!(d.proc_ticks, 50);
    assert_eq!(d.total_ticks, 200);
    assert_eq!(d.idle_ticks, 50);
    assert_eq!(d.elapsed_secs, 2);
    assert_eq!(d.read_bytes, Some(2 * 1024 * 1024));
    assert_eq!(d.write_bytes, Some(0));
    assert_eq!(d.cpu_time_micros, None);
    let d = sample_deltas(12, 12, 5, 1, 0, 0, &process(150, 10), &process(100, 5));
    assert_eq!(d.elapsed_secs, 1);
    assert_eq!(d.total_ticks, 0);
    assert_eq!(d.proc_ticks, 0);
    assert_eq!(d.read_bytes, None);
}

#[test]
fn goroutine_peaks() {
    assert_eq!(goroutine_peak(10, Some(11)), Some(11));
    assert_eq!(goroutine_peak(10, Some(10)), None);
    assert_eq!(goroutine_peak(10, None), None);
}

#[test]
fn calculates_process_cpu_and_io_rate() {
    let cpu_count: u64 = 2;
    let d = sample_deltas(10, 12, 1000, 1200, 500, 550, &process(100, 0), &process(150, 2 * 1024 * 1024));
    let cpu_percent = d.proc_ticks as f64 / d.total_ticks as f64 * cpu_count as f64 * 100.0;
    let read_mb_per_sec = d
        .read_bytes
        .map(|delta| delta as f64 / 1024.0 / 1024.0 / d.elapsed_secs as f64);
    assert!((cpu_percent - 50.0).abs() < 0.001);
    assert_eq!(read_mb_per_sec, Some(1.0));
    assert_eq!(process(150, 2 * 1024 * 1024).file_descriptors, 32);
}
