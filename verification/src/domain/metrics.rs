//! Process samples and the counter differences between two of them.
use vstd::prelude::*;

verus! {

/// Counters read for one process at one moment.
#[derive(Debug, Clone, Copy, PartialEq, Eq)]
pub struct ProcessSample {
    pub cpu_time_micros: Option<u64>,
    pub proc_ticks: u64,
    pub rss_kb: u64,
    pub vm_size_kb: u64,
    pub threads: u64,
    pub file_descriptors: u64,
    pub read_bytes: Option<u64>,
    pub write_bytes: Option<u64>,
}

/// How much the counters advanced from one sample to the next; the base
/// of the CPU, disk and rate figures.
#[derive(Debug, Clone, Copy, PartialEq, Eq)]
pub struct SampleDeltas {
    /// CPU ticks of the process.
    pub proc_ticks: u64,
    /// CPU ticks of the whole host.
    pub total_ticks: u64,
    /// Idle CPU ticks of the host.
    pub idle_ticks: u64,
    /// Seconds between the samples, at least one.
    pub elapsed_secs: u64,
    /// CPU time of the cgroup in microseconds, where both samples have it.
    pub cpu_time_micros: Option<u64>,
    /// Bytes read, where both samples have the counter and it did not fall.
    pub read_bytes: Option<u64>,
    /// Bytes written, where both samples have the counter and it did not fall.
    pub write_bytes: Option<u64>,
}

pub open spec fn sat_sub(a: u64, b: u64) -> u64 {
    if a >= b {
        (a - b) as u64
    } else {
        0
    }
}

/// The growth of a counter that both samples have, if it did not fall.
pub open spec fn counter_growth(previous: Option<u64>, current: Option<u64>) -> Option<u64> {
    match (previous, current) {
        (Some(p), Some(c)) => if c >= p {
            Some((c - p) as u64)
        } else {
            None
        },
        _ => None,
    }
}

/// The growth of the cgroup CPU time where both samples have it; a fall
/// counts as zero.
pub open spec fn cpu_time_growth(previous: Option<u64>, current: Option<u64>) -> Option<u64> {
    match (previous, current) {
        (Some(p), Some(c)) => Some(sat_sub(c, p)),
        _ => None,
    }
}

fn growth(previous: Option<u64>, current: Option<u64>) -> (r: Option<u64>)
    ensures
        r == counter_growth(previous, current),
{
    match (previous, current) {
        (Some(p), Some(c)) => c.checked_sub(p),
        _ => None,
    }
}

/// The counter differences between two host readings (epoch, total and
/// idle CPU ticks) and two process samples.
pub fn sample_deltas(
    previous_epoch: u64,
    current_epoch: u64,
    previous_total_ticks: u64,
    current_total_ticks: u64,
    previous_idle_ticks: u64,
    current_idle_ticks: u64,
    previous_process: &ProcessSample,
    current_process: &ProcessSample,
) -> (d: SampleDeltas)
    ensures
        d.proc_ticks == sat_sub(current_process.proc_ticks, previous_process.proc_ticks),
        d.total_ticks == sat_sub(current_total_ticks, previous_total_ticks),
        d.idle_ticks == sat_sub(current_idle_ticks, previous_idle_ticks),
        d.elapsed_secs == if current_epoch > previous_epoch {
            (current_epoch - previous_epoch) as u64
        } else {
            1u64
        },
        d.cpu_time_micros == cpu_time_growth(
            previous_process.cpu_time_micros,
            current_process.cpu_time_micros,
        ),
        d.read_bytes == counter_growth(previous_process.read_bytes, current_process.read_bytes),
        d.write_bytes == counter_growth(previous_process.write_bytes, current_process.write_bytes),
{
    let elapsed = current_epoch.saturating_sub(previous_epoch);
    SampleDeltas {
        proc_ticks: current_process.proc_ticks.saturating_sub(previous_process.proc_ticks),
        total_ticks: current_total_ticks.saturating_sub(previous_total_ticks),
        idle_ticks: current_idle_ticks.saturating_sub(previous_idle_ticks),
        elapsed_secs: if elapsed > 1 {
            elapsed
        } else {
            1
        },
        cpu_time_micros: match (previous_process.cpu_time_micros, current_process.cpu_time_micros) {
            (Some(p), Some(c)) => Some(c.saturating_sub(p)),
            _ => None,
        },
        read_bytes: growth(previous_process.read_bytes, current_process.read_bytes),
        write_bytes: growth(previous_process.write_bytes, current_process.write_bytes),
    }
}

/// The greater goroutine count of a peak and a sample, where the sample
/// has one: `Some` where the peak moves to the sample.
pub fn goroutine_peak(peak: u64, goroutines: Option<u64>) -> (r: Option<u64>)
    ensures
        r == match goroutines {
            Some(g) => if g > peak {
                Some(g)
            } else {
                None::<u64>
            },
            None => None::<u64>,
        },
{
    match goroutines {
        Some(g) => if g > peak {
            Some(g)
        } else {
            None
        },
        None => None,
    }
}

} // verus!
