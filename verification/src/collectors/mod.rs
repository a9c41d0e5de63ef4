//! Reading the counters of processes, cgroups and the Go runtime out of
//! the text that Linux and pprof give.
pub mod cgroup;
pub mod go_runtime;
pub mod procfs;
