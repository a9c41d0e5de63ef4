# gsw

A low-overhead Linux monitor for processes, Docker containers and Go
services, with its parsing and decision logic verified by Verus.

- `src/` is the verified library: the command line and configuration
  checks (`cli`, `config`), the `/proc`, cgroup v2 and Go pprof parsers
  (`collectors`, `procfs`), the per-service sampling decisions (`agent`),
  the goroutine trend window (`analysis`), counter differences
  (`domain`), process lookup and Docker PID parsing (`platform`), table
  cells (`presentation`) and retention rules (`storage`), over the string
  and number helpers of `text`.
- `app/` is the `gsw` program around it: file, network and process I/O,
  the SQLite store, the local clock, TOML reading, and the floating-point
  figures of the dashboard.
- `tests/` exercises the library on concrete inputs.
