# retro_homepage

A small HTTP server that reports the host's battery, CPU, memory, storage
and uptime as JSON, and stores a front-end configuration file.

- `src/` is the library, verified with Verus: the readers of
  `/proc/stat`, `/proc/meminfo`, `/proc/cpuinfo` and `/proc/uptime`, the
  choice of thermal zone, battery supply and health text, the CPU
  frequency and architecture labels, storage byte figures, the
  configuration path and status, and the command-line grammar. Text is
  handled as `Seq<char>` against specifications of `str::lines`,
  `str::split_whitespace`, `str::trim` and integer `FromStr`.
- `app/` is the server around it: file and process I/O, `libc` calls, the
  float arithmetic of temperatures, wear and GiB figures, and the `axum`
  routes.
- `tests/` runs the library on concrete inputs.
