# devinspect

Diagnostics for developer machines: system summary, hardware, network,
processes, packet counters, USB devices, one process in detail, an AI/ML
stack check and a "doctor" that turns probe results into graded issues with
remediation steps.

## Layout

- `src/` — the library, verified with Verus. It holds the parsers for what
  Linux tools and `/proc` files print (`lsusb`, `lspci`, `nvidia-smi`,
  `/proc/net/dev`, `/proc/PID/io`, `/proc/PID/status`, `cudnn_version.h`),
  the rules that decide which probe runs next and which issues the answers
  point to, the tables (memory top list, interface and device order, device
  classes), and the text of the reports for language models. Every public
  function states its result in its contract; the laws of the library
  (probing ends, issue ids are distinct, reports for language models hold no
  terminal escapes, the memory table holds one row per process group, ...)
  are public proof functions named `law_*`.
- `tests/` — tests of the library on concrete values.
- `app/` — the `devinspect` program: command-line parsing, running programs,
  reading files and sockets, colours, JSON/YAML output, and the few
  computations done in floating point (rates, bars, sparklines, CPU order).
