# sinfo

The decision-making core of a Linux hardware and sensor inspector, written in
Verus: the public functions under `src/` carry contracts that Verus proves,
and every function there is verified.

- `src/text.rs`, `src/strmap.rs`, `src/sort.rs`: text handling with the
  semantics of the standard library's string methods, a map keyed by strings,
  and a sort whose output is ordered and a permutation of its input.
- `src/platform`: sysfs value parsing (placeholders, decimal and hexadecimal
  numbers, error values), `/proc/meminfo` and `/proc/cpuinfo` parsing, and
  model-specific register values.
- `src/collectors`: audio cards, the Intel Management Engine and USB devices,
  from the text the kernel exposes.
- `src/sensors`: CPU frequency and utilization, network throughput, I2C bus
  classification, the Nuvoton NCT67xx register tables, and the table of
  latest readings.
- `src/db`: built-in sensor labels per board, and user overrides.
- `src/output`: the CSV log's columns and the dashboard's grouping, layout
  and key handling.

`app/` reads the files, devices and ports, hands their content to the
library, converts its integer readings to floating-point values, and runs
the terminal dashboard, the background poller and the CSV log file on top of
the library's decisions.
`tests/` exercises the library on concrete inputs.
