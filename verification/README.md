# sysmon

The core of a terminal system monitor, verified with Verus.

- `src/` is the library: the dashboard geometry (`engine::grid`), the process
  table's filter and stable sort (`filter`), rate, size, uptime and label text
  (`components`, `dashboard`, `text`), sample histories and counter bookkeeping
  (`telemetry`), and the reaction to keys and mouse events (`monitor`).
- `app/` is the program around it: reading the system through `sysinfo`, the
  background sampling thread, the terminal through `crossterm`, and drawing
  with `ratatui`.
- `tests/` exercises the library on concrete values.
