# filiz

A terminal system monitor for macOS: CPU, memory, disks, network interfaces,
battery, per-process traffic and a process table with signal actions.

## Layout

- `src/` is the library, verified with Verus. It holds everything the monitor
  decides: the application state and its `update` function from actions to
  effects, the key map, list selection and scrolling, mouse hit testing, panel
  layout arithmetic, workspace and theme cycling, the theme palettes, metric
  history, the parsers for `nettop` and `pmset` output and the CPU line of
  `top`, memory, disk and interface counter bookkeeping, process tracking and
  the checks that guard a signal before it is sent.
- `app/` is the program around it: terminal setup, the event loop, rendering
  with ratatui, the collectors that read the system through sysinfo and child
  processes, and the floating-point rates and percentages shown on screen.
- `tests/` exercises the library from outside.
