# btop_gui

The verified core of a btop-style desktop system monitor.

`src/` is a Verus library:

- `config` – colour themes and user preferences (`AppConfig`, `ThemePreset`);
- `ring` – the fixed-size sample histories behind the live plots (`RingBuffer`);
- `text` – lower-casing, substring search and decimal notation;
- `order` – comparison of sort keys and a stable sort of positions;
- `process` – filtering, ordering and the user interaction of the process table;
- `collector` – per-process disk I/O deltas, storage-sensor matching, history
  carry-over, the pinned-process tracker and kill answers;
- `gpu` – GPU state updates and temperature classes;
- `panels` – CPU frequency average, network interface limit, header tabs and
  refresh choices, settings window;
- `logger` – when auto-save writes an entry and its header, export file names,
  fixed texts.

`app/` is the egui program around it: sampling the system with `sysinfo` and
NVML, drawing, files, and everything that computes with floating-point
numbers. `tests/` exercises the library.
