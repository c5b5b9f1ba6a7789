# attentio

A command-line tool for AttentioLight devices, with its logic verified by Verus.

- `src/` is the verified library:
  - the Attentio Protocol framing and parser (`protocol/`);
  - device discovery, selection and BLE decisions (`device/`);
  - the monitor's state and views (`monitor/`);
  - the subcommands' logic: device table, status lines, settings file, firmware header checks (`cli/`).
  Each public function states its result in `ensures`; the laws of the library are public proof functions.
- `app/` is the program around it: the command line, serial, BLE and USB I/O, the terminal UI and JSON output.
- `tests/` runs the library on concrete values.
