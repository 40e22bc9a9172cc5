# pipulse

A system-status display for the Raspberry Pi (ST7789 240×240 panel), with
its decisions verified by Verus.

- `src/` — the verified library:
  - `ui.rs`: pages and navigation, colours by threshold, rate, gauge,
    temperature and header text, the rows of the overview and network pages
    and their heights;
  - `icons.rs`: which icons the overview draws, where and in which colour;
  - `input.rs`: edge detection on the two buttons, key and page navigation;
  - `history.rs`: the 40-sample network history and the per-frame state;
  - `metrics.rs`: percentages, uptime, load average, host name, network
    address choice and traffic deltas from raw readings;
  - `parse.rs`: the thermal-zone reading and the choice of temperature
    source;
  - `text.rs`: decimal numerals, padding, repetition.
- `app/` — the program: reads GPIO, SPI, sysinfo and `/sys`, draws with
  Ratatui/mousefood and embedded-graphics, and runs the one-second loop
  (`--sim` for the SDL2 simulator, `--once` for a single frame).
- `tests/` — tests of the library on concrete values.
