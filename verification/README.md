# steamos_manager

Manages a SteamOS device: its power limits, GPU and CPU settings, Wi-Fi,
HDMI-CEC, sessions, screen reader and services.

- `src/` is the library: what is decided and computed, with contracts that Verus
  proves. Functions take what was read from files, buses and programs as plain
  values and give back what has to be written, sent or called.
- `app/` is the program around it: the daemons, the command line, the buses and
  the files.
- `tests/` run the library on concrete values.

Laws that relate several functions are public proof functions whose names start
with `law_`.
