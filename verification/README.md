# mousekeys

The core of a Linux daemon that steers the mouse with the numpad, verified with
Verus, and the daemon around it.

## Layout

- `src/` is the verified library.
  - `text`: white space, searching, and numbers in decimal notation
  - `config`: the settings and the file that they come in
  - `keys`, `events`: key codes and input events of the kernel
  - `attributes`: the sets of codes of the `evdev` crate
  - `buttons`: the selected mouse button and what the numpad does with it
  - `motion`: the movement keys and the direction and speed that they give
  - `session`: what becomes of an event, of a change of keyboards, of a session
  - `keyboards`: finding, rating and ranking keyboards
  - `watch`: noticing and reporting changes in the list of keyboards
  - `privileges`: whether the daemon may run, and what it says if not
- `app/` is the daemon: devices, threads, files, signals, and the speed of the
  mouse, which is floating point.
- `tests/` runs the library.

Functions whose names begin with `law_` state what holds of the library as a
whole.

## Settings

`mousekeys.conf` is looked for in the directory of the program, unless the
command line names another file. Each line holds `key = value`; lines that
start with `#` are comments.

| key | default | meaning |
| --- | --- | --- |
| `vmax_normal` | 10 | speed without a modifier |
| `vmax_fast` | 30 | speed with Ctrl |
| `vmax_slow` | 1 | speed with Shift |
| `tau` | 0.2 | how fast the mouse reaches its speed, above 0 and up to 1 |
| `double_click_delay` | 25 | milliseconds between the clicks of a double click |
| `mousekeys_numlock_on` | true | steer the mouse with NumLock on (or off) |
| `movement_update_rate` | 10 | milliseconds between two moves |
| `reconnect_delay` | 2 | seconds before another session is tried |
| `max_velocity` | 100.0 | bound on the speed along either axis |
| `keyboard_scan_interval` | 3 | seconds between two scans for keyboards, 0 for none |
