# keyboard-debouncer

A daemon for Linux that takes the chatter out of a mechanical keyboard. It grabs
the keyboard through `evdev`, decides on every event, and sends on what is left
through a virtual `uinput` device. The decisions are verified with Verus.

## How it decides

Each forwarded press falls into a tier by how long it was held, and its tier
arms the window within which the next press of the key is suppressed:

| Tier     | Hold                             | Window                        |
|----------|----------------------------------|-------------------------------|
| *Micro*  | below `MICRO_HOLD_THRESHOLD_MS`  | `MICRO_EXTENDED_THRESHOLD_MS` |
| *Short*  | below `SHORT_HOLD_THRESHOLD_MS`  | `EXTENDED_THRESHOLD_MS`       |
| *Normal* | any longer                       | `THRESHOLD_MS`                |

A suppressed press takes its release with it. The gap before a press is measured
from the last physical release, and only a forwarded release changes the tier.
Auto-repeat always passes.

## Configuration

`debouncer.conf`, in the current directory or in `/etc`, holds lines of the form
`NAME = value`; a line that starts with `#` is a comment.

| Name                          | Default | Meaning                                             |
|-------------------------------|---------|-----------------------------------------------------|
| `KEYS`                        |         | Keys to debounce, separated by commas: `KEY_K`, ... |
| `KEYBOARD_NAME`               |         | Name under which the keyboard is found              |
| `DEVICE_PATH`                 |         | Event node to use; overrides `KEYBOARD_NAME`        |
| `DEBOUNCE_ALL_KEYS`           | `false` | Debounce all keys but modifiers; `KEYS` is ignored  |
| `THRESHOLD_MS`                | 30      | Window after a normal hold                          |
| `EXTENDED_THRESHOLD_MS`       | 100     | Window after a short hold                           |
| `SHORT_HOLD_THRESHOLD_MS`     | 70      | Bound of a short hold                               |
| `MICRO_HOLD_THRESHOLD_MS`     | 20      | Bound of a micro hold                               |
| `MICRO_EXTENDED_THRESHOLD_MS` | 150     | Window after a micro hold                           |
| `LOG_FORWARD`                 | `false` | Log every forwarded event at once                   |
| `TRACK_DB`                    |         | SQLite file that records every key event            |

`KEYS` and one of `KEYBOARD_NAME` and `DEVICE_PATH` are required.

## Layout

- `src/` is the verified library. `debounce` decides on the events of one key,
  `filter` on those of all keys, `laws` states what holds over any number of
  events. `config` and `conf_file` read the command line and the file, `device`
  and `supervisor` find the keyboard and wait for it, `setup` takes it over,
  `tracker` batches the key health record, `log`, `clock`, `keys` and `text`
  serve the others.
- `app/` is the daemon around it: devices, files, the database and the clock.
- `tests/` runs the library.
