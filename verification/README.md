# Ikaros Virtual

A pixel-art owl companion for a Linux desktop. It roams while the desktop is
active, rests when the session is idle or locked, and reacts to local events
(system alerts, notifications, downloads, calendar entries, routines, systemd
units, browser messages) that the user has opted into.

## Layout

- `src/` is the library, written in Verus. Its functions carry contracts that
  Verus proves, and each module ends with the laws it keeps. Three functions
  are trusted, not proved: the calls into chrono that parse a date and read
  the local time zone (`calendar.rs`), and the read of the system clock
  (`settings.rs`), which states nothing of its result. The modules:
  - `companion`: sprite loops, permissions, memory telemetry and the
    companion's animation state machine.
  - `pet`: the overlay owl's behaviour from frame to frame (resting, walking,
    flying, dancing, reactions and warnings).
  - `status`: the status summary, the parsers for `df`, `upower` and `nmcli`,
    and the rate-limited alert engine.
  - `collectors`: idle, lock, file, systemd-unit and process watchers and the
    events they produce.
  - `calendar`: calendar start times and daily routines.
  - `dispatch`: the overlay's poll cadence and what it does with each event
    (log, reaction, desktop notification).
  - `settings`, `routing`, `sprites`, `context`, `events`, `notifications`,
    `browser`: settings rules and settings text, event-to-animation routing,
    sprite files from the clockwork-owl pack's animation manifest, the focused
    window, activity-log lines, `dbus-monitor` parsing and the
    native-messaging frame format.
  - `duration`, `text`: a nanosecond time span and the text model the parsers
    are specified over.
- `app/` is the program around the library: the GTK layer-shell overlay, the
  settings window, the native-messaging host, and every read of the system
  (files, commands, the clock).
- `tests/` runs the library on concrete values.

Run `ikaros_virtual` for the overlay, or with `--status` for the settings window.
