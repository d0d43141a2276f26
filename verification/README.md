# Koyomi (暦)

A keyboard-driven calendar: month, week and day views with vim-style
navigation, events stored as YAML files, recurring events, and reminders.

## Layout

- `src/` is the `koyomi` library, written in Verus. Its functions carry
  contracts that Verus proves, except the small wrappers around chrono,
  uuid, dirs and a few std calls (lowercasing, string push and pop,
  paths): Verus believes their contracts, each of which states what the
  called function is documented or seen in its source to do.
  - `datetime`: dates, times and durations over a day-number model of the
    proleptic Gregorian calendar; the arithmetic itself is chrono's.
  - `calendar`: month grids, week dates, month navigation and labels.
  - `recurrence`: recurrence rules and their expansion into occurrences.
  - `events`: the event model, range and day queries over stored events,
    a stable sort by start time, and the store's file naming.
  - `reminder`: which reminders are due, each fired at most once; a second
    check at the same time fires nothing.
  - `input`, `editor`, `session`: key handling, the event editor, and the
    interactive session as a state machine from actions to requests.
  - `display`: the status line, the view label and header, the events a
    day cell of the month grid lists and how their titles are shortened.
  - `cli`, `config`, `platform`, `scripting`, `text`, `seqs`: the smaller
    pieces the front ends use.
- `app/` is the program around it: the command line, the window loop, the
  GPU renderer, the YAML files on disk and the reminder daemon.
- `tests/` exercises the library.
