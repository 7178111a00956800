# open_mpv

A minimal viewer for photos, animations and videos, on GTK 4, GStreamer and
glycin. The decisions of the viewer are a library of their own, written in Verus:
what a configuration file means, in which order a folder is shown, what is decoded
next and what is kept, what the player does with a message of its pipeline, which
action a key stands for and what an action does. Each of these is an executable
function with a contract that Verus proves, over plain values: paths are bytes,
times are nanoseconds, rates are hundredths.

## Layout

- `src/` is the library.
  - `config`, `keymap`, `number`, `text`, `paths`, `log`: configuration text,
    key names, log lines and paths.
  - `folder`, `natural`: the sorted navigation set and the order of names.
  - `loader`, `loader::scheduler`: the decode cache and the decode queue.
  - `player`, `player::playback`, `player::tracks`, `player::decoder`: playback
    as steps from a state and an event to a state and the actions to perform.
  - `viewer`, `annotation`: gestures, rotation, and the strokes of the markup.
  - `fileops`: trash records and the rules for saving in place.
  - `window` and below: actions and their availability, menus, controls, the
    overlay, file monitoring, opening, and the messages shown to the user.
- `app/` is the program around it: widgets, pipelines, decoding, files, and the
  floating-point geometry of the image view.
- `tests/` runs the library.

## What is trusted

A few functions of the standard library that no specification covers are wrapped
where they are used; the comment above each says what is taken for granted:
`String::push`, `char::to_lowercase`, `str::to_lowercase`,
`String::from_utf8_lossy` and `core::str::from_utf8`.

Besides the contracts, the library states laws that span several functions as
public proof functions: that the folder order is total, that undoing a stroke
takes it back, that a stale request never replaces a newer one.
