# screen-watch

Watches a part of the screen and tells another computer when it changes.

Two programs belong together. The watcher looks at a rectangle of the screen at
a fixed interval, compares each look with the one before, and sends a datagram
`MSG` when they differ by more than a threshold, but not more often than its
cooldown allows; every five seconds it sends `HB`. The receiver alerts the user
on `MSG` and takes the watcher for gone after fifteen seconds without `HB`.

- `src/` is the library, verified with Verus: the decisions of both programs,
  as functions from what happened to what is to be done.
  - `frame`, `monitor::pixels`, `monitor::overlay`, `monitor::backdrop`: pictures,
    and drawing a selection on them
  - `monitor::selector`, `monitor::screens`: choosing what to watch
  - `monitor::capture`, `monitor::watch`: comparing looks, and when to send what
  - `monitor::config`, `monitor::panel`: settings and the control window
  - `wire`: the datagrams
  - `receiver::link`, `receiver::tray`, `receiver::console`, `receiver::config`:
    the other side
  - `decimal`, `clock`: numbers as text, points in time
- `app/` is what the library is used by: windows, the screen, sockets and files.
  It is written for Windows.
- `tests/` runs the library.

Trusted without proof: `image::imageops::resize` (in `src/frame.rs`) and
`std::str::from_utf8` (in `src/wire.rs`).
