# erigui_widgets

The state and decisions of a set of GUI widgets (menus, context menus,
accordion, dock panel, keyboard navigation, date/time and colour pickers,
file dialog, node graph, search box, list view and more), written in Verus.
Every function in `src/` carries a contract that Verus proves; the laws that
tie several operations together stand as public proof functions named
`law_*` beside the functions they speak of.

Layout:

- `src/` — the verified library, one module per widget plus `geometry`,
  `event`, `text` and `widget` for what they share. A widget's event
  handler takes the event and what its child widgets answered, and returns
  the result together with what the host should do next.
- `tests/` — tests run against the compiled library.
- `app/` — the host side: the clock, the file system, GPU textures and the
  floating-point values of sliders, spin boxes and progress bars, colours
  and the node graph's view, handing plain values to the library.

The few calls into the standard library and into outside crates that are
not proved are wrappers marked `#[verifier::external_body]`, each with a
doc comment saying what its contract assumes: string case mapping and
trimming, `char::is_numeric`, `String::push`/`pop`, chrono's weekday of a
date, and the `SmallVec` that holds a container's children.
