# Selection Translate

A desktop assistant for selected or hovered text: it finds the text and the
sentence around it, asks a provider for a translation or an explanation, and
shows the answer in a small popup.

The crate is split in two.

- `src/` is the library, written and proved in Verus. It holds the decisions of
  the resident and of the manager: mouse gestures, hotkeys, the order of the
  extractors, copying through the clipboard, selections of native controls,
  placing recognized words, requests and popups, reloading the configuration,
  saved keys, and the pages of the manager. Each function states what it
  returns; laws that span functions are public proof functions beside them.
- `app/` is ordinary Rust around it: windows, hooks, threads, files and the
  system's clipboard. It hands the library plain values and performs what the
  library decides.

`tests/` runs the library on concrete values.

Times are nanoseconds of a monotonic clock. Numbers with a fraction are kept as
their bits: the library compares them, and arithmetic on them stands in `app/`.
Normalizing texts, finding sentences, judging requests and storing results belong
to other components, whose answers the library takes as values. Three functions
of the standard library are trusted; they stand at the top of `src/text.rs`.
