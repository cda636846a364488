# treemap-disk-analyzer

A disk-usage viewer that scans a directory in the background, shows it as a
zoomable squarified treemap, and keeps the picture current while files
change. Without a display (or with `--headless` / `--scan-only`) it prints a
summary of the scan: the total, then one line per top-level entry, largest
first.

## Layout

- `src/` — the verified library (Verus). Every function carries a contract
  over a mathematical model of the tree (`NodeView`), and the properties the
  viewer relies on are proved as laws:
  - `tree` — the file tree, lookup by path, size bookkeeping, merging of
    scanned nodes, sorting children by size;
  - `scan` — turning one directory listing into a batch and merging it;
  - `watch` — what a reported file-system change does to the tree, and the
    record of watched directories;
  - `report` — the text summary; `sizes` — sizes as text ("5.00 MB"),
    computed with integers only. Its contract is an integer specification
    of the rounding; that it agrees with Rust's `{:.2}` formatting of the
    `f64` quotient is shown by the tests in `tests/sizes.rs`, not by Verus;
  - `paths` — Unix path components, prefixes, file names, extensions;
  - `color` — colour classes by extension or name hash; `text` — labels;
  - `args` — command-line decisions; `mvp` — the one-shot tree of the basic
    viewer; `order` — merge sort by size; `laws` — properties across calls.
- `app/` — the program around the library: file-system access, the scanner
  thread, the notify watcher, the floating-point layout and animation, and
  drawing with macroquad. `--basic` runs the basic viewer (one scan, no
  watching) in `app/basic.rs`.
- `tests/` — tests of the library's public functions.
