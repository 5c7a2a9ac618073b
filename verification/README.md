# rc — Rust Commander

A Norton Commander-style dual-panel terminal file manager, with its logic
verified by Verus.

- `src/` — the verified library:
  - `listing.rs`: directory entries and their stable sort (directories first,
    then by case-folded name);
  - `panel.rs`: a panel's cursor movement, tagging, jumping by letter, entering
    directories and the paths file operations act on;
  - `app.rs`: the application as a state machine: keys and the outcomes of
    file-system requests in, the next request out (copy/move queue with
    conflict handling, deletion after confirmation, rename, mkdir, viewer);
  - `fs_ops.rs`: names for copies (`file_copy.txt`, `file_copy2.txt`, ...);
  - `ui.rs`: sizes, titles, status and position lines, key hints, pop-up
    geometry;
  - `highlight.rs`: syntax highlighting of viewed files through syntect;
  - `version.rs`: the version text with the commit and the build date;
  - `paths.rs`, `text.rs`: path and string operations;
  - `laws.rs`: properties that span several steps.
- `app/` — the program: command line, terminal, drawing, and the file-system
  requests the library asks for.
- `tests/` — tests of the library on concrete values.
