# snotes

The rules of S Notes, a handwriting and annotation application, written in
Verus and proved against their contracts.

- `src/` — the verified library: keyboard shortcuts, undo history, the text
  editor, color texts, canvas layer order, page templates, export formats and
  PPM encoding, stroke-data compression, auto-save (dirty tracking, backup
  names and pruning), search (matching, snippets, score parts), sync conflict
  handling, the Nextcloud request rules and PROPFIND reading, Tesseract
  command lines and output reading, the plugin host, themes and style sheets,
  input state (stylus contact, palm-rejection bookkeeping), and the string
  helpers they share. Calls into `lz4_flex`, `uuid` and `std` stand behind
  small trusted wrappers whose contracts are stated next to them.
- `tests/` — tests of the library on concrete values.
- `app/` — ordinary Rust around the library: the command line, the sync
  daemon, file, network, database and process I/O, and the floating-point
  ink, geometry, canvas, input and export code. The GTK4/libadwaita window
  (toolbar, sidebar, preferences, canvas widget) is not part of this crate:
  it needs the GTK system libraries. What it decides apart from drawing
  (the shortcut table, the themes' style sheets, PPM export of the canvas)
  is in the library.
