# obsclip

Appends the clipboard (text or an image) to today's Obsidian daily note.

- `src/` is the library, verified with Verus: note entries and their formats,
  Obsidian settings and vault resolution, daily-note paths, date patterns and
  templates, OCR language bookkeeping, and the decisions of a clip and of the
  optional note dialog. Each public function states its result in `ensures`;
  the laws that span functions are public proof functions.
- `tests/` runs the library on concrete values.
- `app/` is the desktop shell around it: the tray, windows and shortcuts,
  clipboard, file and network access, the OCR engine, and settings storage.
