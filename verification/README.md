# aether_win32

The editor-state logic of the Aether Win32 editor, written in Verus and
proved against its contracts.

- `src/` — the verified library. Every module states what its functions
  return or change over mathematical models (`Seq`, `Multiset`, `int`) and
  proves it. The text buffer, windows, processes and files stay with the
  caller: functions take what they read of them as plain values and hand
  back what to do (buffer edits, Git commands to run, key and command
  actions).
  - `text` — UTF-8 widths and offsets, Unicode whitespace, `str::lines`,
    substring search.
  - `editor` — cursor movement, selection, insertion and deletion, paste,
    find and replace, saving targets.
  - `multi_cursor` — typing, line breaks and backspace at several cursors.
  - `tabs`, `activity_bar`, `layout` — tab list, view switching, sidebar
    content.
  - `workspace` — the window's documents: the active one in the editor,
    the others in their tabs; switching, opening, new files and closing.
  - `listing`, `file_tree` — directory listing order, the explorer tree
    (visible rows, paths, expansion).
  - `git` — `.git/HEAD` and `git status --porcelain` parsing, command
    arguments, the source-control panel.
  - `ai_panel` — chat history, quick-action prompts, code block extraction.
  - `ssh`, `settings`, `status_bar`, `terminal`, `theme` — dialog and panel
    models.
  - `dirty_rect`, `files`, `window` — redraw decisions, file icons, text
    detection and how a file is opened, key/character/hit-test decisions
    of the window.
- `tests/` — tests of the library on concrete values.
- `app/` — plain Rust around the library: logging, running `git` and the
  shell, reading folders and files, and the pixel geometry of the panels.
