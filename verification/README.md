# rune

A terminal Git porcelain: a file tree of changes, a side-by-side diff, staging,
committing, a commit log and a branch picker.

- `src/` is the verified library. `git` turns what the repository reports into the
  listed files, branches, commits and hunks, and pairs hunk lines side by side;
  `tui` is the session's state machine (keys, mouse, dialogs, filter) and what each
  panel shows; `path`, `order` and `text` hold the path, ordering and string logic
  they rest on.
- `app/` is the program: it reads and writes the repository with `git2`, reads
  terminal events with `crossterm`, draws with `ratatui` and highlights with
  `syntect`, and carries out the steps that the library asks for.
- `tests/` exercises the library on concrete values.
