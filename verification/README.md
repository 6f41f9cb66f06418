# commit_scan

A small scanner of git history. It describes commits (author, message,
date, files), selects them by id, by a run of the history or by commit
time, and lists files with changes not yet committed.

- `src/` is the verified library: selection of commit runs, date parsing
  and time windows, the repository name, the printed report, the summary
  of the object database, and the decision of what a run does.
- `app/` is the command-line program: option parsing, opening the
  repository and walking it with git2, and printing.
- `tests/` runs the library on concrete values.
