# kyozai_kobo

The verified core of a workshop for LaTeX teaching material: problems and
parts kept in a bank of folders, documents assembled from them and rendered
to LaTeX, "how to think" flows with reusable solution patterns, graphs drawn
in an external editor, and bank files exchanged between installations.

- `src/` is the library, written in Verus. Every public function states in
  `ensures` what it returns; the laws of the library (the folder tree never
  repeats a folder on a path, an allowed move keeps it free of cycles, a
  normalised flow is well formed, method headings follow the answer, pruning
  keeps the newest backups, and others) are public proof functions.
- `app/` is a command-line program around the library: it reads the SQLite
  database and files, runs `uplatex`/`dvipdfmx`, and hands the library plain
  values. Run it with `<data-dir> <command>`; it prints its commands.
- `tests/` exercises the library on concrete values.

Verify with Verus on `src/lib.rs`; the outside crates are listed in
`Cargo.toml`.
