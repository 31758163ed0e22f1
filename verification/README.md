# chd_studio

The decision logic of CHD Studio, a desktop front end that converts disc
images (CHD through chdman, PSP through maxcso, Xbox through iso2god and
extract-xiso, and more), written in Verus and proved against its contracts.

- `src/` — the verified library:
  - `text` — the `str` operations the rest relies on (trim, lines, search,
    ASCII case folding, decimal and hexadecimal rendering), specified over
    `Seq<char>`.
  - `settings` — the preferences the command builders read.
  - `psp`, `xbox360` — command lines of maxcso, iso2god and extract-xiso.
  - `tools` — the registry of outside tools, the app's folders, where each
    tool is looked for, and what the tool screen shows.
  - `install` — what to download and how to unpack it, and the messages.
  - `jobs` — chdman's command line, the queue (which job starts, what a
    cancel does, the log, what happens after a process ends), job ids.
  - `progress` — cutting tool output into lines and reading progress lines.
  - `sources` — the track files that a cue/gdi sheet names.
- `tests/` — tests of the library on concrete values.
- `app/` — the part that touches processes, disk and network (tokio,
  reqwest, zip, tar, flate2, which, serde), using the library for every
  decision.
