# line-counter

A line counter for source trees: for every file it counts code, comment and
blank lines according to the comment markers of its language, detects the
kind of project at the root to choose which files to count, and summarises
the counts by language. Results print as a table, JSON or CSV, can be saved
to a history, and can be browsed in an interactive terminal view.

## Layout

- `src/` is the library, verified with Verus:
  - `text.rs`: trimming, prefix/suffix/substring tests on characters;
  - `lang.rs`: the language table and language detection by extension;
  - `counter.rs`: classifying lines and counting a text;
  - `detect.rs`: project detection from the entries of the root;
  - `scanner.rs`: choosing files, counting one file, the summary by language;
  - `ranking.rs`: stable ordering by descending key, and sums;
  - `output.rs`: output formats, table order, CSV records, shortened paths,
    badges, widths;
  - `history.rs`: the saved-scan history rules;
  - `cli.rs`: the options and the scan they call for;
  - `tui.rs`: the state of the interactive view and its key bindings;
  - `outside.rs`: the calls into std and the `glob` crate taken on trust.
- `app/` is the program around it: argument parsing, walking the file
  system, reading files, printing, the history file and the terminal view.
- `tests/` exercises the library on concrete inputs.
