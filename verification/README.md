# tickets

A command-line ticket and expense tracker backed by SQLite, with its logic proved correct
against its specifications.

- `src/` is the library, with its proofs: companies and tickets and their renderings (`model`,
  `text`), the CSV export (`csv_export`, through the `csv` crate), the summary tables
  (`tables`, through `tabular`), the values read from the database turned into tickets
  (`records`), and the decisions of the subcommands: adding and removing tickets as
  step-by-step exchanges with the caller (`addition`, `removal`), the company and summary
  outputs (`commands`), confirmation answers (`answer`), backup targets and restore checks
  (`backup`), and the error messages (`error`).
- `app/` is the program: command-line parsing, the configuration file, the SQLite queries,
  the file operations and the printing.
- `tests/` runs the library on concrete values.
