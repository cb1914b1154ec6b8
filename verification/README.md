# bulletd-core

A bullet journal kept as plain Markdown files, one per day, with a verified
core. Every bullet has a status (open, done, migrated, cancelled,
backlogged), optional notes, and links that trace a migration from one day
to another.

## Layout

- `src/` is the library, verified with Verus:
  - `text`, `date`: character sequences, decimal numbers and calendar dates;
  - `model`, `error`, `id`: bullets, logs, errors and bullet IDs;
  - `format`, `parser`, `serializer`, `round_trip`: the Markdown table
    format, its reader and writer, and the proof that a log read back after
    writing is the log that was written;
  - `ops`: the operations on daily logs (add, edit, complete, migrate,
    unmigrate, move, review, group);
  - `work_day`, `config`: work days and the configuration's rules;
  - `screen`, `layout`, `tui`: the terminal interface's state machine, what
    its views show row by row (with migration counts and stale tasks), the
    bullet form and the migrate picker;
  - `mcp`: the rules that read the MCP server's arguments;
  - `laws`: properties that relate several operations.
- `app/` is the program around it: files on disk, the TOML configuration,
  the terminal drawing, the MCP server over stdio and the setup wizard.
- `tests/` runs the library on concrete journals.
