# filekeeper

`fkp` keeps the configuration files of a machine in a repository: it checks
the configured entries against their kept copies, copies them either way,
switches between groups of entries and runs git in the repository.

- `src/` is the library, verified: the configuration and its groups
  (`config`), the comparison tree (`entry_tree`), the decisions of comparing
  files and directories (`compare`), the command line (`cli`), the git
  commands (`git`), text helpers (`text`) and string-keyed association lists
  (`keyed`).
- `app/` is the program: it reads and writes files, runs git and the editor,
  talks to the terminal and parses the TOML configuration, and hands the
  library plain values.
- `tests/` exercises the library.
