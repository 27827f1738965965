# chronos

A transactional shell.  Every command line is tokenized, parsed, its `$NAME` and
`${NAME}` references expanded, and assessed for risk.  Commands that change the
filesystem have the paths they touch recorded and snapshotted, and run inside a
transaction that is kept in a registry on disk; unknown and very risky commands are
put before an AI semantic analysis, and the user is asked when it advises so.  The
library also holds the logic of `undo`, `redo`, `transactions` and `purge` over that
registry; the shell's built-in dispatch does not route those names, so the program
does not offer them as commands.

The library (`src/`) holds the shell's logic, verified with Verus: every public function
states what it returns or changes, and the laws of the shell (what expansion does to
plain text and to variable references, that a registered completion is shown back,
that crash recovery leaves nothing half done, that restoring a snapshot puts back what
it kept, the order used for completion lists, ...) are proof functions.

- `lexer`, `parser`: tokens and commands with their redirects.
- `executor`: routing of a line into a command or a pipeline, argument expansion, the
  decisions taken while a command runs, how a pipeline is connected.
- `chronos`: risk assessment, tracked targets, transactions and snapshots, the text
  exchanged with the AI model.
- `shell`: the built-in commands (as lists of effects for the caller to carry out), the
  session state (variables, completions, history, jobs), completion.
- `text`, `order`, `strmap`: strings, their order, and a string map.

The program (`app/`) reads lines, performs the effects and the input and output the
library asks for, starts processes, talks to the AI model and keeps the registry on disk.
