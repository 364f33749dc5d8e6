# xeedee_cli

A command-line client for XBDM, the debug monitor of the Xbox 360, with its
logic verified by Verus.

- `src/` is the library: which request a command makes of the console, how
  replies are shown, remote paths and argument parsing, directory listings and
  trees, recursive downloads, capture sessions, movie files, notifications.
  Everything in it is verified. The calls into `jiff`, `owo-colors`, `tabled`
  and `image` stand behind trusted items, each with a doc comment that says what
  is claimed of the outside function.
- `app/` is the program around it: the command line, connections, files, the
  terminal, and what is computed with floating-point numbers. It needs the
  protocol crate `xeedee`.
- `tests/` runs the library on concrete values.

Texts are sequences of characters in the contracts. Work that alternates with
the console is a state machine: the library says what to do next, the program
does it and hands back what happened. `capture`, `tree`, `fetch`, `harvest`,
`drivemap` and `notify` are of this kind.
