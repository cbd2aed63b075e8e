# empl

The library of `empl`, an extensible terminal music player, verified with
Verus: its command-line flags, its configuration (from the command line and
from a configuration file in a small Lisp dialect), the lexer, parser and
evaluator of that dialect, the state and rendering of the display, and the
bookkeeping around the Guile runtime.

## Layout

- `src/` — the verified library. Every executable function has a contract
  over mathematical models (`Seq`, `Map`-like association lists, views of the
  library's types); laws that relate several functions are public proof
  functions named `law_*`.
  - `flag`, `argument`, `argv`, `cli` — command-line arguments.
  - `config` — the configuration: colors, key bindings, playlists, the
    command-line stage (`config::cli`), the configuration file
    (`config::lisp`), default paths and defaults.
  - `clisp` — lexer, expression parser and arities of the configuration
    language; `lisp` — its expression parser and evaluator.
  - `display` — what the player shows and which parts of the screen change.
  - `command` — padded terminal text and colors.
  - `guile` — the Guile mode state machine and the descriptors of functions
    handed to Guile.
  - `ext`, `text`, `const_vec`, `cow`, `lazy_rc`, `either` — helpers.
- `tests/` — tests of the library.
- `app/` — the interactive evaluator (`main`), and what needs the operating
  system: reading files and the environment, the terminal, the Guile runtime.

Evaluation takes a budget (`fuel`): the depth of nesting it may reach before
it stops with `EvalError::OutOfFuel`.
