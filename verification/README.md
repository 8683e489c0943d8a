# rn_lang

The front end of a small indentation-based scripting language, verified with Verus: tokens,
types, the two-step reading of modules (declarations first, then definitions), the expression
parser with its scopes, the type checker, module loading, runtime values and variable scopes,
and the formatting of errors.

- `src/` is the verified library. Each public function states what it computes in its
  `ensures`; the laws that relate several functions are public proof functions named `law_*`.
- `tests/` runs the library on concrete inputs.
- `app/` is the command-line tool around the library (argument parsing, configuration files,
  the file system); it is ordinary Rust.
