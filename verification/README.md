# sv-mint

A SystemVerilog linter. Files are preprocessed and parsed with `sv-parser`; each enabled stage
(raw text, preprocessed text, CST, AST) sends a payload to a Python rule host, and the
violations it reports are printed as `path:line:col: [severity] rule: message` with an excerpt
of the line. Exit status: 0 clean, 2 violations found, 3 errors.

## Layout

- `src/` — the library, verified with Verus: configuration defaults, checks, rule overrides and
  script resolution (`config`), filelists (`filelist`), the per-file stage decisions and size
  limits (`engine`), the plugin protocol decisions (`plugin`), the collectors over syntax-tree
  walks and the CST representation (`sv`, `svparser`), logging decisions (`diag`), output
  formatting (`output`), and text helpers (`strings`, `textutil`).
- `app/` — the command-line program: argument parsing, reading files, TOML and JSON, the
  `sv-parser` tree walks, the Python host process and the tracing subscriber.
- `tests/` — tests of the library.
