# quern

The Quern scripting toolchain, with its logic verified by Verus.

- `src/` is the verified library:
  - `runtime/`: the script interpreter — values, the scope and its access rules,
    literals, the patterns that recognise statements, imports, and a step-by-step interpreter
    with function calls and `Catch` handling;
  - `qvm/`: the QVM bytecode language in its two dialects — lexer, parser, syntax error
    reports and a step-by-step stack machine;
  - `launcher.rs`, `config.rs`, `logging.rs`: command-line decisions, configuration
    defaults and log line formatting;
  - `table.rs`, `text.rs`: a name-keyed table and text helpers. Every name-keyed map
    (stacks, functions, variables) is a `Table`: a list of name/value pairs whose names
    are distinct, viewed as a `Map`. vstd's specifications of `HashMap` prove very little
    about maps keyed by `String`, so the table is kept as a list whose every operation is
    proved against its `Map` view.
  Each `laws.rs` states what holds of every run.
- `app/` holds the programs around the library: file reading, `Config.yaml`, printing,
  floating-point arithmetic and comparisons, process spawning and tracing setup, and
  the check that an imported path stays inside the script's directory (its meaning
  rests on how `std::path` reads paths on each platform). The
  program is chosen by the name it runs under: `qvm`, `qvm4`, `QuerncLauncher`, or the
  interpreter (`quern --Run <script.q>`) for any other name.
- `tests/` runs the library on concrete scripts and programs.
