# capsule

A zsh prompt engine whose core is written in Verus: the prompt layout,
styling, git status parsing, custom modules, configuration checks, daemon
state (sessions, slow-result cache, reloads) and the service definitions are
executable Rust with `requires`/`ensures` contracts proved by Verus.

Layout:

- `src/` — the verified library
  - `render/` — ANSI/zsh styling, display width and truncation, line composition
  - `module/` — prompt modules (directory, git, status, time, durations,
    toolchains) and custom modules (`custom/`: format strings, compilation,
    arbitration, built-in and preset definitions)
  - `daemon/` — prompt composition, sessions, the bounded cache, the shared
    slow work (one computation per cache key, revalidation of cache hits),
    request decisions, configuration reloads, daemon counters
  - `config.rs` — configuration types, defaults and checks
  - `connect.rs` — the shell's request lines and the answers sent back
  - `service/` — launchd and systemd definitions and installation decisions
  - `cli.rs`, `bench.rs`, `init/` — command types, runtime paths, the zsh script
  - `text.rs`, `path.rs`, `pattern.rs` — text, path and regex helpers
- `tests/` — tests run against the compiled library
- `app/` — the command-line program around the library (argument parsing,
  configuration files, git and command execution, terminal I/O)

Notes on behavior:

- Styles are rendered by `anstyle`, which writes each effect and the color
  as separate escape sequences: bold cyan is `ESC[1m` followed by `ESC[36m`
  rather than the combined `ESC[1;36m`. Terminals display both the same.
- Slow results are cached under the directory, the configuration generation
  and a dependency hash: the wrapping sum of the FNV-1a hashes of one
  entry per thing the slow modules read (each environment variable's value,
  whether each marker file exists, each source file's contents, and the
  forwarded `PATH` when a module runs a command). A sum does not depend on
  the order in which the names are listed.
- Custom modules are resolved from the user's `[[module]]` entries alone;
  the built-in toolchain definitions are offered by `capsule preset`.
- Custom module detection and git are given `timeout.fast_ms` and
  `timeout.slow_ms`; what has not answered by then is left out of the prompt.
- The daemon's wire protocol (the `capsule_protocol` crate) is not part of
  this build: `capsule daemon` and `capsule daemon status` report an error,
  and `capsule connect` computes each prompt in its own process, with the
  same session, cache and slow-work logic. `capsule daemon install` and
  `uninstall` manage the systemd user units on Linux; as the running daemon
  cannot be asked for its build, an installation whose unit files are
  current is left as it is, and the daemon's readiness is not awaited.
  launchd (macOS) definitions are generated by the library but not installed.
