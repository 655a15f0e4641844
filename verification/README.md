# dsh_launcher

The decision logic of the DeepSeek Harness desktop launcher, verified with
Verus: which dsh version is current and which is known to work, when an
upgrade is offered and how a failed one falls back, how the `dsh web` host is
supervised and restarted after crashes, how npm and the terminal command are
prepared, and how errors reach the user.

- `src/` is the verified library. Every public function states its result in
  `ensures`; the `law_*` proof functions state what holds across calls.
  Calls into `semver`, `sha2` and `chrono` go through a few trusted wrappers,
  each with a doc comment that says what it assumes.
- `tests/` runs the library on concrete values.
- `app/` is the ordinary Rust around it: paths, `state.json`, the dsh
  directory on disk, npm and plugin processes, the terminal command's files
  and session log files. It reads what the library's functions need and
  carries out what they return.
