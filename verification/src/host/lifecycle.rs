//! Starting `dsh web` with the managed Node runtime: which environment
//! variables the child sees, its command line, and when a failed spawn is
//! tried again.
//!
//! The command is `<node> --expose-internals <cli_entry> web --host
//! 127.0.0.1 --port 0`. Of the launcher's environment only `DSH_*`, `PATH`,
//! `HOME`, `USERPROFILE`, `LANG` and `LC_*` reach the child; `RUST_*`,
//! `TAURI_*` and `npm_*` never do.
use vstd::prelude::*;

use crate::error::{Fault, LauncherError};
use crate::text::{chars_of, starts_with, starts_with_exec, str_eq};

verus! {

broadcast use vstd::string::group_string_axioms;

/// Spawn attempts while the executable is busy (still open for writing).
pub const SPAWN_BUSY_ATTEMPTS: u32 = 8;

/// The raw OS error a Linux `exec` gives for a file still open for writing.
pub const ETXTBSY: i32 = 26;

/// What the child process is started with.
#[derive(Debug, Clone)]
pub struct SpawnDshWebOptions {
    /// The Node executable.
    pub node_executable: String,
    /// The dsh CLI entry script (`lib/bin.js`).
    pub cli_entry: String,
    /// The child's working directory.
    pub cwd: String,
    /// The environment, already filtered by [`filtered_env`].
    pub env: Vec<(String, String)>,
    /// Adds `ELECTRON_RUN_AS_NODE=1` when set.
    pub electron_run_as_node: bool,
}

/// Environment pairs as values.
pub open spec fn env_view(v: Seq<(String, String)>) -> Seq<(Seq<char>, Seq<char>)> {
    v.map_values(|p: (String, String)| (p.0@, p.1@))
}

/// A variable that the child process sees.
pub open spec fn is_passthrough_spec(key: Seq<char>) -> bool {
    if starts_with(key, "RUST_"@) || starts_with(key, "TAURI_"@) || starts_with(key, "npm_"@) {
        false
    } else {
        key == "PATH"@ || key == "HOME"@ || key == "USERPROFILE"@ || key == "LANG"@
            || starts_with(key, "DSH_"@) || starts_with(key, "LC_"@)
    }
}

pub open spec fn passes(p: (Seq<char>, Seq<char>)) -> bool {
    is_passthrough_spec(p.0)
}

/// `key` is passed on to the child process.
pub fn is_passthrough(key: &str) -> (r: bool)
    ensures
        r == is_passthrough_spec(key@),
{
    let k = chars_of(key);
    if starts_with_exec(&k, &chars_of("RUST_")) || starts_with_exec(&k, &chars_of("TAURI_"))
        || starts_with_exec(&k, &chars_of("npm_")) {
        return false;
    }
    str_eq(key, "PATH") || str_eq(key, "HOME") || str_eq(key, "USERPROFILE") || str_eq(key, "LANG")
        || starts_with_exec(&k, &chars_of("DSH_")) || starts_with_exec(&k, &chars_of("LC_"))
}

/// The child's environment out of the launcher's, in the given order.
pub fn filtered_env(vars: &Vec<(String, String)>) -> (r: Vec<(String, String)>)
    ensures
        env_view(r@) == env_view(vars@).filter(|p: (Seq<char>, Seq<char>)| passes(p)),
{
    let ghost ev = env_view(vars@);
    let ghost pred = |p: (Seq<char>, Seq<char>)| passes(p);
    let mut out: Vec<(String, String)> = Vec::new();
    assert(env_view(out@) =~= ev.take(0).filter(pred)) by {
        reveal(Seq::filter);
    }
    for i in 0..vars.len()
        invariant
            ev == env_view(vars@),
            pred == (|p: (Seq<char>, Seq<char>)| passes(p)),
            env_view(out@) == ev.take(i as int).filter(pred),
    {
        proof {
            crate::text::lemma_filter_take_step(ev, i as int, pred);
        }
        let ghost before = env_view(out@);
        if is_passthrough(vars[i].0.as_str()) {
            out.push((vars[i].0.clone(), vars[i].1.clone()));
            assert(env_view(out@) =~= before.push(ev[i as int]));
        }
    }
    assert(ev.take(ev.len() as int) =~= ev);
    out
}

/// The arguments after the node executable.
pub open spec fn spawn_args_spec(cli_entry: Seq<char>) -> Seq<Seq<char>> {
    seq!["--expose-internals"@, cli_entry, "web"@, "--host"@, "127.0.0.1"@, "--port"@, "0"@]
}

/// The child's full environment.
pub open spec fn spawn_env_spec(
    env: Seq<(Seq<char>, Seq<char>)>,
    electron_run_as_node: bool,
) -> Seq<(Seq<char>, Seq<char>)> {
    if electron_run_as_node {
        env.push(("ELECTRON_RUN_AS_NODE"@, "1"@))
    } else {
        env
    }
}

impl SpawnDshWebOptions {
    /// The node executable used when the state names none.
    pub fn default_node_executable() -> (r: String)
        ensures
            r@ == "node"@,
    {
        String::from_str("node")
    }

    /// The CLI entry from the `DSH_CLI_ENTRY` variable's value.
    pub fn cli_entry_from_env(value: Option<String>) -> (r: Result<String, LauncherError>)
        ensures
            match value {
                Some(v) => r matches Ok(p) && p@ == v@,
                None => r matches Err(e) && e@ == Fault::PathResolve(
                    "cli_entry"@,
                    "DSH_CLI_ENTRY environment variable is not set"@,
                ),
            },
    {
        match value {
            Some(v) => Ok(v),
            None => Err(
                LauncherError::PathResolve {
                    what: String::from_str("cli_entry"),
                    cause: String::from_str("DSH_CLI_ENTRY environment variable is not set"),
                },
            ),
        }
    }

    /// The command-line arguments of `dsh web`.
    pub fn spawn_args(&self) -> (r: Vec<String>)
        ensures
            r@.map_values(|s: String| s@) == spawn_args_spec(self.cli_entry@),
    {
        let mut r: Vec<String> = Vec::new();
        r.push(String::from_str("--expose-internals"));
        r.push(self.cli_entry.clone());
        r.push(String::from_str("web"));
        r.push(String::from_str("--host"));
        r.push(String::from_str("127.0.0.1"));
        r.push(String::from_str("--port"));
        r.push(String::from_str("0"));
        assert(r@.map_values(|s: String| s@) =~= spawn_args_spec(self.cli_entry@));
        r
    }

    /// The environment the child is started with (and nothing else).
    pub fn spawn_env(&self) -> (r: Vec<(String, String)>)
        ensures
            env_view(r@) == spawn_env_spec(env_view(self.env@), self.electron_run_as_node),
    {
        let mut r: Vec<(String, String)> = Vec::new();
        for i in 0..self.env.len()
            invariant
                env_view(r@) == env_view(self.env@).take(i as int),
        {
            let ghost before = env_view(r@);
            r.push((self.env[i].0.clone(), self.env[i].1.clone()));
            assert(env_view(r@) =~= before.push(env_view(self.env@)[i as int]));
            assert(env_view(self.env@).take(i + 1) =~= env_view(self.env@).take(i as int).push(
                env_view(self.env@)[i as int],
            ));
        }
        assert(env_view(self.env@).take(self.env.len() as int) =~= env_view(self.env@));
        if self.electron_run_as_node {
            r.push((String::from_str("ELECTRON_RUN_AS_NODE"), String::from_str("1")));
            assert(env_view(r@) =~= env_view(self.env@).push(("ELECTRON_RUN_AS_NODE"@, "1"@)));
        }
        r
    }
}

/// What follows a failed spawn.
#[derive(Debug, Clone, Copy, PartialEq, Eq, Structural)]
pub enum SpawnStep {
    /// Give up with this error.
    Fail,
    /// Wait this many milliseconds, then try again if `retry` (else give up
    /// with the last error).
    Wait { millis: u64, retry: bool },
}

/// The step after spawn attempt `attempt` (from 0) failed.
pub open spec fn spawn_step_spec(attempt: u32, busy: bool) -> SpawnStep {
    if !busy {
        SpawnStep::Fail
    } else {
        SpawnStep::Wait {
            millis: (20 * (attempt + 1)) as u64,
            retry: attempt + 1 < SPAWN_BUSY_ATTEMPTS,
        }
    }
}

/// Decides what follows a failed spawn: only a busy executable is tried
/// again, after a delay that grows by 20 ms per attempt.
pub fn spawn_failure_step(attempt: u32, busy: bool) -> (r: SpawnStep)
    requires
        attempt < SPAWN_BUSY_ATTEMPTS,
    ensures
        r == spawn_step_spec(attempt, busy),
{
    if !busy {
        SpawnStep::Fail
    } else {
        SpawnStep::Wait {
            millis: 20 * ((attempt as u64) + 1),
            retry: attempt + 1 < SPAWN_BUSY_ATTEMPTS,
        }
    }
}

/// `code` is the raw OS error of a busy executable.
pub fn is_busy_code(code: Option<i32>) -> (r: bool)
    ensures
        r == (code == Some(ETXTBSY)),
{
    match code {
        Some(c) => c == ETXTBSY,
        None => false,
    }
}

#[verifier::external_type_specification]
#[verifier::external_body]
pub struct ExIoError(std::io::Error);

/// The OS error code an I/O error carries, if any: what
/// `std::io::Error::raw_os_error` reads from it (`Some(code)` for an error
/// made by `from_raw_os_error(code)` or `last_os_error`, else `None`).
pub uninterp spec fn os_error_code(error: std::io::Error) -> Option<i32>;

/// `std::io::Error::raw_os_error`: the OS error code the error carries, as
/// [`os_error_code`] names it.
#[verifier::external_body]
fn raw_os_error(error: &std::io::Error) -> (r: Option<i32>)
    ensures
        r == os_error_code(*error),
{
    error.raw_os_error()
}

/// The spawn failed because the executable is still open for writing
/// (`ETXTBSY`).
pub fn is_executable_busy(error: &std::io::Error) -> (r: bool)
    ensures
        r == (os_error_code(*error) == Some(ETXTBSY)),
{
    is_busy_code(raw_os_error(error))
}

/// A busy executable is tried at most `SPAWN_BUSY_ATTEMPTS` times, with
/// growing waits; any other failure ends the spawn at once.
pub proof fn law_spawn_retries_are_bounded(attempt: u32, busy: bool)
    requires
        attempt < SPAWN_BUSY_ATTEMPTS,
    ensures
        !busy ==> spawn_step_spec(attempt, busy) == SpawnStep::Fail,
        busy ==> (spawn_step_spec(attempt, busy) matches SpawnStep::Wait { millis, retry } && millis
            == 20 * (attempt + 1) && (retry <==> attempt + 1 < SPAWN_BUSY_ATTEMPTS)),
        busy && attempt + 1 == SPAWN_BUSY_ATTEMPTS ==> (spawn_step_spec(attempt, busy)
            matches SpawnStep::Wait { retry, .. } && !retry),
{
}

/// The filtered environment never carries a `RUST_`, `TAURI_` or `npm_`
/// variable, and keeps every `DSH_` one.
pub proof fn law_filtered_env_drops_build_tool_vars(env: Seq<(Seq<char>, Seq<char>)>, i: int)
    requires
        0 <= i < env.len(),
    ensures
        starts_with(env[i].0, "RUST_"@) || starts_with(env[i].0, "TAURI_"@) || starts_with(
            env[i].0,
            "npm_"@,
        ) ==> !env.filter(|p: (Seq<char>, Seq<char>)| passes(p)).contains(env[i]),
        starts_with(env[i].0, "DSH_"@) ==> env.filter(
            |p: (Seq<char>, Seq<char>)| passes(p),
        ).contains(env[i]),
{
    let pred = |p: (Seq<char>, Seq<char>)| passes(p);
    reveal_strlit("RUST_");
    reveal_strlit("TAURI_");
    reveal_strlit("npm_");
    reveal_strlit("DSH_");
    if env.filter(pred).contains(env[i]) {
        let k = choose|k: int| 0 <= k < env.filter(pred).len() && env.filter(pred)[k] == env[i];
        env.lemma_filter_pred(pred, k);
    }
    if starts_with(env[i].0, "DSH_"@) {
        let k = env[i].0;
        assert(k[0] == 'D') by {
            assert(k.take(4)[0] == k[0]);
        }
        assert(!starts_with(k, "RUST_"@)) by {
            if starts_with(k, "RUST_"@) {
                assert(k.take(5)[0] == k[0]);
            }
        }
        assert(!starts_with(k, "TAURI_"@)) by {
            if starts_with(k, "TAURI_"@) {
                assert(k.take(6)[0] == k[0]);
            }
        }
        assert(!starts_with(k, "npm_"@)) by {
            if starts_with(k, "npm_"@) {
                assert(k.take(4)[0] == k[0]);
            }
        }
        env.lemma_filter_contains(pred, i);
    }
}

} // verus!
