//! The options `dsh web` is started with: the managed Node, the current dsh
//! version's entry script as working set, and the filtered environment with
//! `DSH_CLI_ENTRY`.
use vstd::prelude::*;

use crate::dsh::install::cli_entry_spec;
use crate::error::{message_spec, Fault, LauncherError};
use crate::host::lifecycle::{env_view, SpawnDshWebOptions};
use crate::text::{chars_of, contains, contains_str, extend, join_path, join_path_exec, string_of, str_eq};

verus! {

broadcast use vstd::string::group_string_axioms;

/// What a failure to find the runtime's directory becomes: a missing
/// `VERSION` file means the first-run wizard was not completed.
pub open spec fn node_dir_fault(f: Fault) -> Fault {
    match f {
        Fault::NodeDownload(m) => if contains(m, "read VERSION file failed"@) {
            Fault::NodeNotInstalled("node-runtime/VERSION not found; first-run wizard not completed"@)
        } else {
            f
        },
        _ => f,
    }
}

/// Maps the failure to find the managed runtime's directory.
pub fn map_node_dir_error(error: LauncherError) -> (r: LauncherError)
    ensures
        r@ == node_dir_fault(error@),
{
    let missing = match &error {
        LauncherError::NodeDownload(m) => contains_str(&chars_of(m.as_str()), "read VERSION file failed"),
        _ => false,
    };
    if missing {
        LauncherError::NodeNotInstalled {
            reason: String::from_str("node-runtime/VERSION not found; first-run wizard not completed"),
        }
    } else {
        error
    }
}

/// The managed node executable must be a file (`is_file` says whether it
/// is).
pub fn require_node_executable(node_executable: &str, is_file: bool) -> (r: Result<
    (),
    LauncherError,
>)
    ensures
        is_file ==> r is Ok,
        !is_file ==> (r matches Err(e) && e@ == Fault::NodeNotInstalled(
            "managed Node executable not found: "@ + node_executable@,
        )),
{
    if is_file {
        return Ok(());
    }
    let mut m = chars_of("managed Node executable not found: ");
    extend(&mut m, &chars_of(node_executable));
    Err(LauncherError::NodeNotInstalled { reason: string_of(&m) })
}

/// The current version from reading the `current` pointer: a failed read
/// is a path error, an unset pointer means dsh is not installed.
pub fn require_current_version(pointer: Result<Option<String>, LauncherError>) -> (r: Result<
    String,
    LauncherError,
>)
    ensures
        match pointer {
            Err(e) => r matches Err(x) && x@ == Fault::PathResolve(
                "dsh_current_pointer"@,
                message_spec(e@),
            ),
            Ok(None) => r matches Err(x) && x@ == Fault::DshNotInstalled(
                "dsh/current pointer not set; first-run wizard not completed"@,
            ),
            Ok(Some(v)) => r == Ok::<String, LauncherError>(v),
        },
{
    match pointer {
        Err(e) => Err(
            LauncherError::PathResolve {
                what: String::from_str("dsh_current_pointer"),
                cause: e.message(),
            },
        ),
        Ok(None) => Err(
            LauncherError::DshNotInstalled {
                reason: String::from_str(
                    "dsh/current pointer not set; first-run wizard not completed",
                ),
            },
        ),
        Ok(Some(v)) => Ok(v),
    }
}

/// The first index of a pair with key `k`.
pub open spec fn key_index(e: Seq<(Seq<char>, Seq<char>)>, k: Seq<char>, i: int) -> Option<int>
    decreases e.len() - i,
{
    if i < 0 || i >= e.len() {
        None
    } else if e[i].0 == k {
        Some(i)
    } else {
        key_index(e, k, i + 1)
    }
}

/// Setting `k` to `v`: replaces the first pair with key `k`, else appends.
pub open spec fn env_set(e: Seq<(Seq<char>, Seq<char>)>, k: Seq<char>, v: Seq<char>) -> Seq<
    (Seq<char>, Seq<char>),
> {
    match key_index(e, k, 0) {
        Some(i) => e.update(i, (k, v)),
        None => e.push((k, v)),
    }
}

fn env_insert(env: &mut Vec<(String, String)>, key: &str, value: &str)
    ensures
        env_view(final(env)@) == env_set(env_view(old(env)@), key@, value@),
{
    let ghost ev = env_view(env@);
    let mut i: usize = 0;
    while i < env.len()
        invariant
            i <= env.len(),
            ev == env_view(env@),
            env@ == old(env)@,
            key_index(ev, key@, 0) == key_index(ev, key@, i as int),
        decreases env.len() - i,
    {
        if str_eq(env[i].0.as_str(), key) {
            env.set(i, (String::from_str(key), String::from_str(value)));
            assert(env_view(env@) =~= ev.update(i as int, (key@, value@)));
            return;
        }
        i += 1;
    }
    env.push((String::from_str(key), String::from_str(value)));
    assert(env_view(env@) =~= ev.push((key@, value@)));
}

/// The start options for the current version `current_version` under
/// `dsh_dir`; `entry_exists` says whether its entry script exists, `env` is
/// the filtered environment.
pub fn spawn_options(
    node_executable: String,
    dsh_dir: &str,
    current_version: &str,
    entry_exists: bool,
    env: Vec<(String, String)>,
) -> (r: Result<SpawnDshWebOptions, LauncherError>)
    ensures
        !entry_exists ==> (r matches Err(e) && e@ == Fault::DshNotInstalled(
            "dsh cli entry not found: "@ + cli_entry_spec(join_path(dsh_dir@, current_version@))
                + " (version "@ + current_version@ + " may be broken)"@,
        )),
        entry_exists ==> (r matches Ok(o) && {
            &&& o.node_executable == node_executable
            &&& o.cli_entry@ == cli_entry_spec(join_path(dsh_dir@, current_version@))
            &&& o.cwd@ == join_path(dsh_dir@, current_version@)
            &&& env_view(o.env@) == env_set(
                env_view(env@),
                "DSH_CLI_ENTRY"@,
                cli_entry_spec(join_path(dsh_dir@, current_version@)),
            )
            &&& !o.electron_run_as_node
        }),
{
    let version_dir = join_path_exec(dsh_dir, current_version);
    let entry = crate::dsh::install::cli_entry(version_dir.as_str());
    if !entry_exists {
        let mut m = chars_of("dsh cli entry not found: ");
        extend(&mut m, &chars_of(entry.as_str()));
        extend(&mut m, &chars_of(" (version "));
        extend(&mut m, &chars_of(current_version));
        extend(&mut m, &chars_of(" may be broken)"));
        return Err(LauncherError::DshNotInstalled { reason: string_of(&m) });
    }
    let mut env = env;
    env_insert(&mut env, "DSH_CLI_ENTRY", entry.as_str());
    Ok(
        SpawnDshWebOptions {
            node_executable,
            cli_entry: entry,
            cwd: version_dir,
            env,
            electron_run_as_node: false,
        },
    )
}

} // verus!
