//! The `dsh` command a user can put on their PATH: a POSIX shell script
//! that runs the launcher's managed Node with a helper script, which in turn
//! starts the current dsh version. Both files carry a marker so that the
//! launcher only ever replaces its own files.
use vstd::prelude::*;

use crate::error::{message_spec, Fault, LauncherError};
use crate::text::{chars_of, contains, contains_str, lemma_contains_middle, extend, join_path, join_path_exec, replace_all, replace_exec, string_of};

verus! {

broadcast use vstd::string::group_string_axioms;

/// The marker in every file the launcher writes.
pub const SHIM_MARKER: &'static str = "Managed by DeepSeek Harness Launcher";

/// The helper script's name in the data directory.
pub const HELPER_NAME: &'static str = "dsh-cli-shim.cjs";

/// The entry script inside a version directory.
pub const DSH_ENTRY_REL: &'static str = "node_modules/@deepseek-ai/dsh/lib/bin.js";

/// The helper script's text after its marker line's marker.
pub const HELPER_REST: &'static str = "\n'use strict';\n\nconst fs = require('node:fs');\nconst path = require('node:path');\nconst { spawnSync } = require('node:child_process');\n\nconst dataDir = __dirname;\nconst fail = (message) => {\n  console.error(`dsh: ${message}`);\n  process.exit(1);\n};\n\nlet version;\ntry {\n  if (process.platform === 'win32') {\n    version = JSON.parse(fs.readFileSync(path.join(dataDir, 'dsh', 'current.json'), 'utf8')).version;\n  } else {\n    version = path.basename(fs.readlinkSync(path.join(dataDir, 'dsh', 'current')));\n  }\n} catch (error) {\n  fail(`managed dsh is not installed (${error.message}). Open DeepSeek Harness Launcher and complete setup.`);\n}\nif (typeof version !== 'string' || !version) {\n  fail('managed dsh version pointer is invalid. Reinstall it from DeepSeek Harness Launcher.');\n}\n\nconst entry = path.join(dataDir, 'dsh', version, 'node_modules/@deepseek-ai/dsh/lib/bin.js');\nif (!fs.existsSync(entry)) {\n  fail('managed dsh is unavailable. Reinstall it from DeepSeek Harness Launcher.');\n}\n\nconst child = spawnSync(process.execPath, ['--expose-internals', entry, ...process.argv.slice(2)], {\n  stdio: 'inherit',\n});\nif (child.error) fail(child.error.message);\nprocess.exit(child.status ?? 1);\n";

/// The command script between its marker and the quoted data directory.
pub const COMMAND_HEAD_REST: &'static str = "\nset -eu\n\nDATA_DIR=";

/// The command script after the quoted data directory.
pub const COMMAND_TAIL: &'static str = "\nVERSION_FILE=\"$DATA_DIR/node-runtime/VERSION\"\nif [ ! -f \"$VERSION_FILE\" ]; then\n  printf '%s\\n' 'dsh: managed Node.js is not installed. Open DeepSeek Harness Launcher and complete setup.' >&2\n  exit 127\nfi\nNODE_VERSION=$(tr -d '\\r\\n' < \"$VERSION_FILE\")\nNODE=\"$DATA_DIR/node-runtime/node-v$NODE_VERSION/bin/node\"\nif [ ! -x \"$NODE\" ]; then\n  printf '%s\\n' 'dsh: managed Node.js is unavailable. Reinstall it from DeepSeek Harness Launcher.' >&2\n  exit 127\nfi\nexec \"$NODE\" \"$DATA_DIR/dsh-cli-shim.cjs\" \"$@\"\n";

/// What installing the command gives back.
#[derive(Debug, Clone, PartialEq, Eq)]
pub struct DshCliInstallResult {
    pub command_path: String,
    pub path_instruction: String,
}

/// Whether the command is installed.
#[derive(Debug, Clone, Copy, PartialEq, Eq, Structural)]
pub enum DshCliStatusState {
    Installed,
    NotInstalled,
    Conflict,
}

/// The command's status.
#[derive(Debug, Clone, PartialEq, Eq)]
pub struct DshCliStatus {
    pub state: DshCliStatusState,
    pub command_path: String,
    pub path_instruction: String,
}

/// What removing the command gives back.
#[derive(Debug, Clone, PartialEq, Eq)]
pub struct DshCliUninstallResult {
    pub command_path: String,
    pub removed: bool,
}

/// The command's file name.
pub fn command_name() -> (r: &'static str)
    ensures
        r@ == "dsh"@,
{
    "dsh"
}

/// The helper script's path.
pub fn helper_path(data_dir: &str) -> (r: String)
    ensures
        r@ == join_path(data_dir@, "dsh-cli-shim.cjs"@),
{
    join_path_exec(data_dir, HELPER_NAME)
}

/// `path` in single quotes for a POSIX shell (each quote inside becomes
/// `'"'"'`).
pub open spec fn posix_quote_spec(path: Seq<char>) -> Seq<char> {
    "'"@ + replace_all(path, "'"@, "'\"'\"'"@) + "'"@
}

/// Quotes a path for a POSIX shell.
pub fn posix_quote(path: &str) -> (r: String)
    ensures
        r@ == posix_quote_spec(path@),
{
    proof {
        reveal_strlit("'");
    }
    let q = chars_of("'");
    let body = replace_exec(&chars_of(path), &q, &chars_of("'\"'\"'"));
    let mut m = chars_of("'");
    extend(&mut m, &body);
    extend(&mut m, &chars_of("'"));
    string_of(&m)
}

/// The command script for a data directory.
pub open spec fn command_contents_spec(data_dir: Seq<char>) -> Seq<char> {
    "#!/bin/sh\n# "@ + SHIM_MARKER@ + COMMAND_HEAD_REST@ + posix_quote_spec(data_dir) + COMMAND_TAIL@
}

/// The command script: it finds the managed Node from
/// `node-runtime/VERSION` and runs the helper with the arguments.
pub fn command_contents(data_dir: &str) -> (r: String)
    ensures
        r@ == command_contents_spec(data_dir@),
{
    let mut m = chars_of("#!/bin/sh\n# ");
    extend(&mut m, &chars_of(SHIM_MARKER));
    extend(&mut m, &chars_of(COMMAND_HEAD_REST));
    extend(&mut m, &chars_of(posix_quote(data_dir).as_str()));
    extend(&mut m, &chars_of(COMMAND_TAIL));
    string_of(&m)
}

/// The helper script's text.
pub open spec fn helper_spec() -> Seq<char> {
    "// "@ + SHIM_MARKER@ + HELPER_REST@
}

/// The helper script: it reads the `current` pointer and runs that
/// version's entry script.
pub fn helper_contents() -> (r: String)
    ensures
        r@ == helper_spec(),
{
    let mut m = chars_of("// ");
    extend(&mut m, &chars_of(SHIM_MARKER));
    extend(&mut m, &chars_of(HELPER_REST));
    string_of(&m)
}

/// How to put the command directory on the PATH.
pub fn path_instruction(command_dir: &str) -> (r: String)
    ensures
        r@ == "在 ~/.zprofile 中加入 `export PATH=\""@ + command_dir@ + ":$PATH\"`，然后关闭并重新打开 Terminal。"@,
{
    let mut m = chars_of("在 ~/.zprofile 中加入 `export PATH=\"");
    extend(&mut m, &chars_of(command_dir));
    extend(&mut m, &chars_of(":$PATH\"`，然后关闭并重新打开 Terminal。"));
    string_of(&m)
}

/// A file may be written when it is absent or the launcher's own;
/// `content` is its text (`None` when absent).
pub fn ensure_owned_or_absent(path: &str, content: Option<&str>) -> (r: Result<(), LauncherError>)
    ensures
        match content {
            None => r is Ok,
            Some(c) => if contains(c@, SHIM_MARKER@) {
                r is Ok
            } else {
                r matches Err(e) && e@ == Fault::DshCli(
                    path@ + " already exists and is not managed by this launcher"@,
                )
            },
        },
{
    match content {
        None => Ok(()),
        Some(c) => {
            if contains_str(&chars_of(c), SHIM_MARKER) {
                Ok(())
            } else {
                let mut m = chars_of(path);
                extend(&mut m, &chars_of(" already exists and is not managed by this launcher"));
                Err(LauncherError::DshCli(string_of(&m)))
            }
        },
    }
}

/// The managed Node of the data directory: its version and its directory
/// (from reading `node-runtime/VERSION`); a failure means it is not
/// installed.
pub fn check_node_runtime(
    node_version: Result<String, LauncherError>,
    node_dir: Result<String, LauncherError>,
) -> (r: Result<(String, String), LauncherError>)
    ensures
        match node_version {
            Err(e) => r matches Err(x) && x@ == Fault::NodeNotInstalled(message_spec(e@)),
            Ok(v) => match node_dir {
                Err(e) => r matches Err(x) && x@ == Fault::NodeNotInstalled(message_spec(e@)),
                Ok(d) => r == Ok::<(String, String), LauncherError>((v, d)),
            },
        },
{
    let v = match node_version {
        Err(e) => return Err(LauncherError::NodeNotInstalled { reason: e.message() }),
        Ok(v) => v,
    };
    let d = match node_dir {
        Err(e) => return Err(LauncherError::NodeNotInstalled { reason: e.message() }),
        Ok(d) => d,
    };
    Ok((v, d))
}

/// The managed Node binary must be an executable file.
pub fn check_node_binary(node_version: &str, node: &str, is_file: bool, is_executable: bool) -> (r:
    Result<(), LauncherError>)
    ensures
        !is_file ==> (r matches Err(e) && e@ == Fault::NodeNotInstalled(
            "managed Node binary missing for "@ + node_version@ + ": "@ + node@,
        )),
        is_file && !is_executable ==> (r matches Err(e) && e@ == Fault::NodeNotInstalled(
            "managed Node binary is not executable: "@ + node@,
        )),
        is_file && is_executable ==> r is Ok,
{
    if !is_file {
        let mut m = chars_of("managed Node binary missing for ");
        extend(&mut m, &chars_of(node_version));
        extend(&mut m, &chars_of(": "));
        extend(&mut m, &chars_of(node));
        return Err(LauncherError::NodeNotInstalled { reason: string_of(&m) });
    }
    if !is_executable {
        let mut m = chars_of("managed Node binary is not executable: ");
        extend(&mut m, &chars_of(node));
        return Err(LauncherError::NodeNotInstalled { reason: string_of(&m) });
    }
    Ok(())
}

/// The entry script of the current dsh, from reading the `current` pointer
/// under `data_dir/dsh`.
pub fn check_dsh_pointer(data_dir: &str, pointer: Result<Option<String>, LauncherError>) -> (r:
    Result<String, LauncherError>)
    ensures
        match pointer {
            Err(e) => r matches Err(x) && x@ == Fault::DshNotInstalled(message_spec(e@)),
            Ok(None) => r matches Err(x) && x@ == Fault::DshNotInstalled(
                "dsh/current pointer not set"@,
            ),
            Ok(Some(v)) => r matches Ok(p) && p@ == join_path(
                join_path(join_path(data_dir@, "dsh"@), v@),
                DSH_ENTRY_REL@,
            ),
        },
{
    let version = match pointer {
        Err(e) => return Err(LauncherError::DshNotInstalled { reason: e.message() }),
        Ok(None) => {
            return Err(
                LauncherError::DshNotInstalled {
                    reason: String::from_str("dsh/current pointer not set"),
                },
            );
        },
        Ok(Some(v)) => v,
    };
    let dsh = join_path_exec(data_dir, "dsh");
    let vd = join_path_exec(dsh.as_str(), version.as_str());
    Ok(join_path_exec(vd.as_str(), DSH_ENTRY_REL))
}

/// The current dsh's entry script must be a file.
pub fn check_dsh_entry(entry: &str, is_file: bool) -> (r: Result<(), LauncherError>)
    ensures
        is_file ==> r is Ok,
        !is_file ==> (r matches Err(e) && e@ == Fault::DshNotInstalled(
            "dsh CLI entry missing: "@ + entry@,
        )),
{
    if is_file {
        return Ok(());
    }
    let mut m = chars_of("dsh CLI entry missing: ");
    extend(&mut m, &chars_of(entry));
    Err(LauncherError::DshNotInstalled { reason: string_of(&m) })
}

/// What installing the command into `command_dir` reports.
pub fn install_result(command_dir: &str) -> (r: DshCliInstallResult)
    ensures
        r.command_path@ == join_path(command_dir@, "dsh"@),
        r.path_instruction@ == "在 ~/.zprofile 中加入 `export PATH=\""@ + command_dir@
            + ":$PATH\"`，然后关闭并重新打开 Terminal。"@,
{
    DshCliInstallResult {
        command_path: join_path_exec(command_dir, command_name()),
        path_instruction: path_instruction(command_dir),
    }
}

/// Both files the launcher writes carry the marker, so a second install
/// may replace them.
pub proof fn law_shim_files_are_marked(data_dir: Seq<char>)
    ensures
        contains(helper_spec(), SHIM_MARKER@),
        contains(command_contents_spec(data_dir), SHIM_MARKER@),
{
    let m = SHIM_MARKER@;
    assert(helper_spec() =~= "// "@ + m + HELPER_REST@);
    lemma_contains_middle("// "@, m, HELPER_REST@);
    let rest = COMMAND_HEAD_REST@ + posix_quote_spec(data_dir) + COMMAND_TAIL@;
    assert(command_contents_spec(data_dir) =~= "#!/bin/sh\n# "@ + m + rest);
    lemma_contains_middle("#!/bin/sh\n# "@, m, rest);
}

} // verus!
