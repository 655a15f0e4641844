//! Installing a dsh version: where its files go, the npm command that
//! installs it, how the outcome is reported, and the registry of running
//! installations that a user can cancel.
//!
//! Writing files, spawning npm and waiting for it happen outside; the
//! functions here compute what those steps are handed and decide on what
//! they report.
use vstd::prelude::*;

use crate::dsh::integrity::{missing_entry_fault, verify_entry_exists};
use crate::dsh::registry::PackageManifest;
use crate::error::{message_spec, Fault, LauncherError};
use crate::text::{chars_of, dec, dec_exec, extend, join_path, join_path_exec, string_of, trim, trim_exec};

verus! {

broadcast use vstd::string::group_string_axioms;

/// The dsh package.
pub const DSH_PACKAGE_NAME: &'static str = "@deepseek-ai/dsh";

/// What an installation of one dsh version needs.
#[derive(Debug, Clone)]
pub struct InstallDshOptions {
    pub version: String,
    pub registry: String,
    /// The directory holding one directory per version.
    pub dsh_dir: String,
    pub node_executable: String,
    /// npm's CLI script of the managed Node runtime.
    pub npm_script: Option<String>,
    pub npm_cache: Option<String>,
    pub npm_userconfig: Option<String>,
    /// 0 waits without a limit.
    pub timeout_secs: u64,
}

pub open spec fn version_dir_spec(dsh_dir: Seq<char>, version: Seq<char>) -> Seq<char> {
    join_path(dsh_dir, version)
}

pub open spec fn module_dir_spec(version_dir: Seq<char>) -> Seq<char> {
    join_path(join_path(join_path(version_dir, "node_modules"@), "@deepseek-ai"@), "dsh"@)
}

pub open spec fn cli_entry_spec(version_dir: Seq<char>) -> Seq<char> {
    join_path(module_dir_spec(version_dir), "lib/bin.js"@)
}

fn module_dir_exec(version_dir: &str) -> (r: String)
    ensures
        r@ == module_dir_spec(version_dir@),
{
    let a = join_path_exec(version_dir, "node_modules");
    let b = join_path_exec(a.as_str(), "@deepseek-ai");
    join_path_exec(b.as_str(), "dsh")
}

impl InstallDshOptions {
    /// `<dsh_dir>/<version>`.
    pub fn version_dir(&self) -> (r: String)
        ensures
            r@ == version_dir_spec(self.dsh_dir@, self.version@),
    {
        join_path_exec(self.dsh_dir.as_str(), self.version.as_str())
    }

    /// `<version_dir>/package.json`.
    pub fn package_json_path(&self) -> (r: String)
        ensures
            r@ == join_path(version_dir_spec(self.dsh_dir@, self.version@), "package.json"@),
    {
        let d = self.version_dir();
        join_path_exec(d.as_str(), "package.json")
    }

    /// `<version_dir>/node_modules/@deepseek-ai/dsh`.
    pub fn dsh_module_dir(&self) -> (r: String)
        ensures
            r@ == module_dir_spec(version_dir_spec(self.dsh_dir@, self.version@)),
    {
        let d = self.version_dir();
        module_dir_exec(d.as_str())
    }

    /// The entry script `lib/bin.js` of the installed package.
    pub fn cli_entry_path(&self) -> (r: String)
        ensures
            r@ == cli_entry_spec(version_dir_spec(self.dsh_dir@, self.version@)),
    {
        let m = self.dsh_module_dir();
        join_path_exec(m.as_str(), "lib/bin.js")
    }
}

/// The entry script of the dsh installed in `version_dir`.
pub fn cli_entry(version_dir: &str) -> (r: String)
    ensures
        r@ == cli_entry_spec(version_dir@),
{
    let m = module_dir_exec(version_dir);
    join_path_exec(m.as_str(), "lib/bin.js")
}

/// The entry script, which must exist (`exists` says whether it does).
pub fn read_cli_entry(version_dir: &str, exists: bool) -> (r: Result<String, LauncherError>)
    ensures
        exists ==> (r matches Ok(p) && p@ == cli_entry_spec(version_dir@)),
        !exists ==> (r matches Err(e) && e@ == Fault::DshInstall(
            "dsh cli entry not found: "@ + cli_entry_spec(version_dir@) + " (is dsh installed?)"@,
        )),
{
    let entry = cli_entry(version_dir);
    if exists {
        return Ok(entry);
    }
    let mut m = chars_of("dsh cli entry not found: ");
    extend(&mut m, &chars_of(entry.as_str()));
    extend(&mut m, &chars_of(" (is dsh installed?)"));
    Err(LauncherError::DshInstall(string_of(&m)))
}

/// The installation is usable: its entry script exists (`entry_exists`
/// says whether it does).
pub fn verify_install(opts: &InstallDshOptions, entry_exists: bool) -> (r: Result<
    (),
    LauncherError,
>)
    ensures
        entry_exists ==> r is Ok,
        !entry_exists ==> (r matches Err(e) && e@ == missing_entry_fault(
            module_dir_spec(version_dir_spec(opts.dsh_dir@, opts.version@)),
        )),
{
    let m = opts.dsh_module_dir();
    verify_entry_exists(m.as_str(), entry_exists)
}

/// `Path::parent` of a path.
pub uninterp spec fn std_path_parent(path: Seq<char>) -> Option<Seq<char>>;

/// `std::path::Path::parent`: the path without its last component, as
/// [`std_path_parent`] names it.
#[verifier::external_body]
fn path_parent(path: &str) -> (r: Option<String>)
    ensures
        match std_path_parent(path@) {
            Some(p) => r matches Some(q) && q@ == p,
            None => r is None,
        },
{
    std::path::Path::new(path).parent().map(|p| p.to_string_lossy().into_owned())
}

/// The directory holding the managed Node runtimes: the parent of one
/// runtime's directory (or that directory if it has no parent).
pub open spec fn runtime_dir_spec(node_dir: Seq<char>) -> Seq<char> {
    match std_path_parent(node_dir) {
        Some(p) => p,
        None => node_dir,
    }
}

fn managed_runtime_dir(node_dir: &str) -> (r: String)
    ensures
        r@ == runtime_dir_spec(node_dir@),
{
    match path_parent(node_dir) {
        Some(p) => p,
        None => String::from_str(node_dir),
    }
}

/// npm's cache for installations with the managed runtime.
pub fn managed_npm_cache_dir(node_dir: &str) -> (r: String)
    ensures
        r@ == join_path(runtime_dir_spec(node_dir@), "npm-cache"@),
{
    let d = managed_runtime_dir(node_dir);
    join_path_exec(d.as_str(), "npm-cache")
}

/// npm's user configuration for installations with the managed runtime.
pub fn managed_npm_userconfig(node_dir: &str) -> (r: String)
    ensures
        r@ == join_path(runtime_dir_spec(node_dir@), "npmrc"@),
{
    let d = managed_runtime_dir(node_dir);
    join_path_exec(d.as_str(), "npmrc")
}

/// The node executable of a runtime directory.
pub fn node_bin_path(node_dir: &str) -> (r: String)
    ensures
        r@ == join_path(node_dir@, "bin/node"@),
{
    join_path_exec(node_dir, "bin/node")
}

/// npm's CLI script of a runtime directory.
pub fn node_npm_path(node_dir: &str) -> (r: String)
    ensures
        r@ == join_path(node_dir@, "lib/node_modules/npm/bin/npm-cli.js"@),
{
    join_path_exec(node_dir, "lib/node_modules/npm/bin/npm-cli.js")
}

/// The options to install `manifest`'s version with the managed runtime in
/// `node_dir`.
pub fn options_from_manifest(
    manifest: &PackageManifest,
    registry: &str,
    dsh_dir: &str,
    node_dir: &str,
) -> (r: InstallDshOptions)
    ensures
        r.version@ == manifest.version@,
        r.registry@ == registry@,
        r.dsh_dir@ == dsh_dir@,
        r.node_executable@ == join_path(node_dir@, "bin/node"@),
        r.npm_script matches Some(s) && s@ == join_path(
            node_dir@,
            "lib/node_modules/npm/bin/npm-cli.js"@,
        ),
        r.npm_cache matches Some(s) && s@ == join_path(runtime_dir_spec(node_dir@), "npm-cache"@),
        r.npm_userconfig matches Some(s) && s@ == join_path(runtime_dir_spec(node_dir@), "npmrc"@),
        r.timeout_secs == 0,
{
    InstallDshOptions {
        version: manifest.version.clone(),
        registry: String::from_str(registry),
        dsh_dir: String::from_str(dsh_dir),
        node_executable: node_bin_path(node_dir),
        npm_script: Some(node_npm_path(node_dir)),
        npm_cache: Some(managed_npm_cache_dir(node_dir)),
        npm_userconfig: Some(managed_npm_userconfig(node_dir)),
        timeout_secs: 0,
    }
}

/// The sink for npm's output lines when the caller gives none. The launcher's
/// log is written outside this library, so lines handed here are dropped.
pub fn default_log() -> impl Fn(&str) {
    |_line: &str| {}
}

// ---------------------------------------------------------------------------
// The npm command
// ---------------------------------------------------------------------------

/// The arguments after npm's script.
pub open spec fn npm_args_spec(npm: Seq<char>, registry: Seq<char>) -> Seq<Seq<char>> {
    seq![
        npm,
        "install"@,
        "--prod"@,
        "--registry"@,
        registry,
        "--no-audit"@,
        "--no-fund"@,
        "--loglevel"@,
        "info"@,
    ]
}

/// The error before npm runs when `package.json` was not written.
pub open spec fn missing_package_json_fault(path: Seq<char>) -> Fault {
    Fault::DshInstall(
        "package.json not found at "@ + path + " (call write_package_json first)"@,
    )
}

/// The error when no managed npm is configured.
pub open spec fn missing_npm_fault() -> Fault {
    Fault::DshInstall("managed npm is required to install dsh (npm_script is not set)"@)
}

/// The program and arguments that install the package, in the version
/// directory. `package_json_exists` says whether `package.json` is there.
pub fn npm_install_command(opts: &InstallDshOptions, package_json_exists: bool) -> (r: Result<
    (String, Vec<String>),
    LauncherError,
>)
    ensures
        !package_json_exists ==> (r matches Err(e) && e@ == missing_package_json_fault(
            join_path(version_dir_spec(opts.dsh_dir@, opts.version@), "package.json"@),
        )),
        package_json_exists && opts.npm_script is None ==> (r matches Err(e) && e@
            == missing_npm_fault()),
        package_json_exists && opts.npm_script is Some ==> (r matches Ok((program, args))
            && program@ == opts.node_executable@ && args@.map_values(|a: String| a@)
            == npm_args_spec(opts.npm_script->0@, opts.registry@)),
{
    if !package_json_exists {
        let p = opts.package_json_path();
        let mut m = chars_of("package.json not found at ");
        extend(&mut m, &chars_of(p.as_str()));
        extend(&mut m, &chars_of(" (call write_package_json first)"));
        return Err(LauncherError::DshInstall(string_of(&m)));
    }
    let npm = match &opts.npm_script {
        Some(s) => s.clone(),
        None => {
            return Err(
                LauncherError::DshInstall(
                    String::from_str("managed npm is required to install dsh (npm_script is not set)"),
                ),
            );
        },
    };
    let mut args: Vec<String> = Vec::new();
    args.push(npm);
    args.push(String::from_str("install"));
    args.push(String::from_str("--prod"));
    args.push(String::from_str("--registry"));
    args.push(opts.registry.clone());
    args.push(String::from_str("--no-audit"));
    args.push(String::from_str("--no-fund"));
    args.push(String::from_str("--loglevel"));
    args.push(String::from_str("info"));
    assert(args@.map_values(|a: String| a@) =~= npm_args_spec(
        opts.npm_script->0@,
        opts.registry@,
    ));
    Ok((opts.node_executable.clone(), args))
}

/// npm's environment: `PATH` (empty when unset) and the home directory
/// (`HOME`, else `USERPROFILE`), nothing else.
pub open spec fn npm_env_spec(
    path: Option<Seq<char>>,
    home: Option<Seq<char>>,
    user_profile: Option<Seq<char>>,
) -> Seq<(Seq<char>, Seq<char>)> {
    let p = seq![(
        "PATH"@,
        match path {
            Some(x) => x,
            None => Seq::<char>::empty(),
        },
    )];
    match home {
        Some(h) => p.push(("HOME"@, h)),
        None => match user_profile {
            Some(u) => p.push(("USERPROFILE"@, u)),
            None => p,
        },
    }
}

pub open spec fn pairs_view(v: Seq<(String, String)>) -> Seq<(Seq<char>, Seq<char>)> {
    v.map_values(|p: (String, String)| (p.0@, p.1@))
}

/// The environment npm runs with, from the launcher's `PATH`, `HOME` and
/// `USERPROFILE`.
pub fn npm_install_env(
    path: Option<String>,
    home: Option<String>,
    user_profile: Option<String>,
) -> (r: Vec<(String, String)>)
    ensures
        pairs_view(r@) == npm_env_spec(
            match path {
                Some(x) => Some(x@),
                None => None,
            },
            match home {
                Some(x) => Some(x@),
                None => None,
            },
            match user_profile {
                Some(x) => Some(x@),
                None => None,
            },
        ),
{
    let mut env: Vec<(String, String)> = Vec::new();
    let p = match path {
        Some(x) => x,
        None => String::new(),
    };
    env.push((String::from_str("PATH"), p));
    match home {
        Some(h) => env.push((String::from_str("HOME"), h)),
        None => match user_profile {
            Some(u) => env.push((String::from_str("USERPROFILE"), u)),
            None => {},
        },
    }
    assert(pairs_view(env@) =~= npm_env_spec(
        match path {
            Some(x) => Some(x@),
            None => None,
        },
        match home {
            Some(x) => Some(x@),
            None => None,
        },
        match user_profile {
            Some(x) => Some(x@),
            None => None,
        },
    ));
    env
}

/// The text `{:?}` gives for an exit code.
pub open spec fn code_debug(code: Option<i32>) -> Seq<char> {
    match code {
        None => "None"@,
        Some(c) => "Some("@ + (if c < 0 {
            "-"@ + dec((-c) as nat)
        } else {
            dec(c as nat)
        }) + ")"@,
    }
}

pub(crate) fn code_debug_exec(code: Option<i32>) -> (r: Vec<char>)
    ensures
        r@ == code_debug(code),
{
    match code {
        None => chars_of("None"),
        Some(c) => {
            let mut m = chars_of("Some(");
            if c < 0 {
                let mag: u64 = if c == i32::MIN {
                    2147483648u64
                } else {
                    (-c) as u64
                };
                extend(&mut m, &chars_of("-"));
                extend(&mut m, &dec_exec(mag));
            } else {
                extend(&mut m, &dec_exec(c as u64));
            }
            extend(&mut m, &chars_of(")"));
            m
        },
    }
}

/// npm exited with a failure status.
pub fn npm_exit_failure(code: Option<i32>) -> (r: LauncherError)
    ensures
        r@ == Fault::DshInstall(
            "npm install failed: exit code "@ + code_debug(code) + " (see logs for details)"@,
        ),
{
    let mut m = chars_of("npm install failed: exit code ");
    extend(&mut m, &code_debug_exec(code));
    extend(&mut m, &chars_of(" (see logs for details)"));
    LauncherError::DshInstall(string_of(&m))
}

/// npm ran longer than `timeout_secs`.
pub fn npm_timeout(timeout_secs: u64) -> (r: LauncherError)
    ensures
        r@ == Fault::DshInstall("npm install timed out after "@ + dec(timeout_secs as nat) + "s"@),
{
    let mut m = chars_of("npm install timed out after ");
    extend(&mut m, &dec_exec(timeout_secs));
    extend(&mut m, &chars_of("s"));
    LauncherError::DshInstall(string_of(&m))
}

/// How an installation ended: npm's result, then (only when npm succeeded)
/// the check of the installed files. On failure the version directory is
/// removed, and the error says so.
pub open spec fn install_outcome_spec(
    install: Result<(), Fault>,
    verify: Result<(), Fault>,
    version_dir: Seq<char>,
) -> Result<(), Fault> {
    match install {
        Err(f) => Err(
            Fault::DshInstall(
                "install failed: "@ + message_spec(f) + " (version dir cleaned: "@ + version_dir
                    + ")"@,
            ),
        ),
        Ok(_) => match verify {
            Err(f) => Err(
                Fault::DshInstall(
                    "verify failed: "@ + message_spec(f) + " (version dir cleaned: "@
                        + version_dir + ")"@,
                ),
            ),
            Ok(_) => Ok(()),
        },
    }
}

pub open spec fn result_view(r: Result<(), LauncherError>) -> Result<(), Fault> {
    match r {
        Ok(_) => Ok(()),
        Err(e) => Err(e@),
    }
}

/// Reports an installation's outcome; `Err` means the version directory is
/// to be removed.
pub fn install_outcome(
    install: Result<(), LauncherError>,
    verify: Result<(), LauncherError>,
    version_dir: &str,
) -> (r: Result<(), LauncherError>)
    ensures
        result_view(r) == install_outcome_spec(
            result_view(install),
            result_view(verify),
            version_dir@,
        ),
{
    let (label, error) = match install {
        Err(e) => ("install failed: ", e),
        Ok(_) => match verify {
            Err(e) => ("verify failed: ", e),
            Ok(_) => return Ok(()),
        },
    };
    let mut m = chars_of(label);
    extend(&mut m, &chars_of(error.message().as_str()));
    extend(&mut m, &chars_of(" (version dir cleaned: "));
    extend(&mut m, &chars_of(version_dir));
    extend(&mut m, &chars_of(")"));
    Err(LauncherError::DshInstall(string_of(&m)))
}

// ---------------------------------------------------------------------------
// Running installations
// ---------------------------------------------------------------------------

/// The installation that is running, if any: its operation id, the token
/// it was registered with, and whether it was cancelled.
pub struct DshInstallOperations {
    active: Option<(String, u64, bool)>,
    next_token: u64,
}

/// The registry as values.
pub ghost struct OperationsView {
    pub active: Option<(Seq<char>, u64, bool)>,
    pub next_token: u64,
}

impl View for DshInstallOperations {
    type V = OperationsView;

    closed spec fn view(&self) -> OperationsView {
        OperationsView {
            active: match self.active {
                Some((id, t, c)) => Some((id@, t, c)),
                None => None,
            },
            next_token: self.next_token,
        }
    }
}

/// What registering `id` does.
pub open spec fn register_spec(o: OperationsView, id: Seq<char>) -> Result<OperationsView, Fault> {
    if trim(id).len() == 0 {
        Err(Fault::DshInstall("operation_id is required to install dsh"@))
    } else if o.active is Some {
        Err(Fault::DshInstall("another dsh installation is already running"@))
    } else {
        Ok(
            OperationsView {
                active: Some((id, o.next_token, false)),
                next_token: (if o.next_token == u64::MAX {
                    0
                } else {
                    o.next_token + 1
                }) as u64,
            },
        )
    }
}

/// The error a cancelled installation stops with.
pub open spec fn cancelled_fault() -> Fault {
    Fault::DshInstall("dsh installation was cancelled"@)
}

impl DshInstallOperations {
    /// No installation is running.
    pub fn new() -> (r: Self)
        ensures
            r@.active is None,
    {
        DshInstallOperations { active: None, next_token: 0 }
    }

    /// Registers an installation under a non-blank operation id; only one
    /// may run at a time. Returns the token its cancellation is checked
    /// with.
    pub fn register(&mut self, operation_id: &str) -> (r: Result<u64, LauncherError>)
        ensures
            match register_spec(old(self)@, operation_id@) {
                Ok(o) => r == Ok::<u64, LauncherError>(old(self)@.next_token) && final(self)@ == o,
                Err(f) => r matches Err(e) && e@ == f && final(self)@ == old(self)@,
            },
    {
        let t = trim_exec(&chars_of(operation_id));
        if t.len() == 0 {
            return Err(
                LauncherError::DshInstall(String::from_str("operation_id is required to install dsh")),
            );
        }
        if self.active.is_some() {
            return Err(
                LauncherError::DshInstall(
                    String::from_str("another dsh installation is already running"),
                ),
            );
        }
        let token = self.next_token;
        self.active = Some((String::from_str(operation_id), token, false));
        self.next_token = self.next_token.wrapping_add(1);
        Ok(token)
    }

    /// Cancels the running installation if it has this id.
    pub fn cancel(&mut self, operation_id: &str) -> (r: bool)
        ensures
            r == (old(self)@.active matches Some((id, _, _)) && id == operation_id@),
            r ==> (old(self)@.active matches Some((_, t, _)) && final(self)@ == (OperationsView {
                active: Some((operation_id@, t, true)),
                ..old(self)@
            })),
            !r ==> final(self)@ == old(self)@,
    {
        let matches = match &self.active {
            Some((id, _, _)) => crate::text::str_eq(id.as_str(), operation_id),
            None => false,
        };
        if !matches {
            return false;
        }
        match &mut self.active {
            Some(a) => {
                a.2 = true;
            },
            None => {},
        }
        true
    }

    /// The installation registered with `token` may go on: it is still the
    /// running one and was not cancelled.
    pub fn check(&self, token: u64) -> (r: Result<(), LauncherError>)
        ensures
            (self@.active matches Some((_, t, c)) && t == token && !c) ==> r is Ok,
            !(self@.active matches Some((_, t, c)) && t == token && !c) ==> (r matches Err(e)
                && e@ == cancelled_fault()),
    {
        match &self.active {
            Some((_, t, c)) => {
                if *t == token && !*c {
                    return Ok(());
                }
            },
            None => {},
        }
        Err(LauncherError::DshInstall(String::from_str("dsh installation was cancelled")))
    }

    /// The installation with this id ended.
    pub fn finish(&mut self, operation_id: &str)
        ensures
            (old(self)@.active matches Some((id, _, _)) && id == operation_id@) ==> final(self)@
                == (OperationsView { active: None, ..old(self)@ }),
            !(old(self)@.active matches Some((id, _, _)) && id == operation_id@) ==> final(self)@
                == old(self)@,
    {
        let matches = match &self.active {
            Some((id, _, _)) => crate::text::str_eq(id.as_str(), operation_id),
            None => false,
        };
        if matches {
            self.active = None;
        }
    }
}

/// Only the running installation can be cancelled, and then its own checks
/// fail; once it has ended, nothing can be cancelled and a second one can
/// start.
pub proof fn law_cancel_only_the_running_install(o: OperationsView, id: Seq<char>, other: Seq<char>)
    requires
        trim(id).len() > 0,
        o.active is None,
        other != id,
    ensures
        register_spec(o, id) matches Ok(o1) && {
            &&& o1.active matches Some((a, t, c)) && a == id && t == o.next_token && !c
            &&& !(o1.active matches Some((a, _, _)) && a == other)
            &&& register_spec(o1, other) is Err
        },
{
}

} // verus!
