//! Launcher errors: what the frontend is shown as `{ kind, message, user_message, data }`.
use vstd::prelude::*;

use crate::text::{chars_of, contains, contains_exec, dec, dec_exec, string_of};

verus! {

broadcast use vstd::string::group_string_axioms;

/// The `state.json` schema version this launcher reads.
pub const EXPECTED_SCHEMA_VERSION: u8 = 3;

/// Every failure the launcher reports.
#[derive(Debug, Clone, PartialEq, Eq)]
pub enum LauncherError {
    StateCorrupt { path: String, cause: String },
    UnsupportedSchemaVersion(u8),
    StateMigration { step: String, cause: String },
    /// A system I/O error, by its display text.
    Io(String),
    /// A JSON (de)serialization error, by its display text.
    Serialization(String),
    PathResolve { what: String, cause: String },
    LoggingInit(String),
    Host(String),
    Mirror(String),
    NodeVersion(String),
    NodeDownload(String),
    NodeInstallCancelled { operation_id: String },
    DshRegistry(String),
    DshInstall(String),
    DshVersion(String),
    DshCli(String),
    DshPlugin(String),
    Theme(String),
    DshNotInstalled { reason: String },
    NodeNotInstalled { reason: String },
    NodeUpgradeRequired {
        dsh_version: String,
        current_node: String,
        engines_node: String,
        suggested_node: String,
    },
}

/// A launcher error with its texts as sequences.
pub ghost enum Fault {
    StateCorrupt(Seq<char>, Seq<char>),
    UnsupportedSchemaVersion(u8),
    StateMigration(Seq<char>, Seq<char>),
    Io(Seq<char>),
    Serialization(Seq<char>),
    PathResolve(Seq<char>, Seq<char>),
    LoggingInit(Seq<char>),
    Host(Seq<char>),
    Mirror(Seq<char>),
    NodeVersion(Seq<char>),
    NodeDownload(Seq<char>),
    NodeInstallCancelled(Seq<char>),
    DshRegistry(Seq<char>),
    DshInstall(Seq<char>),
    DshVersion(Seq<char>),
    DshCli(Seq<char>),
    DshPlugin(Seq<char>),
    Theme(Seq<char>),
    DshNotInstalled(Seq<char>),
    NodeNotInstalled(Seq<char>),
    NodeUpgradeRequired(Seq<char>, Seq<char>, Seq<char>, Seq<char>),
}

impl View for LauncherError {
    type V = Fault;

    open spec fn view(&self) -> Fault {
        match self {
            LauncherError::StateCorrupt { path, cause } => Fault::StateCorrupt(path@, cause@),
            LauncherError::UnsupportedSchemaVersion(v) => Fault::UnsupportedSchemaVersion(*v),
            LauncherError::StateMigration { step, cause } => Fault::StateMigration(step@, cause@),
            LauncherError::Io(m) => Fault::Io(m@),
            LauncherError::Serialization(m) => Fault::Serialization(m@),
            LauncherError::PathResolve { what, cause } => Fault::PathResolve(what@, cause@),
            LauncherError::LoggingInit(m) => Fault::LoggingInit(m@),
            LauncherError::Host(m) => Fault::Host(m@),
            LauncherError::Mirror(m) => Fault::Mirror(m@),
            LauncherError::NodeVersion(m) => Fault::NodeVersion(m@),
            LauncherError::NodeDownload(m) => Fault::NodeDownload(m@),
            LauncherError::NodeInstallCancelled { operation_id } => Fault::NodeInstallCancelled(
                operation_id@,
            ),
            LauncherError::DshRegistry(m) => Fault::DshRegistry(m@),
            LauncherError::DshInstall(m) => Fault::DshInstall(m@),
            LauncherError::DshVersion(m) => Fault::DshVersion(m@),
            LauncherError::DshCli(m) => Fault::DshCli(m@),
            LauncherError::DshPlugin(m) => Fault::DshPlugin(m@),
            LauncherError::Theme(m) => Fault::Theme(m@),
            LauncherError::DshNotInstalled { reason } => Fault::DshNotInstalled(reason@),
            LauncherError::NodeNotInstalled { reason } => Fault::NodeNotInstalled(reason@),
            LauncherError::NodeUpgradeRequired {
                dsh_version,
                current_node,
                engines_node,
                suggested_node,
            } => Fault::NodeUpgradeRequired(
                dsh_version@,
                current_node@,
                engines_node@,
                suggested_node@,
            ),
        }
    }
}

/// The error's display text.
pub open spec fn message_spec(f: Fault) -> Seq<char> {
    match f {
        Fault::StateCorrupt(p, c) => "state file is corrupt at "@ + p + ": "@ + c,
        Fault::UnsupportedSchemaVersion(v) => "unsupported state schema version: "@ + dec(
            v as nat,
        ) + " (expected 3)"@,
        Fault::StateMigration(s, c) => "state migration failed at step "@ + s + ": "@ + c,
        Fault::Io(m) => "io error: "@ + m,
        Fault::Serialization(m) => "serialization error: "@ + m,
        Fault::PathResolve(w, c) => "could not resolve "@ + w + " directory: "@ + c,
        Fault::LoggingInit(m) => "logging initialization failed: "@ + m,
        Fault::Host(m) => "host supervisor error: "@ + m,
        Fault::Mirror(m) => "mirror error: "@ + m,
        Fault::NodeVersion(m) => "node version error: "@ + m,
        Fault::NodeDownload(m) => "node download error: "@ + m,
        Fault::NodeInstallCancelled(o) => "node installation cancelled: "@ + o,
        Fault::DshRegistry(m) => "dsh registry error: "@ + m,
        Fault::DshInstall(m) => "dsh install error: "@ + m,
        Fault::DshVersion(m) => "dsh version error: "@ + m,
        Fault::DshCli(m) => "dsh CLI command error: "@ + m,
        Fault::DshPlugin(m) => "dsh plugin command error: "@ + m,
        Fault::Theme(m) => "theme error: "@ + m,
        Fault::DshNotInstalled(r) => "dsh not installed: "@ + r,
        Fault::NodeNotInstalled(r) => "node not installed: "@ + r,
        Fault::NodeUpgradeRequired(d, c, e, _) => "dsh "@ + d + " requires Node "@ + e
            + ", current version is "@ + c,
    }
}

/// The error kind the frontend switches on.
pub open spec fn kind_spec(f: Fault) -> Seq<char> {
    match f {
        Fault::StateCorrupt(..) => "state_corrupt"@,
        Fault::UnsupportedSchemaVersion(..) => "unsupported_schema_version"@,
        Fault::StateMigration(..) => "state_migration"@,
        Fault::Io(..) => "io"@,
        Fault::Serialization(..) => "serialization"@,
        Fault::PathResolve(..) => "path_resolve"@,
        Fault::LoggingInit(..) => "logging_init"@,
        Fault::Host(..) => "host"@,
        Fault::Mirror(..) => "mirror"@,
        Fault::NodeVersion(..) => "node_version"@,
        Fault::NodeDownload(..) => "node_download"@,
        Fault::NodeInstallCancelled(..) => "node_install_cancelled"@,
        Fault::DshRegistry(..) => "dsh_registry"@,
        Fault::DshInstall(..) => "dsh_install"@,
        Fault::DshVersion(..) => "dsh_version"@,
        Fault::DshCli(..) => "dsh_cli"@,
        Fault::DshPlugin(..) => "dsh_plugin"@,
        Fault::Theme(..) => "theme"@,
        Fault::DshNotInstalled(..) => "dsh_not_installed"@,
        Fault::NodeNotInstalled(..) => "node_not_installed"@,
        Fault::NodeUpgradeRequired(..) => "node_upgrade_required"@,
    }
}

/// Hint for host supervisor failures.
pub open spec fn host_hint(m: Seq<char>) -> Seq<char> {
    if contains(m, "timed out"@) || contains(m, "readiness"@) {
        "dsh 启动超时（90 秒内未就绪）。请重试；若持续失败请导出诊断信息。"@
    } else if contains(m, "spawn"@) || contains(m, "Operation not permitted"@) {
        "无法启动 dsh 子进程。请重启应用；若持续失败请导出诊断信息。"@
    } else if contains(m, "exited before readiness"@) {
        "dsh 启动后立即退出。请查看日志或回滚到稳定版本。"@
    } else {
        "dsh 运行异常。请重试；若持续失败请导出诊断信息。"@
    }
}

/// Hint for mirror failures.
pub open spec fn mirror_hint(m: Seq<char>) -> Seq<char> {
    if contains(m, "connect"@) || contains(m, "timeout"@) || contains(m, "dns"@) {
        "无法连接网络。请检查网络连接后重试。"@
    } else {
        "镜像源不可用。请更换镜像源后重试。"@
    }
}

/// What `str::to_lowercase` returns for a text.
pub uninterp spec fn lowercase(s: Seq<char>) -> Seq<char>;

/// Hint for Node download failures, decided on the lower-cased message.
pub open spec fn node_download_hint(lower: Seq<char>) -> Seq<char> {
    if contains(lower, "timed out"@) || contains(lower, "timeout"@) {
        "下载超时。请检查网络后重试，或更换镜像源。"@
    } else if contains(lower, "connect"@) || contains(lower, "dns"@) {
        "无法连接网络。请检查网络连接或镜像源设置后重试。"@
    } else if contains(lower, "sha"@) || contains(lower, "mismatch"@) {
        "下载文件校验失败（可能被篡改或镜像损坏）。请重试或更换镜像源。"@
    } else if contains(lower, "too small"@) || contains(lower, "suspiciously small"@) {
        "镜像返回了错误页面而非安装包。请更换镜像源后重试。"@
    } else if contains(lower, "disk"@) || contains(lower, "no space"@) {
        "磁盘空间不足。请清理磁盘后重试（至少需要 200MB）。"@
    } else if contains(lower, "not permitted"@) || contains(lower, "permission"@) {
        "没有写入权限。请检查应用数据目录权限（必要时用管理员身份运行）。"@
    } else if contains(lower, "404"@) {
        "镜像源上找不到该版本。请确认版本号或更换镜像源。"@
    } else {
        "下载失败。请重试；若持续失败请更换镜像源。"@
    }
}

/// The user-facing text (Chinese, with an actionable hint).
pub open spec fn user_message_spec(f: Fault) -> Seq<char> {
    match f {
        Fault::StateCorrupt(..) => "状态文件损坏。请在设置中导出诊断信息后重置应用数据。"@,
        Fault::UnsupportedSchemaVersion(..) => "状态文件由更高版本写入，无法识别。请升级启动器后再试。"@,
        Fault::StateMigration(..) => "状态迁移失败。请导出诊断信息并重置应用数据。"@,
        Fault::Io(m) => "系统 IO 错误："@ + m + "。请检查磁盘权限与剩余空间后重试。"@,
        Fault::Serialization(..) => "数据解析失败。请重试，若持续失败请导出诊断信息。"@,
        Fault::PathResolve(..) => "无法解析用户目录。请检查 HOME 环境变量是否设置。"@,
        Fault::LoggingInit(..) => "日志初始化失败。请检查日志目录写权限。"@,
        Fault::Host(m) => host_hint(m),
        Fault::Mirror(m) => mirror_hint(m),
        Fault::NodeVersion(m) => "Node 版本不满足要求（"@ + m
            + "）。已保留当前 dsh 版本，请在运行时更新后重试。"@,
        Fault::NodeDownload(m) => node_download_hint(lowercase(m)),
        Fault::NodeInstallCancelled(..) => "已取消 Node 运行时下载。你可以随时重新开始安装。"@,
        Fault::DshRegistry(m) => if contains(m, "connect"@) || contains(m, "timeout"@) || contains(
            m,
            "dns"@,
        ) {
            "无法连接网络。请检查网络连接或镜像源设置后重试。"@
        } else {
            "查询 dsh 版本信息失败。请稍后重试，或检查 registry 地址。"@
        },
        Fault::DshInstall(m) => if contains(m, "integrity"@) || contains(m, "sha"@) {
            "dsh 安装包完整性校验失败。请重试，若持续失败请更换镜像源。"@
        } else {
            "dsh 安装失败。请重试，若持续失败请导出诊断信息。"@
        },
        Fault::DshVersion(m) => if contains(m, "no known_good"@) {
            "没有可回滚的稳定版本。请重新安装 dsh。"@
        } else {
            "dsh 版本切换失败。请重试。"@
        },
        Fault::DshCli(m) => if contains(m, "already exists"@) {
            "目标位置已有其他 dsh 命令。为避免覆盖它，启动器没有做任何修改。"@
        } else {
            "无法安装 dsh 命令。请检查用户目录写权限后重试。"@
        },
        Fault::DshPlugin(m) => if contains(m, "expected:"@) {
            "仅支持单条安装或卸载命令：dsh plugin --profile <profile> add|remove <source>。"@
        } else if contains(m, "timed out"@) {
            "插件操作超时。请检查网络后重试，或在 dsh 中确认当前状态。"@
        } else {
            "插件操作失败。请检查来源与 profile 后重试；详情已写入应用日志。"@
        },
        Fault::Theme(..) => "主题设置无效。请选择浅色或黑白主题。"@,
        Fault::DshNotInstalled(..) => "dsh 尚未安装。请完成首次启动向导。"@,
        Fault::NodeNotInstalled(..) => "Node 运行时尚未安装。请完成首次启动向导。"@,
        Fault::NodeUpgradeRequired(d, c, e, s) => "dsh "@ + d + " 需要 Node "@ + e + "，当前为 "@
            + c + "。确认后将下载 Node "@ + s + " 并继续更新。"@,
    }
}

/// One value of an error's structured data.
#[derive(Debug, Clone, PartialEq, Eq)]
pub enum ErrorDatum {
    Text(String),
    Number(u64),
}

/// An error datum as a value.
pub ghost enum Datum {
    Text(Seq<char>),
    Number(nat),
}

pub open spec fn datum_view(d: ErrorDatum) -> Datum {
    match d {
        ErrorDatum::Text(s) => Datum::Text(s@),
        ErrorDatum::Number(n) => Datum::Number(n as nat),
    }
}

/// The structured context that the frontend receives as `data`.
pub open spec fn data_spec(f: Fault) -> Option<Seq<(Seq<char>, Datum)>> {
    match f {
        Fault::StateCorrupt(p, _) => Some(seq![("path"@, Datum::Text(p))]),
        Fault::UnsupportedSchemaVersion(v) => Some(
            seq![("version"@, Datum::Number(v as nat)), ("expected"@, Datum::Number(3))],
        ),
        Fault::StateMigration(s, _) => Some(seq![("step"@, Datum::Text(s))]),
        Fault::PathResolve(w, _) => Some(seq![("what"@, Datum::Text(w))]),
        Fault::DshNotInstalled(r) => Some(
            seq![("what"@, Datum::Text("dsh"@)), ("reason"@, Datum::Text(r))],
        ),
        Fault::NodeNotInstalled(r) => Some(
            seq![("what"@, Datum::Text("node"@)), ("reason"@, Datum::Text(r))],
        ),
        Fault::NodeUpgradeRequired(d, c, e, s) => Some(
            seq![
                ("dsh_version"@, Datum::Text(d)),
                ("current_node"@, Datum::Text(c)),
                ("engines_node"@, Datum::Text(e)),
                ("suggested_node"@, Datum::Text(s)),
            ],
        ),
        _ => None,
    }
}

pub open spec fn data_view(v: Vec<(String, ErrorDatum)>) -> Seq<(Seq<char>, Datum)> {
    v@.map_values(|e: (String, ErrorDatum)| (e.0@, datum_view(e.1)))
}

/// `a` followed by `b`.
pub fn cat(a: &str, b: &str) -> (r: String)
    ensures
        r@ == a@ + b@,
{
    let mut r = String::from_str(a);
    r.append(b);
    r
}

/// `a`, `b`, `c` in turn.
pub fn cat3(a: &str, b: &str, c: &str) -> (r: String)
    ensures
        r@ == a@ + b@ + c@,
{
    let mut r = String::from_str(a);
    r.append(b);
    r.append(c);
    r
}

/// `p` occurs in `s`.
pub fn str_contains(s: &str, p: &str) -> (r: bool)
    ensures
        r == contains(s@, p@),
{
    let sv = chars_of(s);
    let pv = chars_of(p);
    contains_exec(&sv, &pv)
}

/// `str::to_lowercase`.
#[verifier::external_body]
fn to_lowercase(s: &str) -> (r: String)
    ensures
        r@ == lowercase(s@),
{
    s.to_lowercase()
}

fn host_user_message(m: &str) -> (r: String)
    ensures
        r@ == host_hint(m@),
{
    if str_contains(m, "timed out") || str_contains(m, "readiness") {
        String::from_str("dsh 启动超时（90 秒内未就绪）。请重试；若持续失败请导出诊断信息。")
    } else if str_contains(m, "spawn") || str_contains(m, "Operation not permitted") {
        String::from_str("无法启动 dsh 子进程。请重启应用；若持续失败请导出诊断信息。")
    } else if str_contains(m, "exited before readiness") {
        String::from_str("dsh 启动后立即退出。请查看日志或回滚到稳定版本。")
    } else {
        String::from_str("dsh 运行异常。请重试；若持续失败请导出诊断信息。")
    }
}

fn mirror_user_message(m: &str) -> (r: String)
    ensures
        r@ == mirror_hint(m@),
{
    if str_contains(m, "connect") || str_contains(m, "timeout") || str_contains(m, "dns") {
        String::from_str("无法连接网络。请检查网络连接后重试。")
    } else {
        String::from_str("镜像源不可用。请更换镜像源后重试。")
    }
}

fn node_download_user_message(m: &str) -> (r: String)
    ensures
        r@ == node_download_hint(lowercase(m@)),
{
    let lower = to_lowercase(m);
    let l = lower.as_str();
    if str_contains(l, "timed out") || str_contains(l, "timeout") {
        String::from_str("下载超时。请检查网络后重试，或更换镜像源。")
    } else if str_contains(l, "connect") || str_contains(l, "dns") {
        String::from_str("无法连接网络。请检查网络连接或镜像源设置后重试。")
    } else if str_contains(l, "sha") || str_contains(l, "mismatch") {
        String::from_str("下载文件校验失败（可能被篡改或镜像损坏）。请重试或更换镜像源。")
    } else if str_contains(l, "too small") || str_contains(l, "suspiciously small") {
        String::from_str("镜像返回了错误页面而非安装包。请更换镜像源后重试。")
    } else if str_contains(l, "disk") || str_contains(l, "no space") {
        String::from_str("磁盘空间不足。请清理磁盘后重试（至少需要 200MB）。")
    } else if str_contains(l, "not permitted") || str_contains(l, "permission") {
        String::from_str("没有写入权限。请检查应用数据目录权限（必要时用管理员身份运行）。")
    } else if str_contains(l, "404") {
        String::from_str("镜像源上找不到该版本。请确认版本号或更换镜像源。")
    } else {
        String::from_str("下载失败。请重试；若持续失败请更换镜像源。")
    }
}

fn text_datum(key: &str, value: &str) -> (r: (String, ErrorDatum))
    ensures
        r.0@ == key@,
        datum_view(r.1) == Datum::Text(value@),
{
    (String::from_str(key), ErrorDatum::Text(String::from_str(value)))
}

impl LauncherError {
    /// The error's display text.
    pub fn message(&self) -> (r: String)
        ensures
            r@ == message_spec(self@),
    {
        match self {
            LauncherError::StateCorrupt { path, cause } => {
                let mut r = cat("state file is corrupt at ", path.as_str());
                r.append(": ");
                r.append(cause.as_str());
                r
            },
            LauncherError::UnsupportedSchemaVersion(v) => {
                let digits = string_of(&dec_exec(*v as u64));
                cat3("unsupported state schema version: ", digits.as_str(), " (expected 3)")
            },
            LauncherError::StateMigration { step, cause } => {
                let mut r = cat("state migration failed at step ", step.as_str());
                r.append(": ");
                r.append(cause.as_str());
                r
            },
            LauncherError::Io(m) => cat("io error: ", m.as_str()),
            LauncherError::Serialization(m) => cat("serialization error: ", m.as_str()),
            LauncherError::PathResolve { what, cause } => {
                let mut r = cat3("could not resolve ", what.as_str(), " directory: ");
                r.append(cause.as_str());
                r
            },
            LauncherError::LoggingInit(m) => cat("logging initialization failed: ", m.as_str()),
            LauncherError::Host(m) => cat("host supervisor error: ", m.as_str()),
            LauncherError::Mirror(m) => cat("mirror error: ", m.as_str()),
            LauncherError::NodeVersion(m) => cat("node version error: ", m.as_str()),
            LauncherError::NodeDownload(m) => cat("node download error: ", m.as_str()),
            LauncherError::NodeInstallCancelled { operation_id } => cat(
                "node installation cancelled: ",
                operation_id.as_str(),
            ),
            LauncherError::DshRegistry(m) => cat("dsh registry error: ", m.as_str()),
            LauncherError::DshInstall(m) => cat("dsh install error: ", m.as_str()),
            LauncherError::DshVersion(m) => cat("dsh version error: ", m.as_str()),
            LauncherError::DshCli(m) => cat("dsh CLI command error: ", m.as_str()),
            LauncherError::DshPlugin(m) => cat("dsh plugin command error: ", m.as_str()),
            LauncherError::Theme(m) => cat("theme error: ", m.as_str()),
            LauncherError::DshNotInstalled { reason } => cat(
                "dsh not installed: ",
                reason.as_str(),
            ),
            LauncherError::NodeNotInstalled { reason } => cat(
                "node not installed: ",
                reason.as_str(),
            ),
            LauncherError::NodeUpgradeRequired {
                dsh_version,
                current_node,
                engines_node,
                suggested_node: _,
            } => {
                let mut r = cat3("dsh ", dsh_version.as_str(), " requires Node ");
                r.append(engines_node.as_str());
                r.append(", current version is ");
                r.append(current_node.as_str());
                r
            },
        }
    }

    /// The error kind the frontend switches on.
    pub fn kind_str(&self) -> (r: &'static str)
        ensures
            r@ == kind_spec(self@),
    {
        match self {
            LauncherError::StateCorrupt { .. } => "state_corrupt",
            LauncherError::UnsupportedSchemaVersion(_) => "unsupported_schema_version",
            LauncherError::StateMigration { .. } => "state_migration",
            LauncherError::Io(_) => "io",
            LauncherError::Serialization(_) => "serialization",
            LauncherError::PathResolve { .. } => "path_resolve",
            LauncherError::LoggingInit(_) => "logging_init",
            LauncherError::Host(_) => "host",
            LauncherError::Mirror(_) => "mirror",
            LauncherError::NodeVersion(_) => "node_version",
            LauncherError::NodeDownload(_) => "node_download",
            LauncherError::NodeInstallCancelled { .. } => "node_install_cancelled",
            LauncherError::DshRegistry(_) => "dsh_registry",
            LauncherError::DshInstall(_) => "dsh_install",
            LauncherError::DshVersion(_) => "dsh_version",
            LauncherError::DshCli(_) => "dsh_cli",
            LauncherError::DshPlugin(_) => "dsh_plugin",
            LauncherError::Theme(_) => "theme",
            LauncherError::DshNotInstalled { .. } => "dsh_not_installed",
            LauncherError::NodeNotInstalled { .. } => "node_not_installed",
            LauncherError::NodeUpgradeRequired { .. } => "node_upgrade_required",
        }
    }

    /// User-facing text with an actionable hint.
    pub fn user_message(&self) -> (r: String)
        ensures
            r@ == user_message_spec(self@),
    {
        match self {
            LauncherError::StateCorrupt { .. } => String::from_str(
                "状态文件损坏。请在设置中导出诊断信息后重置应用数据。",
            ),
            LauncherError::UnsupportedSchemaVersion(_) => String::from_str(
                "状态文件由更高版本写入，无法识别。请升级启动器后再试。",
            ),
            LauncherError::StateMigration { .. } => String::from_str(
                "状态迁移失败。请导出诊断信息并重置应用数据。",
            ),
            LauncherError::Io(m) => cat3(
                "系统 IO 错误：",
                m.as_str(),
                "。请检查磁盘权限与剩余空间后重试。",
            ),
            LauncherError::Serialization(_) => String::from_str(
                "数据解析失败。请重试，若持续失败请导出诊断信息。",
            ),
            LauncherError::PathResolve { .. } => String::from_str(
                "无法解析用户目录。请检查 HOME 环境变量是否设置。",
            ),
            LauncherError::LoggingInit(_) => String::from_str(
                "日志初始化失败。请检查日志目录写权限。",
            ),
            LauncherError::Host(m) => host_user_message(m.as_str()),
            LauncherError::Mirror(m) => mirror_user_message(m.as_str()),
            LauncherError::NodeVersion(m) => cat3(
                "Node 版本不满足要求（",
                m.as_str(),
                "）。已保留当前 dsh 版本，请在运行时更新后重试。",
            ),
            LauncherError::NodeDownload(m) => node_download_user_message(m.as_str()),
            LauncherError::NodeInstallCancelled { .. } => String::from_str(
                "已取消 Node 运行时下载。你可以随时重新开始安装。",
            ),
            LauncherError::DshRegistry(m) => {
                let m = m.as_str();
                if str_contains(m, "connect") || str_contains(m, "timeout") || str_contains(
                    m,
                    "dns",
                ) {
                    String::from_str("无法连接网络。请检查网络连接或镜像源设置后重试。")
                } else {
                    String::from_str("查询 dsh 版本信息失败。请稍后重试，或检查 registry 地址。")
                }
            },
            LauncherError::DshInstall(m) => {
                let m = m.as_str();
                if str_contains(m, "integrity") || str_contains(m, "sha") {
                    String::from_str("dsh 安装包完整性校验失败。请重试，若持续失败请更换镜像源。")
                } else {
                    String::from_str("dsh 安装失败。请重试，若持续失败请导出诊断信息。")
                }
            },
            LauncherError::DshVersion(m) => {
                if str_contains(m.as_str(), "no known_good") {
                    String::from_str("没有可回滚的稳定版本。请重新安装 dsh。")
                } else {
                    String::from_str("dsh 版本切换失败。请重试。")
                }
            },
            LauncherError::DshCli(m) => {
                if str_contains(m.as_str(), "already exists") {
                    String::from_str("目标位置已有其他 dsh 命令。为避免覆盖它，启动器没有做任何修改。")
                } else {
                    String::from_str("无法安装 dsh 命令。请检查用户目录写权限后重试。")
                }
            },
            LauncherError::DshPlugin(m) => {
                let m = m.as_str();
                if str_contains(m, "expected:") {
                    String::from_str(
                        "仅支持单条安装或卸载命令：dsh plugin --profile <profile> add|remove <source>。",
                    )
                } else if str_contains(m, "timed out") {
                    String::from_str("插件操作超时。请检查网络后重试，或在 dsh 中确认当前状态。")
                } else {
                    String::from_str("插件操作失败。请检查来源与 profile 后重试；详情已写入应用日志。")
                }
            },
            LauncherError::Theme(_) => String::from_str("主题设置无效。请选择浅色或黑白主题。"),
            LauncherError::DshNotInstalled { .. } => String::from_str(
                "dsh 尚未安装。请完成首次启动向导。",
            ),
            LauncherError::NodeNotInstalled { .. } => String::from_str(
                "Node 运行时尚未安装。请完成首次启动向导。",
            ),
            LauncherError::NodeUpgradeRequired {
                dsh_version,
                current_node,
                engines_node,
                suggested_node,
            } => {
                let mut r = cat3("dsh ", dsh_version.as_str(), " 需要 Node ");
                r.append(engines_node.as_str());
                r.append("，当前为 ");
                r.append(current_node.as_str());
                r.append("。确认后将下载 Node ");
                r.append(suggested_node.as_str());
                r.append(" 并继续更新。");
                r
            },
        }
    }

    /// The structured context for the frontend, for the kinds that have one.
    pub fn data(&self) -> (r: Option<Vec<(String, ErrorDatum)>>)
        ensures
            match data_spec(self@) {
                Some(d) => r matches Some(v) && data_view(v) == d,
                None => r is None,
            },
    {
        let mut v: Vec<(String, ErrorDatum)> = Vec::new();
        match self {
            LauncherError::StateCorrupt { path, .. } => {
                v.push(text_datum("path", path.as_str()));
            },
            LauncherError::UnsupportedSchemaVersion(version) => {
                v.push((String::from_str("version"), ErrorDatum::Number(*version as u64)));
                v.push(
                    (
                        String::from_str("expected"),
                        ErrorDatum::Number(EXPECTED_SCHEMA_VERSION as u64),
                    ),
                );
            },
            LauncherError::StateMigration { step, .. } => {
                v.push(text_datum("step", step.as_str()));
            },
            LauncherError::PathResolve { what, .. } => {
                v.push(text_datum("what", what.as_str()));
            },
            LauncherError::DshNotInstalled { reason } => {
                v.push(text_datum("what", "dsh"));
                v.push(text_datum("reason", reason.as_str()));
            },
            LauncherError::NodeNotInstalled { reason } => {
                v.push(text_datum("what", "node"));
                v.push(text_datum("reason", reason.as_str()));
            },
            LauncherError::NodeUpgradeRequired {
                dsh_version,
                current_node,
                engines_node,
                suggested_node,
            } => {
                v.push(text_datum("dsh_version", dsh_version.as_str()));
                v.push(text_datum("current_node", current_node.as_str()));
                v.push(text_datum("engines_node", engines_node.as_str()));
                v.push(text_datum("suggested_node", suggested_node.as_str()));
            },
            _ => {
                return None;
            },
        }
        assert(data_view(v) =~= data_spec(self@)->0);
        Some(v)
    }
}

/// What the frontend receives for an error.
#[derive(Debug, Clone, PartialEq, Eq)]
pub struct SerializableError {
    pub kind: &'static str,
    pub message: String,
    pub user_message: String,
    pub data: Option<Vec<(String, ErrorDatum)>>,
}

impl LauncherError {
    /// The error as the frontend receives it.
    pub fn to_serializable(&self) -> (r: SerializableError)
        ensures
            r.kind@ == kind_spec(self@),
            r.message@ == message_spec(self@),
            r.user_message@ == user_message_spec(self@),
            match data_spec(self@) {
                Some(d) => r.data matches Some(v) && data_view(v) == d,
                None => r.data is None,
            },
    {
        SerializableError {
            kind: self.kind_str(),
            message: self.message(),
            user_message: self.user_message(),
            data: self.data(),
        }
    }
}

} // verus!
