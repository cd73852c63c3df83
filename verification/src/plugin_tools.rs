//! Discovery and health reports for the optional helper programs
//! (decompiler, tracer, script composer). The file system and the search
//! path are consulted by the caller; the rules over what was found are here.

use vstd::prelude::*;
use vstd::string::StringExecFns;
use crate::text::{is_blank, is_blank_str};

verus! {

/// What is known about one helper program.
#[derive(Debug, Clone, PartialEq, Eq)]
pub struct PluginStatus {
    pub name: String,
    pub description: String,
    pub installed: bool,
    pub binary_path: Option<String>,
    pub source: Option<String>,
}

/// One line of a health report.
#[derive(Debug, Clone, PartialEq, Eq)]
pub struct DoctorCheck {
    pub name: String,
    pub ok: bool,
    pub message: String,
}

/// The health report of one helper program.
#[derive(Debug, Clone, PartialEq, Eq)]
pub struct PluginDoctorReport {
    pub plugin: PluginStatus,
    pub checks: Vec<DoctorCheck>,
    pub install_hint: Option<String>,
}

/// Where a helper program was found, and by which means.
#[derive(Debug, Clone, PartialEq, Eq)]
pub struct DiscoveryResult {
    pub path: Option<String>,
    pub source: Option<String>,
}

/// Why no usable tracer binary could be named.
#[derive(Debug, Clone, PartialEq, Eq)]
pub enum PluginError {
    /// Neither an explicit path nor the search path gave a binary.
    NotInstalled { install_hint: String },
    /// A path was resolved but no file is there.
    MissingBinary { path: String },
}

/// Why the decompiler cannot be run.
#[derive(Debug, Clone, PartialEq, Eq)]
pub enum RunError {
    /// Neither an explicit path nor the search path gave a binary.
    NotInstalled { install_hint: String },
    /// No arguments were given for the decompiler.
    MissingArguments,
}

/// The mathematical content of a check.
pub struct DoctorCheckView {
    pub name: Seq<char>,
    pub ok: bool,
    pub message: Seq<char>,
}

impl View for DoctorCheck {
    type V = DoctorCheckView;

    open spec fn view(&self) -> DoctorCheckView {
        DoctorCheckView { name: self.name@, ok: self.ok, message: self.message@ }
    }
}

/// The text of an optional string.
pub open spec fn opt_text(value: Option<String>) -> Option<Seq<char>> {
    match value {
        Some(s) => Some(s@),
        None => None,
    }
}

/// The contents of a list of checks.
pub open spec fn check_views(checks: Seq<DoctorCheck>) -> Seq<DoctorCheckView> {
    Seq::new(checks.len(), |i: int| checks[i]@)
}

/// Whether every check of the list passed.
pub open spec fn all_checks_ok(checks: Seq<DoctorCheck>) -> bool {
    forall|i: int| 0 <= i < checks.len() ==> (#[trigger] checks[i]).ok
}

/// An explicit path counts when it is given and not blank.
pub open spec fn explicit_path_given(explicit_bin: Option<Seq<char>>) -> bool {
    explicit_bin matches Some(bin) && !is_blank(bin)
}

/// The path chosen for a helper program: the explicit one when given,
/// else the one found on the search path, else none.
pub open spec fn discovered_path(
    explicit_bin: Option<Seq<char>>,
    on_path: Option<Seq<char>>,
) -> Option<Seq<char>> {
    if explicit_path_given(explicit_bin) {
        explicit_bin
    } else {
        on_path
    }
}

/// The means by which the chosen path was found.
pub open spec fn discovered_source(
    explicit_bin: Option<Seq<char>>,
    on_path: Option<Seq<char>>,
    flag_source: Seq<char>,
) -> Option<Seq<char>> {
    if explicit_path_given(explicit_bin) {
        Some(flag_source)
    } else if on_path is Some {
        Some("PATH"@)
    } else {
        None
    }
}

/// The text of an optional string slice.
pub open spec fn str_opt_text(value: Option<&str>) -> Option<Seq<char>> {
    match value {
        Some(s) => Some(s@),
        None => None,
    }
}

impl PluginDoctorReport {
    /// Whether every check of the report passed.
    pub fn all_ok(&self) -> (ok: bool)
        ensures
            ok == all_checks_ok(self.checks@),
    {
        all_passed(&self.checks)
    }
}

fn all_passed(checks: &Vec<DoctorCheck>) -> (ok: bool)
    ensures
        ok == all_checks_ok(checks@),
{
    let mut i: usize = 0;
    while i < checks.len()
        invariant
            i <= checks@.len(),
            forall|j: int| 0 <= j < i ==> (#[trigger] checks@[j]).ok,
        decreases checks@.len() - i,
    {
        if !checks[i].ok {
            return false;
        }
        i += 1;
    }
    true
}

fn resolve_binary(explicit_bin: Option<&str>, on_path: Option<String>, flag_source: &str) -> (found:
    DiscoveryResult)
    ensures
        opt_text(found.path) == discovered_path(str_opt_text(explicit_bin), opt_text(on_path)),
        opt_text(found.source) == discovered_source(
            str_opt_text(explicit_bin),
            opt_text(on_path),
            flag_source@,
        ),
{
    if let Some(bin) = explicit_bin {
        if !is_blank_str(bin) {
            return DiscoveryResult {
                path: Some(bin.to_owned()),
                source: Some(flag_source.to_owned()),
            };
        }
    }
    match on_path {
        Some(path) => DiscoveryResult { path: Some(path), source: Some("PATH".to_owned()) },
        None => DiscoveryResult { path: None, source: None },
    }
}

/// Chooses the decompiler binary: `explicit_bin` when it is not blank, else
/// `on_path`, the binary that a search of `PATH` gave.
pub fn resolve_move_decompiler(explicit_bin: Option<&str>, on_path: Option<String>) -> (found:
    DiscoveryResult)
    ensures
        opt_text(found.path) == discovered_path(str_opt_text(explicit_bin), opt_text(on_path)),
        opt_text(found.source) == discovered_source(
            str_opt_text(explicit_bin),
            opt_text(on_path),
            "flag:--decompiler-bin"@,
        ),
{
    resolve_binary(explicit_bin, on_path, "flag:--decompiler-bin")
}

/// Chooses the tracer binary: `explicit_bin` when it is not blank, else
/// `on_path`, the binary that a search of `PATH` gave.
pub fn resolve_aptos_tracer(explicit_bin: Option<&str>, on_path: Option<String>) -> (found:
    DiscoveryResult)
    ensures
        opt_text(found.path) == discovered_path(str_opt_text(explicit_bin), opt_text(on_path)),
        opt_text(found.source) == discovered_source(
            str_opt_text(explicit_bin),
            opt_text(on_path),
            "flag:--tracer-bin"@,
        ),
{
    resolve_binary(explicit_bin, on_path, "flag:--tracer-bin")
}

/// Chooses the script composer binary: `explicit_bin` when it is not blank,
/// else `on_path`, the binary that a search of `PATH` gave.
pub fn resolve_aptos_script_compose(explicit_bin: Option<&str>, on_path: Option<String>) -> (found:
    DiscoveryResult)
    ensures
        opt_text(found.path) == discovered_path(str_opt_text(explicit_bin), opt_text(on_path)),
        opt_text(found.source) == discovered_source(
            str_opt_text(explicit_bin),
            opt_text(on_path),
            "flag:--script-compose-bin"@,
        ),
{
    resolve_binary(explicit_bin, on_path, "flag:--script-compose-bin")
}

fn plugin_status(name: &str, description: &str, found: DiscoveryResult, is_file: bool) -> (status:
    PluginStatus)
    ensures
        status.name@ == name@,
        status.description@ == description@,
        status.installed == (found.path is Some && is_file),
        status.binary_path == found.path,
        status.source == found.source,
{
    let installed = found.path.is_some() && is_file;
    PluginStatus {
        name: name.to_owned(),
        description: description.to_owned(),
        installed,
        binary_path: found.path,
        source: found.source,
    }
}

/// The status of the decompiler. `on_path` is what a search of `PATH` gave
/// and `is_file` says whether a file exists at the chosen path.
pub fn discover_move_decompiler(
    explicit_bin: Option<&str>,
    on_path: Option<String>,
    is_file: bool,
) -> (status: PluginStatus)
    ensures
        status.name@ == "move-decompiler"@,
        status.description@
            == "Optional Aptos Move decompiler plugin backed by aptos-core third_party toolchain"@,
        opt_text(status.binary_path) == discovered_path(
            str_opt_text(explicit_bin),
            opt_text(on_path),
        ),
        opt_text(status.source) == discovered_source(
            str_opt_text(explicit_bin),
            opt_text(on_path),
            "flag:--decompiler-bin"@,
        ),
        status.installed == (status.binary_path is Some && is_file),
{
    let found = resolve_move_decompiler(explicit_bin, on_path);
    plugin_status(
        "move-decompiler",
        "Optional Aptos Move decompiler plugin backed by aptos-core third_party toolchain",
        found,
        is_file,
    )
}

/// The status of the tracer. `on_path` is what a search of `PATH` gave and
/// `is_file` says whether a file exists at the chosen path.
pub fn discover_aptos_tracer(
    explicit_bin: Option<&str>,
    on_path: Option<String>,
    is_file: bool,
) -> (status: PluginStatus)
    ensures
        status.name@ == "aptos-tracer"@,
        status.description@
            == "Optional Aptos transaction tracer plugin backed by sentio aptos-core"@,
        opt_text(status.binary_path) == discovered_path(
            str_opt_text(explicit_bin),
            opt_text(on_path),
        ),
        opt_text(status.source) == discovered_source(
            str_opt_text(explicit_bin),
            opt_text(on_path),
            "flag:--tracer-bin"@,
        ),
        status.installed == (status.binary_path is Some && is_file),
{
    let found = resolve_aptos_tracer(explicit_bin, on_path);
    plugin_status(
        "aptos-tracer",
        "Optional Aptos transaction tracer plugin backed by sentio aptos-core",
        found,
        is_file,
    )
}

/// The status of the script composer. `on_path` is what a search of `PATH`
/// gave and `is_file` says whether a file exists at the chosen path.
pub fn discover_aptos_script_compose(
    explicit_bin: Option<&str>,
    on_path: Option<String>,
    is_file: bool,
) -> (status: PluginStatus)
    ensures
        status.name@ == "aptos-script-compose"@,
        status.description@
            == "Optional Aptos script composer plugin for batched call bytecode generation"@,
        opt_text(status.binary_path) == discovered_path(
            str_opt_text(explicit_bin),
            opt_text(on_path),
        ),
        opt_text(status.source) == discovered_source(
            str_opt_text(explicit_bin),
            opt_text(on_path),
            "flag:--script-compose-bin"@,
        ),
        status.installed == (status.binary_path is Some && is_file),
{
    let found = resolve_aptos_script_compose(explicit_bin, on_path);
    plugin_status(
        "aptos-script-compose",
        "Optional Aptos script composer plugin for batched call bytecode generation",
        found,
        is_file,
    )
}

/// How to install the decompiler, one instruction per line.
pub const MOVE_DECOMPILER_INSTALL_HINT: &'static str =
    "Install move-decompiler from aptos-core and put it on PATH (or pass --decompiler-bin):\n  git clone https://github.com/aptos-labs/aptos-core\n  cd aptos-core\n  cargo build -p move-decompiler --release\n  export PATH=$PWD/target/release:$PATH\nor pass --decompiler-bin /path/to/move-decompiler";

/// How to install the tracer, one instruction per line.
pub const APTOS_TRACER_INSTALL_HINT: &'static str =
    "Install aptos-tracer from sentio aptos-core and put it on PATH:\n  git clone --branch sentio/dev-2026-0210 https://github.com/sentioxyz/aptos-core.git\n  cd aptos-core\n  cargo build --locked --profile cli -p aptos-tracer\n  export PATH=$PWD/target/cli:$PATH\nor run `aptly tx trace <tx_version_or_hash> --local-tracer /path/to/aptos-tracer`";

/// How to install the script composer, one instruction per line.
pub const APTOS_SCRIPT_COMPOSE_INSTALL_HINT: &'static str =
    "Install aptos-script-compose from aptly and put it on PATH (or pass --script-compose-bin):\n  cargo build -p aptos-script-compose --release\n  export PATH=$PWD/target/release:$PATH\nor pass --script-compose-bin /path/to/aptos-script-compose";

/// The text that tells how to install the decompiler.
pub open spec fn move_decompiler_install_hint_text() -> Seq<char> {
    MOVE_DECOMPILER_INSTALL_HINT@
}

/// The text that tells how to install the tracer.
pub open spec fn aptos_tracer_install_hint_text() -> Seq<char> {
    APTOS_TRACER_INSTALL_HINT@
}

/// The text that tells how to install the script composer.
pub open spec fn aptos_script_compose_install_hint_text() -> Seq<char> {
    APTOS_SCRIPT_COMPOSE_INSTALL_HINT@
}

/// How to install the decompiler, one instruction per line.
pub fn move_decompiler_install_hint() -> (hint: String)
    ensures
        hint@ == move_decompiler_install_hint_text(),
{
    MOVE_DECOMPILER_INSTALL_HINT.to_owned()
}

/// How to install the tracer, one instruction per line.
pub fn aptos_tracer_install_hint() -> (hint: String)
    ensures
        hint@ == aptos_tracer_install_hint_text(),
{
    APTOS_TRACER_INSTALL_HINT.to_owned()
}

/// How to install the script composer, one instruction per line.
pub fn aptos_script_compose_install_hint() -> (hint: String)
    ensures
        hint@ == aptos_script_compose_install_hint_text(),
{
    APTOS_SCRIPT_COMPOSE_INSTALL_HINT.to_owned()
}

/// Names the tracer binary to run. Fails when none was found, with the
/// install hint, and when the chosen path holds no file, with that path.
pub fn resolve_aptos_tracer_bin(
    explicit_bin: Option<&str>,
    on_path: Option<String>,
    is_file: bool,
) -> (bin: Result<String, PluginError>)
    ensures
        match discovered_path(str_opt_text(explicit_bin), opt_text(on_path)) {
            None => bin matches Err(PluginError::NotInstalled { install_hint })
                && install_hint@ == aptos_tracer_install_hint_text(),
            Some(path) => if is_file {
                bin matches Ok(chosen) && chosen@ == path
            } else {
                bin matches Err(PluginError::MissingBinary { path: missing }) && missing@ == path
            },
        },
{
    let found = resolve_aptos_tracer(explicit_bin, on_path);
    match found.path {
        None => Err(PluginError::NotInstalled { install_hint: aptos_tracer_install_hint() }),
        Some(path) => {
            if is_file {
                Ok(path)
            } else {
                Err(PluginError::MissingBinary { path })
            }
        },
    }
}

/// The text of an optional path, empty where there is none.
pub open spec fn path_or_empty(path: Option<Seq<char>>) -> Seq<char> {
    match path {
        Some(p) => p,
        None => Seq::empty(),
    }
}

/// The check that says whether the binary of `tool` was found.
pub open spec fn discovered_check(
    tool: Seq<char>,
    installed: bool,
    path: Option<Seq<char>>,
) -> DoctorCheckView {
    DoctorCheckView {
        name: "binary_discovered"@,
        ok: installed,
        message: if installed {
            "Found "@ + tool + " at "@ + path_or_empty(path)
        } else {
            tool + " binary not found"@
        },
    }
}

/// The check that says whether the binary may be executed.
pub open spec fn executable_check(executable: bool) -> DoctorCheckView {
    DoctorCheckView {
        name: "binary_executable"@,
        ok: executable,
        message: if executable {
            "Binary is executable"@
        } else {
            "Binary exists but is not executable"@
        },
    }
}

/// The check that says whether the binary of `tool` answers `--help`.
pub open spec fn runnable_check(tool: Seq<char>, runnable: bool) -> DoctorCheckView {
    DoctorCheckView {
        name: "binary_runnable"@,
        ok: runnable,
        message: if runnable {
            tool + " responds to --help"@
        } else {
            "Failed to run "@ + tool + " --help"@
        },
    }
}

/// The checks of a health report: whether the binary was found, and, where
/// a path is known, whether it may be executed and whether it runs.
pub open spec fn doctor_checks(
    tool: Seq<char>,
    installed: bool,
    path: Option<Seq<char>>,
    executable: bool,
    runnable: bool,
) -> Seq<DoctorCheckView> {
    if path is Some {
        seq![
            discovered_check(tool, installed, path),
            executable_check(executable),
            runnable_check(tool, runnable),
        ]
    } else {
        seq![discovered_check(tool, installed, path)]
    }
}

/// What the health report of `tool` must be.
pub open spec fn is_doctor_report(
    report: PluginDoctorReport,
    tool: Seq<char>,
    plugin: PluginStatus,
    executable: bool,
    runnable: bool,
    hint: Seq<char>,
) -> bool {
    &&& report.plugin == plugin
    &&& check_views(report.checks@) == doctor_checks(
        tool,
        plugin.installed,
        opt_text(plugin.binary_path),
        executable,
        runnable,
    )
    &&& opt_text(report.install_hint) == if all_checks_ok(report.checks@) {
        None
    } else {
        Some(hint)
    }
}

fn doctor_report(
    tool: &str,
    plugin: PluginStatus,
    executable: bool,
    runnable: bool,
    hint: String,
) -> (report: PluginDoctorReport)
    ensures
        is_doctor_report(report, tool@, plugin, executable, runnable, hint@),
{
    let mut checks: Vec<DoctorCheck> = Vec::new();
    let found_message = if plugin.installed {
        let mut message = "Found ".to_owned();
        message.append(tool);
        message.append(" at ");
        match &plugin.binary_path {
            Some(path) => {
                message.append(path.as_str());
            },
            None => {
                assert(message@ + Seq::<char>::empty() =~= message@);
            },
        }
        message
    } else {
        let mut message = tool.to_owned();
        message.append(" binary not found");
        message
    };
    checks.push(
        DoctorCheck {
            name: "binary_discovered".to_owned(),
            ok: plugin.installed,
            message: found_message,
        },
    );
    if plugin.binary_path.is_some() {
        let executable_message = if executable {
            "Binary is executable".to_owned()
        } else {
            "Binary exists but is not executable".to_owned()
        };
        checks.push(
            DoctorCheck {
                name: "binary_executable".to_owned(),
                ok: executable,
                message: executable_message,
            },
        );
        let runnable_message = if runnable {
            let mut message = tool.to_owned();
            message.append(" responds to --help");
            message
        } else {
            let mut message = "Failed to run ".to_owned();
            message.append(tool);
            message.append(" --help");
            message
        };
        checks.push(
            DoctorCheck {
                name: "binary_runnable".to_owned(),
                ok: runnable,
                message: runnable_message,
            },
        );
    }
    proof {
        assert(check_views(checks@) =~= doctor_checks(
            tool@,
            plugin.installed,
            opt_text(plugin.binary_path),
            executable,
            runnable,
        ));
    }
    let install_hint = if all_passed(&checks) {
        None
    } else {
        Some(hint)
    };
    PluginDoctorReport { plugin, checks, install_hint }
}

/// The health report of the decompiler. `plugin` is its status;
/// `executable` and `runnable` say what was found of the binary at its
/// path, and count only where a path is known.
pub fn doctor_move_decompiler(plugin: PluginStatus, executable: bool, runnable: bool) -> (report:
    PluginDoctorReport)
    ensures
        is_doctor_report(
            report,
            "move-decompiler"@,
            plugin,
            executable,
            runnable,
            move_decompiler_install_hint_text(),
        ),
{
    doctor_report("move-decompiler", plugin, executable, runnable, move_decompiler_install_hint())
}

/// The health report of the tracer. `plugin` is its status; `executable`
/// and `runnable` say what was found of the binary at its path, and count
/// only where a path is known.
pub fn doctor_aptos_tracer(plugin: PluginStatus, executable: bool, runnable: bool) -> (report:
    PluginDoctorReport)
    ensures
        is_doctor_report(
            report,
            "aptos-tracer"@,
            plugin,
            executable,
            runnable,
            aptos_tracer_install_hint_text(),
        ),
{
    doctor_report("aptos-tracer", plugin, executable, runnable, aptos_tracer_install_hint())
}

/// The health report of the script composer. `plugin` is its status;
/// `executable` and `runnable` say what was found of the binary at its
/// path, and count only where a path is known.
pub fn doctor_aptos_script_compose(
    plugin: PluginStatus,
    executable: bool,
    runnable: bool,
) -> (report: PluginDoctorReport)
    ensures
        is_doctor_report(
            report,
            "aptos-script-compose"@,
            plugin,
            executable,
            runnable,
            aptos_script_compose_install_hint_text(),
        ),
{
    doctor_report(
        "aptos-script-compose",
        plugin,
        executable,
        runnable,
        aptos_script_compose_install_hint(),
    )
}

/// What must be known before the decompiler is run with `args`.
pub open spec fn decompiler_run_check(
    path: Option<Seq<char>>,
    args: Seq<String>,
    out: Result<String, RunError>,
) -> bool {
    match path {
        None => out matches Err(RunError::NotInstalled { install_hint }) && install_hint@
            == move_decompiler_install_hint_text(),
        Some(p) => if args.len() == 0 {
            out matches Err(RunError::MissingArguments)
        } else {
            out matches Ok(chosen) && chosen@ == p
        },
    }
}

/// Names the decompiler binary to run with `args`. Fails when no binary
/// was found, with the install hint, and when there are no arguments.
pub fn run_move_decompiler(
    explicit_bin: Option<&str>,
    on_path: Option<String>,
    args: &[String],
) -> (out: Result<String, RunError>)
    ensures
        decompiler_run_check(
            discovered_path(str_opt_text(explicit_bin), opt_text(on_path)),
            args@,
            out,
        ),
{
    let found = resolve_move_decompiler(explicit_bin, on_path);
    match found.path {
        None => Err(RunError::NotInstalled { install_hint: move_decompiler_install_hint() }),
        Some(path) => {
            if args.len() == 0 {
                Err(RunError::MissingArguments)
            } else {
                Ok(path)
            }
        },
    }
}

/// Whether every check of every report passed.
pub open spec fn all_reports_ok(reports: Seq<PluginDoctorReport>) -> bool {
    forall|i: int| 0 <= i < reports.len() ==> all_checks_ok((#[trigger] reports[i]).checks@)
}

/// Whether the doctor found nothing wrong with any plugin.
pub fn doctor_found_no_issues(reports: &[PluginDoctorReport]) -> (ok: bool)
    ensures
        ok == all_reports_ok(reports@),
{
    let mut i: usize = 0;
    while i < reports.len()
        invariant
            i <= reports@.len(),
            forall|j: int| 0 <= j < i ==> all_checks_ok((#[trigger] reports@[j]).checks@),
        decreases reports@.len() - i,
    {
        if !reports[i].all_ok() {
            return false;
        }
        i += 1;
    }
    true
}

} // verus!
