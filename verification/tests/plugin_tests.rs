use aptos_script_compose::plugin_tools::{
    aptos_script_compose_install_hint, aptos_tracer_install_hint, discover_aptos_script_compose,
    discover_aptos_tracer, discover_move_decompiler, doctor_aptos_script_compose,
    doctor_aptos_tracer, doctor_move_decompiler, move_decompiler_install_hint,
    resolve_aptos_script_compose, resolve_aptos_tracer, resolve_aptos_tracer_bin,
    resolve_move_decompiler, run_move_decompiler, DiscoveryResult, DoctorCheck,
    PluginDoctorReport, PluginError, PluginStatus, RunError,
};

fn status(installed: bool, path: Option<&str>) -> PluginStatus {
    PluginStatus {
        name: "tool".to_owned(),
        description: "a tool".to_owned(),
        installed,
        binary_path: path.map(|p| p.to_owned()),
        source: None,
    }
}

fn check(name: &str, ok: bool, message: &str) -> DoctorCheck {
    DoctorCheck { name: name.to_owned(), ok, message: message.to_owned() }
}

#[test]
fn explicit_binary_wins_over_the_search_path() {
    let found = resolve_move_decompiler(Some("/opt/md"), Some("/usr/bin/move-decompiler".to_owned()));
    assert_eq!(
        found,
        DiscoveryResult {
            path: Some("/opt/md".to_owned()),
            source: Some("flag:--decompiler-bin".to_owned()),
        }
    );
    assert_eq!(
        resolve_aptos_tracer(Some("t"), None).source,
        Some("flag:--tracer-bin".to_owned())
    );
    assert_eq!(
        resolve_aptos_script_compose(Some("c"), None).source,
        Some("flag:--script-compose-bin".to_owned())
    );
}

#[test]
fn blank_explicit_binary_falls_back_to_the_search_path() {
    for explicit in [None, Some(""), Some("  \t\n")] {
        assert_eq!(
            resolve_aptos_tracer(explicit, Some("/usr/bin/aptos-tracer".to_owned())),
            DiscoveryResult {
                path: Some("/usr/bin/aptos-tracer".to_owned()),
                source: Some("PATH".to_owned()),
            }
        );
        assert_eq!(
            resolve_aptos_script_compose(explicit, None),
            DiscoveryResult { path: None, source: None }
        );
    }
}

#[test]
fn discovers_plugins() {
    let found = discover_move_decompiler(None, Some("/bin/md".to_owned()), true);
    assert_eq!(
        found,
        PluginStatus {
            name: "move-decompiler".to_owned(),
            description:
                "Optional Aptos Move decompiler plugin backed by aptos-core third_party toolchain"
                    .to_owned(),
            installed: true,
            binary_path: Some("/bin/md".to_owned()),
            source: Some("PATH".to_owned()),
        }
    );
    let missing = discover_aptos_tracer(Some("/nowhere"), None, false);
    assert_eq!(missing.name, "aptos-tracer");
    assert_eq!(
        missing.description,
        "Optional Aptos transaction tracer plugin backed by sentio aptos-core"
    );
    assert!(!missing.installed);
    assert_eq!(missing.binary_path, Some("/nowhere".to_owned()));
    let absent = discover_aptos_script_compose(None, None, true);
    assert_eq!(absent.name, "aptos-script-compose");
    assert_eq!(
        absent.description,
        "Optional Aptos script composer plugin for batched call bytecode generation"
    );
    assert!(!absent.installed);
    assert_eq!(absent.binary_path, None);
    assert_eq!(absent.source, None);
}

#[test]
fn install_hints_are_line_lists() {
    assert_eq!(
        move_decompiler_install_hint(),
        [
            "Install move-decompiler from aptos-core and put it on PATH (or pass --decompiler-bin):",
            "  git clone https://github.com/aptos-labs/aptos-core",
            "  cd aptos-core",
            "  cargo build -p move-decompiler --release",
            "  export PATH=$PWD/target/release:$PATH",
            "or pass --decompiler-bin /path/to/move-decompiler",
        ]
        .join("\n")
    );
    assert_eq!(
        aptos_tracer_install_hint(),
        [
            "Install aptos-tracer from sentio aptos-core and put it on PATH:",
            "  git clone --branch sentio/dev-2026-0210 https://github.com/sentioxyz/aptos-core.git",
            "  cd aptos-core",
            "  cargo build --locked --profile cli -p aptos-tracer",
            "  export PATH=$PWD/target/cli:$PATH",
            "or run `aptly tx trace <tx_version_or_hash> --local-tracer /path/to/aptos-tracer`",
        ]
        .join("\n")
    );
    assert_eq!(
        aptos_script_compose_install_hint(),
        [
            "Install aptos-script-compose from aptly and put it on PATH (or pass --script-compose-bin):",
            "  cargo build -p aptos-script-compose --release",
            "  export PATH=$PWD/target/release:$PATH",
            "or pass --script-compose-bin /path/to/aptos-script-compose",
        ]
        .join("\n")
    );
}

#[test]
fn tracer_binary_must_exist() {
    assert_eq!(resolve_aptos_tracer_bin(Some("/opt/t"), None, true), Ok("/opt/t".to_owned()));
    assert_eq!(
        resolve_aptos_tracer_bin(Some("/opt/t"), None, false),
        Err(PluginError::MissingBinary { path: "/opt/t".to_owned() })
    );
    assert_eq!(
        resolve_aptos_tracer_bin(Some(" "), None, true),
        Err(PluginError::NotInstalled { install_hint: aptos_tracer_install_hint() })
    );
}

#[test]
fn decompiler_run_needs_binary_and_arguments() {
    let args = vec!["--help".to_owned()];
    assert_eq!(run_move_decompiler(Some("/opt/md"), None, &args), Ok("/opt/md".to_owned()));
    assert_eq!(run_move_decompiler(Some("/opt/md"), None, &[]), Err(RunError::MissingArguments));
    assert_eq!(
        run_move_decompiler(None, None, &args),
        Err(RunError::NotInstalled { install_hint: move_decompiler_install_hint() })
    );
}

#[test]
fn healthy_plugin_gets_three_passing_checks_and_no_hint() {
    let plugin = status(true, Some("/bin/md"));
    let report = doctor_move_decompiler(plugin.clone(), true, true);
    assert_eq!(
        report,
        PluginDoctorReport {
            plugin,
            checks: vec![
                check("binary_discovered", true, "Found move-decompiler at /bin/md"),
                check("binary_executable", true, "Binary is executable"),
                check("binary_runnable", true, "move-decompiler responds to --help"),
            ],
            install_hint: None,
        }
    );
    assert!(report.all_ok());
}

#[test]
fn failing_checks_bring_the_install_hint() {
    let report = doctor_aptos_tracer(status(false, Some("/bin/t")), false, false);
    assert_eq!(
        report.checks,
        vec![
            check("binary_discovered", false, "aptos-tracer binary not found"),
            check("binary_executable", false, "Binary exists but is not executable"),
            check("binary_runnable", false, "Failed to run aptos-tracer --help"),
        ]
    );
    assert_eq!(report.install_hint, Some(aptos_tracer_install_hint()));
    assert!(!report.all_ok());
    let partly = doctor_aptos_script_compose(status(true, Some("/bin/c")), true, false);
    assert_eq!(partly.install_hint, Some(aptos_script_compose_install_hint()));
    assert_eq!(partly.checks[0].message, "Found aptos-script-compose at /bin/c");
    assert!(!partly.all_ok());
}

#[test]
fn unknown_path_gives_one_check() {
    let report = doctor_move_decompiler(status(false, None), true, true);
    assert_eq!(
        report.checks,
        vec![check("binary_discovered", false, "move-decompiler binary not found")]
    );
    assert_eq!(report.install_hint, Some(move_decompiler_install_hint()));
}

#[test]
fn report_without_checks_is_all_ok() {
    let report = PluginDoctorReport { plugin: status(false, None), checks: vec![], install_hint: None };
    assert!(report.all_ok());
}
