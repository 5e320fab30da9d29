use mpigdb::artifact::{debugger_command_args, endpoint_of_record, startup_script, VscodeLaunchJson};
use mpigdb::launch::{Frontend, LaunchSpec, ProcessGroup};

fn args(items: &[&str]) -> Vec<String> {
    items.iter().map(|s| s.to_string()).collect()
}

fn spec_of(groups: &[(usize, &str)]) -> LaunchSpec {
    LaunchSpec {
        groups: groups
            .iter()
            .map(|(n, p)| ProcessGroup { replicas: *n, launcher_args: vec![], program_args: args(&[p]) })
            .collect(),
        global_launcher_args: vec![],
        debugger_args: args(&["-q"]),
        base_port: 9000,
        helper: "mpigdb_helper".to_string(),
        stub: "gdbserver".to_string(),
        debugger: "/usr/bin/gdb".to_string(),
        frontend: Frontend::VsCode,
        dry_run: false,
        verbose: false,
    }
}

const HEADER: &str = "\nset pagination off\nset non-stop on\nset sysroot /\nset exec-file-mismatch off\n\npython\nHELPERS\nend\n";

#[test]
fn record_newline_is_dropped() {
    assert_eq!(endpoint_of_record("h1:9001\n"), "h1:9001");
    assert_eq!(endpoint_of_record("h1:9001"), "h1:9001");
    assert_eq!(endpoint_of_record(""), "");
}

#[test]
fn script_for_one_endpoint() {
    let got = startup_script(&args(&["n:1\n"]), "HELPERS");
    assert_eq!(got, format!("{HEADER}\ntarget extended-remote n:1\n"));
}

#[test]
fn script_numbers_inferiors_from_two() {
    let got = startup_script(&args(&["a:1\n", "b:2\n", "c:3\n"]), "HELPERS");
    let want = format!(
        "{HEADER}\ntarget extended-remote a:1\n\nadd-inferior -no-connection\ninferior 2\ntarget extended-remote b:2\n\nadd-inferior -no-connection\ninferior 3\ntarget extended-remote c:3\n"
    );
    assert_eq!(got, want);
    assert_eq!(got.matches("target extended-remote").count(), 3);
    assert_eq!(got.matches("add-inferior").count(), 2);
}

#[test]
fn descriptor_has_one_configuration_per_endpoint() {
    let spec = spec_of(&[(3, "p")]);
    let hosts = args(&["a:1\n", "b:2\n", "c:3\n"]);
    let json = VscodeLaunchJson::new(&spec, &hosts);
    assert_eq!(json.version, "0.2.0");
    assert_eq!(json.configurations.len(), 3);
    assert_eq!(json.compounds.len(), 1);
    assert_eq!(json.compounds[0].name, "debug all ranks");
    assert_eq!(json.compounds[0].configurations, args(&["debug rank 0", "debug rank 1", "debug rank 2"]));
    let c = &json.configurations[2];
    assert_eq!(c.name, "debug rank 2");
    assert_eq!(c.mi_debugger_server_address, "c:3");
    assert_eq!(c.kind, "cppdbg");
    assert_eq!(c.request, "launch");
    assert_eq!(c.cwd, "${workspaceRoot}");
    assert_eq!(c.mi_mode, "gdb");
    assert_eq!(c.mi_debugger_path.as_deref(), Some("/usr/bin/gdb"));
    assert!(c.mi_debugger_args.is_none());
    assert!(c.external_console);
    assert!(!c.stop_at_entry);
    assert_eq!(c.setup_commands.len(), 1);
    assert_eq!(c.setup_commands[0].text, "-enable-pretty-printing");
    assert!(c.setup_commands[0].ignore_failures);
}

#[test]
fn round_trip_two_groups() {
    let records = args(&["h1:9001\n", "h2:9002\n"]);
    let spec = spec_of(&[(1, "progA"), (1, "progB")]);
    let script = startup_script(&records, "HELPERS");
    let tail = "\ntarget extended-remote h1:9001\n\nadd-inferior -no-connection\ninferior 2\ntarget extended-remote h2:9002\n";
    assert_eq!(script, format!("{HEADER}{tail}"));
    let json = VscodeLaunchJson::new(&spec, &records);
    assert_eq!(json.configurations.len(), 2);
    assert_eq!(json.configurations[0].program, "progA");
    assert_eq!(json.configurations[0].mi_debugger_server_address, "h1:9001");
    assert_eq!(json.configurations[1].program, "progB");
    assert_eq!(json.configurations[1].mi_debugger_server_address, "h2:9002");
}

#[test]
fn debugger_runs_the_script() {
    let spec = spec_of(&[(1, "p")]);
    assert_eq!(debugger_command_args(&spec), args(&["-x", ".startup.gdb", "-q"]));
}
