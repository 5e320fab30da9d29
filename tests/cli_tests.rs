use mpigdb::cli::{parse_args, ArgError, ParseOutcome};
use mpigdb::launch::{Frontend, LaunchSpec};

fn args(items: &[&str]) -> Vec<String> {
    items.iter().map(|s| s.to_string()).collect()
}

fn launch(items: &[&str]) -> LaunchSpec {
    match parse_args(&args(items)) {
        Ok(ParseOutcome::Launch(spec)) => spec,
        other => panic!("expected a launch, got {:?}", other),
    }
}

fn refusal(items: &[&str]) -> ArgError {
    match parse_args(&args(items)) {
        Err(e) => e,
        other => panic!("expected a refusal, got {:?}", other),
    }
}

#[test]
fn defaults_for_a_single_program() {
    let spec = launch(&["--", "./prog", "x"]);
    assert_eq!(spec.groups.len(), 1);
    assert_eq!(spec.groups[0].replicas, 1);
    assert!(spec.groups[0].launcher_args.is_empty());
    assert_eq!(spec.groups[0].program_args, args(&["./prog", "x"]));
    assert_eq!(spec.base_port, 8000);
    assert_eq!(spec.helper, "mpigdb_helper");
    assert_eq!(spec.stub, "gdbserver");
    assert_eq!(spec.debugger, "gdb");
    assert_eq!(spec.frontend, Frontend::Gdb);
    assert!(!spec.dry_run);
    assert!(!spec.verbose);
}

#[test]
fn groups_are_split_by_colon() {
    let spec = launch(&["-n", "2", "--host", "a", "--", "progA", ":", "-np", "3", "--", "progB", "y"]);
    assert_eq!(spec.groups.len(), 2);
    assert_eq!(spec.groups[0].replicas, 2);
    assert_eq!(spec.groups[0].launcher_args, args(&["--host", "a"]));
    assert_eq!(spec.groups[0].program_args, args(&["progA"]));
    assert_eq!(spec.groups[1].replicas, 3);
    assert!(spec.groups[1].launcher_args.is_empty());
    assert_eq!(spec.groups[1].program_args, args(&["progB", "y"]));
}

#[test]
fn own_flags_are_read() {
    let spec = launch(&[
        "--mpigdb_verbose",
        "--mpigdb_dryrun",
        "--mpigdb_port",
        "9000",
        "--mpigdb_helper",
        "/h",
        "--mpigdb_gdbserver",
        "/s",
        "--mpigdb_gdb",
        "/d",
        "--mpigdb_frontend",
        "vscode",
        "--mpigdb_mpi_flag",
        "-g",
        "--mpigdb_dbg_arg",
        "-q",
        "--interpreter=mi",
        "--tty=/dev/pts/1",
        "--",
        "p",
    ]);
    assert!(spec.verbose);
    assert!(spec.dry_run);
    assert_eq!(spec.base_port, 9000);
    assert_eq!(spec.helper, "/h");
    assert_eq!(spec.stub, "/s");
    assert_eq!(spec.debugger, "/d");
    assert_eq!(spec.frontend, Frontend::VsCode);
    assert_eq!(spec.global_launcher_args, args(&["-g"]));
    assert_eq!(spec.debugger_args, args(&["-q", "--interpreter=mi", "--tty=/dev/pts/1"]));
}

#[test]
fn help_is_asked_for() {
    assert!(matches!(parse_args(&args(&["-h"])), Ok(ParseOutcome::Help)));
    assert!(matches!(parse_args(&args(&["--help", "-n", "x"])), Ok(ParseOutcome::Help)));
}

#[test]
fn each_refusal_has_its_input() {
    assert_eq!(refusal(&["-n", "two", "--", "p"]), ArgError::InvalidCount);
    assert_eq!(refusal(&["--mpigdb_port", "-1", "--", "p"]), ArgError::InvalidPort);
    assert_eq!(refusal(&["--mpigdb_frontend", "lldb", "--", "p"]), ArgError::InvalidFrontend);
    assert_eq!(refusal(&["-n", "0", "--", "p"]), ArgError::NoReplicas);
    assert_eq!(refusal(&[]), ArgError::MissingProgram);
    assert_eq!(refusal(&["--", "p", ":"]), ArgError::MissingProgram);
    assert_eq!(refusal(&["--mpigdb_port", "65535", "--", "p"]), ArgError::PortOutOfRange);
}

#[test]
fn highest_port_is_accepted() {
    let spec = launch(&["-n", "2", "--mpigdb_port", "65533", "--", "p"]);
    assert_eq!(spec.base_port, 65533);
    assert_eq!(spec.total_ranks(), 2);
}
