use mpigdb::launch::{host_port_text, Frontend, LaunchSpec, ProcessGroup};
use mpigdb::text::{decimal_text, parse_usize, same_text, starts_with_text};

fn args(items: &[&str]) -> Vec<String> {
    items.iter().map(|s| s.to_string()).collect()
}

fn two_groups(verbose: bool) -> LaunchSpec {
    LaunchSpec {
        groups: vec![
            ProcessGroup { replicas: 2, launcher_args: args(&["--host", "a"]), program_args: args(&["progA"]) },
            ProcessGroup { replicas: 1, launcher_args: vec![], program_args: args(&["progB", "y"]) },
        ],
        global_launcher_args: args(&["-g"]),
        debugger_args: vec![],
        base_port: 8000,
        helper: "helper".to_string(),
        stub: "gdbserver".to_string(),
        debugger: "gdb".to_string(),
        frontend: Frontend::Gdb,
        dry_run: true,
        verbose,
    }
}

#[test]
fn launcher_command_line_is_exact() {
    let spec = two_groups(false);
    let got = spec.launcher_args("ctl:8000");
    let want = args(&[
        "-g",
        "-np", "1", "--host", "a", "helper", "ctl:8000", "8001", "0", "gdbserver", "progA",
        ":",
        "-np", "1", "--host", "a", "helper", "ctl:8000", "8002", "0", "gdbserver", "progA",
        ":",
        "-np", "1", "helper", "ctl:8000", "8003", "0", "gdbserver", "progB", "y",
    ]);
    assert_eq!(got, want);
}

#[test]
fn verbose_helpers_are_told_so() {
    let got = two_groups(true).launcher_args("c:1");
    assert_eq!(got[8], "1");
}

#[test]
fn each_rank_gets_its_own_port() {
    let spec = two_groups(false);
    let got = spec.launcher_args("ctl:8000");
    let ports: Vec<&String> = got.iter().enumerate().filter(|(i, _)| *i > 0 && got[i - 1] == "ctl:8000").map(|(_, s)| s).collect();
    assert_eq!(ports, vec!["8001", "8002", "8003"]);
    assert_eq!(spec.total_ranks(), 3);
}

#[test]
fn single_rank_has_no_separator() {
    let mut spec = two_groups(false);
    spec.groups.truncate(1);
    spec.groups[0].replicas = 1;
    spec.global_launcher_args.clear();
    let got = spec.launcher_args("c:7");
    assert!(!got.iter().any(|a| a == ":"));
    assert_eq!(got, ["-np", "1", "--host", "a", "helper", "c:7", "8001", "0", "gdbserver", "progA"]);
}

#[test]
fn programs_follow_launch_order() {
    assert_eq!(two_groups(false).rank_programs(), args(&["progA", "progA", "progB"]));
}

#[test]
fn host_port_is_joined_by_colon() {
    assert_eq!(host_port_text("node1", 8000), "node1:8000");
}

#[test]
fn decimal_text_writes_numbers() {
    assert_eq!(decimal_text(0), "0");
    assert_eq!(decimal_text(7), "7");
    assert_eq!(decimal_text(10), "10");
    assert_eq!(decimal_text(65535), "65535");
    assert_eq!(decimal_text(usize::MAX), usize::MAX.to_string());
}

#[test]
fn parse_usize_reads_numerals() {
    assert_eq!(parse_usize("0"), Some(0));
    assert_eq!(parse_usize("+42"), Some(42));
    assert_eq!(parse_usize("007"), Some(7));
    assert_eq!(parse_usize(""), None);
    assert_eq!(parse_usize("+"), None);
    assert_eq!(parse_usize("-1"), None);
    assert_eq!(parse_usize("1x"), None);
    assert_eq!(parse_usize(&usize::MAX.to_string()), Some(usize::MAX));
    assert_eq!(parse_usize("18446744073709551616"), None);
    assert_eq!(parse_usize("99999999999999999999999x"), None);
}

#[test]
fn text_comparisons() {
    assert!(same_text("--", "--"));
    assert!(!same_text("--", "-"));
    assert!(starts_with_text("--tty=/dev/x", "--tty="));
    assert!(!starts_with_text("--tt", "--tty="));
}
