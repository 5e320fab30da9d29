use mpigdb::helper::{local_control_address, report_record, stub_args, HelperArgs};
use mpigdb::launch::Frontend;
use mpigdb::orchestrate::{Action, Event, Orchestrator, Phase};
use mpigdb::rendezvous::EndpointCollector;

fn args(items: &[&str]) -> Vec<String> {
    items.iter().map(|s| s.to_string()).collect()
}

fn run(dry_run: bool, frontend: Frontend, events: &[Event]) -> Vec<Action> {
    let mut o = Orchestrator::new(dry_run, frontend);
    events.iter().map(|e| o.step(*e)).collect()
}

#[test]
fn collector_takes_exactly_the_expected_count() {
    let mut c = EndpointCollector::new(2);
    assert!(!c.is_complete());
    assert_eq!(c.remaining(), 2);
    assert!(c.offer("b:2\n".to_string()));
    assert!(!c.is_complete());
    assert!(c.offer("a:1\n".to_string()));
    assert!(c.is_complete());
    assert!(!c.offer("c:3\n".to_string()));
    assert_eq!(c.remaining(), 0);
    assert_eq!(c.into_endpoints(), args(&["b:2\n", "a:1\n"]));
}

#[test]
fn collector_for_none_is_complete() {
    let c = EndpointCollector::new(0);
    assert!(c.is_complete());
}

#[test]
fn full_gdb_session() {
    let got = run(
        false,
        Frontend::Gdb,
        &[Event::Begin, Event::ListenerBound, Event::LauncherSpawned, Event::EndpointsCollected, Event::ArtifactWritten],
    );
    assert_eq!(
        got,
        vec![Action::BindListener, Action::SpawnLauncher, Action::AwaitEndpoints, Action::WriteScript, Action::ExecDebugger]
    );
}

#[test]
fn full_ide_session() {
    let got = run(
        false,
        Frontend::VsCode,
        &[Event::Begin, Event::ListenerBound, Event::LauncherSpawned, Event::EndpointsCollected, Event::ArtifactWritten],
    );
    assert_eq!(got[3], Action::WriteDescriptor);
    assert_eq!(got[4], Action::ReportDescriptor);
}

#[test]
fn unbound_listener_never_spawns() {
    let got = run(false, Frontend::Gdb, &[Event::Begin, Event::ListenerFailed, Event::LauncherSpawned, Event::ListenerBound]);
    assert_eq!(got, vec![Action::BindListener, Action::Abort, Action::Abort, Action::Abort]);
    let early = run(false, Frontend::Gdb, &[Event::ListenerBound]);
    assert_eq!(early, vec![Action::Abort]);
}

#[test]
fn dry_run_touches_nothing() {
    let got = run(true, Frontend::Gdb, &[Event::Begin, Event::ListenerBound, Event::LauncherSpawned]);
    assert_eq!(got, vec![Action::Finish, Action::Finish, Action::Finish]);
    let mut o = Orchestrator::new(true, Frontend::VsCode);
    o.step(Event::Begin);
    assert_eq!(o.phase, Phase::Done);
}

#[test]
fn write_failure_aborts_before_handoff() {
    let got = run(
        false,
        Frontend::Gdb,
        &[Event::Begin, Event::ListenerBound, Event::LauncherSpawned, Event::EndpointsCollected, Event::ArtifactFailed],
    );
    assert_eq!(got[4], Action::Abort);
}

#[test]
fn helper_reads_its_command_line() {
    let h = HelperArgs::from_args(&args(&["mpigdb_helper", "ctl:8000", "8001", "1", "gdbserver", "./p", "x"])).unwrap();
    assert_eq!(h.control_address, "ctl:8000");
    assert_eq!(h.port, "8001");
    assert!(h.verbose);
    assert_eq!(h.stub, "gdbserver");
    assert_eq!(h.program_args, args(&["./p", "x"]));
    let quiet = HelperArgs::from_args(&args(&["h", "c", "1", "0", "s"])).unwrap();
    assert!(!quiet.verbose);
    assert!(quiet.program_args.is_empty());
    assert!(HelperArgs::from_args(&args(&["h", "c", "1", "0"])).is_none());
}

#[test]
fn helper_report_and_stub_command() {
    assert_eq!(report_record("node7", "8003"), "node7:8003\n");
    assert_eq!(stub_args("node7", "8003", &args(&["./p", "x"])), args(&["--once", "node7:8003", "./p", "x"]));
}

#[test]
fn machine_control_address_ends_with_port() {
    let h = HelperArgs::from_args(&args(&["h", "c:1", "8001", "0", "gdbserver", "./p"])).unwrap();
    if let Some(plan) = h.plan() {
        assert!(plan.record.ends_with(":8001\n"));
        assert!(plan.record.len() > ":8001\n".len());
        assert_eq!(plan.stub_args.len(), 3);
        assert_eq!(plan.stub_args[0], "--once");
        assert_eq!(format!("{}\n", plan.stub_args[1]), plan.record);
        assert_eq!(plan.stub_args[2], "./p");
    }
    if let Some(addr) = local_control_address(8123) {
        assert!(addr.ends_with(":8123"));
        assert!(addr.len() > ":8123".len());
    }
}
