use taskmaster::api::{ApiRequest, RequestError};
use taskmaster::config::{AutoRestartCondition, ProcessConfig, StopSignal};
use taskmaster::process::{ExitStatus, Process, ProcessState};
use taskmaster::server::{handle_client, Acceptor, Bridge, Reply, TunnelInput};
use taskmaster::supervisor::Supervisor;

fn config(name: &str, command: &str) -> ProcessConfig {
    let mut c = ProcessConfig::default();
    c.name = name.to_string();
    c.command = command.to_string();
    c
}

fn running(p: &mut Process, pid: i32) {
    assert!(p.spawn());
    assert!(p.forked(pid, 10, 11, 12));
    if p.get_state() == ProcessState::Starting {
        assert!(p.confirm_running(pid));
    }
    assert_eq!(p.get_state(), ProcessState::Running(pid));
}

#[test]
fn kill_stops_a_running_child_and_twice_is_a_no_op() {
    let mut p = Process::new(config("sleeper", "/bin/sleep 3600"));
    running(&mut p, 42);
    assert_eq!(p.kill(), Some((42, StopSignal::Term)));
    assert_eq!(p.get_state(), ProcessState::Stopping);
    assert_eq!(p.kill(), None);
    assert_eq!(p.get_state(), ProcessState::Stopping);
    let r = p.track_state(42, ExitStatus::Signaled(15));
    assert!(!r.respawn);
    assert_eq!(p.get_state(), ProcessState::Stopped);
    let mut closed = r.close.clone();
    closed.sort();
    assert_eq!(closed, vec![10, 11, 12]);
}

#[test]
fn kill_when_not_running_changes_nothing() {
    let mut p = Process::new(config("x", "/bin/true"));
    assert_eq!(p.kill(), None);
    assert_eq!(p.get_state(), ProcessState::Stopped);
}

#[test]
fn zero_retries_fail_straight_to_fatal() {
    let mut c = config("x", "/bin/false");
    c.start_retries = 0;
    let mut p = Process::new(c);
    assert!(p.spawn());
    assert!(!p.spawn_failed());
    assert_eq!(p.get_state(), ProcessState::Fatal);
    assert!(!p.spawn());
    assert!(p.reset());
    assert_eq!(p.get_state(), ProcessState::Stopped);
}

#[test]
fn zero_start_secs_runs_at_once() {
    let mut c = config("x", "/bin/cat");
    c.start_secs = 0;
    let mut p = Process::new(c);
    assert!(p.spawn());
    assert!(p.forked(7, 3, 4, 5));
    assert_eq!(p.get_state(), ProcessState::Running(7));
}

#[test]
fn start_secs_keep_starting_until_confirmed() {
    let mut p = Process::new(config("x", "/bin/cat"));
    assert!(p.spawn());
    assert!(p.forked(7, 3, 4, 5));
    assert_eq!(p.get_state(), ProcessState::Starting);
    assert!(!p.confirm_running(8));
    assert!(p.confirm_running(7));
    assert_eq!(p.get_state(), ProcessState::Running(7));
}

#[test]
fn unexpected_exit_codes_decide_restart() {
    let mut c = config("x", "/bin/sh -c \"exit 1\"");
    c.exit_codes = vec![0];
    c.auto_restart = AutoRestartCondition::Unexpected;
    let mut p = Process::new(c);
    running(&mut p, 9);
    let r = p.track_state(9, ExitStatus::Exited(1));
    assert!(r.respawn);
    assert_eq!(p.get_state(), ProcessState::Exited(1));
    assert!(p.spawn());
    assert!(p.forked(10, 3, 4, 5));
    assert!(p.confirm_running(10));
    let r = p.track_state(10, ExitStatus::Exited(0));
    assert!(!r.respawn);
    assert_eq!(p.get_state(), ProcessState::Stopped);
}

#[test]
fn restart_policies_true_and_false() {
    let mut c = config("x", "/bin/true");
    c.auto_restart = AutoRestartCondition::True;
    let mut p = Process::new(c);
    running(&mut p, 5);
    assert!(p.track_state(5, ExitStatus::Exited(0)).respawn);
    let mut c = config("y", "/bin/true");
    c.auto_restart = AutoRestartCondition::False;
    let mut q = Process::new(c);
    running(&mut q, 6);
    assert!(!q.track_state(6, ExitStatus::Exited(3)).respawn);
    assert_eq!(q.get_state(), ProcessState::Stopped);
}

#[test]
fn a_pid_is_reaped_once() {
    let mut p = Process::new(config("x", "/bin/true"));
    running(&mut p, 5);
    p.kill();
    let first = p.track_state(5, ExitStatus::Signaled(15));
    assert_eq!(first.close.len(), 3);
    let second = p.track_state(5, ExitStatus::Signaled(15));
    assert!(!second.respawn);
    assert_eq!(second.close.len(), 0);
    assert_eq!(p.get_state(), ProcessState::Stopped);
    assert_eq!(p.get_pid(), None);
}

#[test]
fn failed_starts_count_up_to_fatal() {
    let mut c = config("flapper", "/bin/sh -c \"exit 1\"");
    c.start_retries = 2;
    c.exit_codes = vec![0];
    let mut p = Process::new(c);
    assert!(p.spawn());
    assert!(p.forked(20, 3, 4, 5));
    let r = p.track_state(20, ExitStatus::Exited(1));
    assert!(r.respawn);
    assert_eq!(p.get_state(), ProcessState::Backoff);
    assert_eq!(p.get_fail_count(), 1);
    assert!(p.spawn());
    assert!(p.forked(21, 3, 4, 5));
    let r = p.track_state(21, ExitStatus::Exited(1));
    assert!(!r.respawn);
    assert_eq!(p.get_state(), ProcessState::Fatal);
    assert_eq!(p.get_fail_count(), 2);
}

#[test]
fn captured_output_only_grows() {
    let mut p = Process::new(config("x", "/bin/cat"));
    assert_eq!(p.read_stdout(b"ab"), 2);
    assert_eq!(p.read_stdout(b"c"), 3);
    assert_eq!(p.holder().get_stdout(), &b"abc".to_vec());
    assert_eq!(p.read_stderr(b"e"), 1);
    assert_eq!(p.holder().get_stderr(), &b"e".to_vec());
}

#[test]
fn argv_of_a_program() {
    let p = Process::new(config("x", "/bin/sh -c \"exit 1\""));
    assert_eq!(p.argv(), vec!["/bin/sh".to_string(), "-c".to_string(), "exit 1".to_string()]);
}

fn text(r: Reply) -> String {
    match r {
        Reply::Text(t) => t,
        _ => panic!("expected text"),
    }
}

#[test]
fn boot_and_status() {
    let mut sup = Supervisor::new(vec![config("sleep", "/bin/sleep 60")]);
    let p = sup.process_mut(0);
    assert!(p.spawn());
    assert!(p.forked(1234, 3, 4, 5));
    assert!(p.confirm_running(1234));
    let req = ApiRequest::from_str("[status]");
    assert_eq!(text(handle_client(&mut sup, &req)), "sleep Running(1234)\n");
}

#[test]
fn status_lists_every_program() {
    let mut sup = Supervisor::new(vec![config("a", "x"), config("b", "y")]);
    assert_eq!(sup.list_status(), "a Stopped\nb Stopped\n");
    sup.process_mut(1).read_stdout(b"out");
    assert_eq!(sup.drain_logs(), b"out".to_vec());
}

#[test]
fn flapper_ends_fatal() {
    let mut c = config("flapper", "/bin/sh -c \"exit 1\"");
    c.start_retries = 2;
    c.exit_codes = vec![0];
    let mut sup = Supervisor::new(vec![c]);
    let mut pid = 100;
    loop {
        let p = sup.process_mut(0);
        if !p.spawn() {
            break;
        }
        assert!(p.forked(pid, 3, 4, 5));
        if !p.track_state(pid, ExitStatus::Exited(1)).respawn {
            break;
        }
        pid += 1;
    }
    assert_eq!(sup.list_status(), "flapper Fatal\n");
}

#[test]
fn kill_request_then_status_shows_stopped() {
    let mut sup = Supervisor::new(vec![config("sleeper", "/bin/sleep 3600"), config("other", "x")]);
    running(sup.process_mut(0), 77);
    running(sup.process_mut(1), 78);
    let req = ApiRequest::from_str("[kill]target=sleeper");
    match handle_client(&mut sup, &req) {
        Reply::Signal(s) => assert_eq!(s, vec![(77, StopSignal::Term)]),
        _ => panic!("expected signals"),
    }
    sup.process_mut(0).track_state(77, ExitStatus::Signaled(15));
    assert_eq!(sup.list_status(), "sleeper Stopped\nother Running(78)\n");
    match handle_client(&mut sup, &ApiRequest::from_str("[kill]")) {
        Reply::Signal(s) => assert_eq!(s, vec![(78, StopSignal::Term)]),
        _ => panic!("expected signals"),
    }
}

#[test]
fn foreground_echo() {
    let mut sup = Supervisor::new(vec![config("echoer", "/bin/cat")]);
    running(sup.process_mut(0), 55);
    let idx = match handle_client(&mut sup, &ApiRequest::from_str("[foreground]target=echoer")) {
        Reply::Foreground(i) => i,
        _ => panic!("expected a session"),
    };
    let mut bridge = Bridge::new(idx);
    let step = bridge.step(&sup, TunnelInput::Data(b"hello\n".to_vec()));
    assert_eq!(step.to_child, b"hello\n".to_vec());
    assert!(!step.finished);
    sup.process_mut(idx).read_stdout(b"hello\n");
    let step = bridge.step(&sup, TunnelInput::Idle);
    assert_eq!(step.to_client, b"hello\n".to_vec());
    let step = bridge.step(&sup, TunnelInput::Idle);
    assert!(step.to_client.is_empty());
    let step = bridge.step(&sup, TunnelInput::Closed);
    assert!(step.finished);
}

#[test]
fn foreground_errors() {
    let mut sup = Supervisor::new(vec![config("echoer", "/bin/cat")]);
    assert_eq!(text(handle_client(&mut sup, &ApiRequest::from_str("[foreground]"))), "missing target option");
    assert_eq!(
        text(handle_client(&mut sup, &ApiRequest::from_str("[foreground]target=nope"))),
        "target nope does not exists"
    );
}

#[test]
fn malformed_request_then_status() {
    let mut sup = Supervisor::new(vec![config("a", "x")]);
    let bad = ApiRequest::from_str("xxx");
    assert!(text(handle_client(&mut sup, &bad)).contains("invalid request"));
    assert_eq!(text(handle_client(&mut sup, &ApiRequest::from_str("[status]"))), "a Stopped\n");
    let unknown: Result<ApiRequest, RequestError> = ApiRequest::from_str("[dance]");
    assert_eq!(text(handle_client(&mut sup, &unknown)), "unimplemented");
    assert_eq!(text(handle_client(&mut sup, &ApiRequest::from_str("[version]"))), "unimplemented");
}

#[test]
fn shutdown_request() {
    let mut sup = Supervisor::new(vec![]);
    assert!(matches!(handle_client(&mut sup, &ApiRequest::from_str("[shutdown]")), Reply::Shutdown));
}

#[test]
fn log_request_concatenates_captures() {
    let mut sup = Supervisor::new(vec![config("a", "x"), config("b", "y")]);
    sup.process_mut(0).read_stdout(b"1");
    sup.process_mut(1).read_stdout(b"2");
    match handle_client(&mut sup, &ApiRequest::from_str("[log]")) {
        Reply::Data(d) => assert_eq!(d, b"12".to_vec()),
        _ => panic!("expected data"),
    }
    assert_eq!(sup.find("b"), Some(1));
    assert_eq!(sup.find("c"), None);
}

#[test]
fn shutdown_refuses_new_work() {
    let mut a = Acceptor::new();
    assert!(a.accept());
    assert!(a.bridge_opened());
    assert_eq!(a.shutdown(), 1);
    assert!(!a.accept());
    assert!(!a.bridges_may_run());
    assert!(!a.bridge_opened());
}
