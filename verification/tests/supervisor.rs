use codechain_process::launch::{LaunchDescriptor, ProcessOption};
use codechain_process::supervisor::{CodeChainProcess, ExitStatus, ProcessState};

fn started() -> CodeChainProcess {
    let option = ProcessOption { codechain_dir: "/opt/codechain".to_string(), log_file_path: "log".to_string() };
    CodeChainProcess::new(LaunchDescriptor::new("A=1", "--port 7", &option, true).unwrap())
}

#[test]
fn fresh_child_is_running() {
    let mut p = started();
    assert_eq!(p.state(), ProcessState::Running);
    assert_eq!(p.exit_status(), None);
    assert!(p.is_running(None));
    assert_eq!(p.state(), ProcessState::Running);
    assert_eq!(p.descriptor().program(), "./codechain");
    assert_eq!(p.descriptor().p2p_port(), 7);
}

#[test]
fn child_that_exited_is_not_running() {
    let mut p = started();
    assert!(p.is_running(None));
    assert!(!p.is_running(Some(ExitStatus::Exited(0))));
    assert_eq!(p.state(), ProcessState::Exited(ExitStatus::Exited(0)));
    assert_eq!(p.exit_status(), Some(ExitStatus::Exited(0)));
}

#[test]
fn exit_is_final() {
    let mut p = started();
    assert!(!p.is_running(Some(ExitStatus::Signaled(9))));
    assert!(!p.is_running(None));
    assert!(!p.is_running(Some(ExitStatus::Exited(1))));
    assert_eq!(p.terminate::<String>(Ok(())), Ok(()));
    assert_eq!(p.wait_timeout::<String>(Ok(None)), Ok(Some(ExitStatus::Signaled(9))));
    assert_eq!(p.wait_timeout::<String>(Ok(Some(ExitStatus::Exited(3)))), Ok(Some(ExitStatus::Signaled(9))));
    assert_eq!(p.state(), ProcessState::Exited(ExitStatus::Signaled(9)));
}

#[test]
fn terminate_then_wait_gives_exit_status() {
    let mut p = started();
    assert_eq!(p.terminate::<String>(Ok(())), Ok(()));
    assert_eq!(p.state(), ProcessState::Terminated);
    assert!(p.is_running(None));
    assert_eq!(p.state(), ProcessState::Terminated);
    assert_eq!(p.wait_timeout::<String>(Ok(Some(ExitStatus::Signaled(15)))), Ok(Some(ExitStatus::Signaled(15))));
    assert_eq!(p.state(), ProcessState::Exited(ExitStatus::Signaled(15)));
    assert!(!p.is_running(None));
}

#[test]
fn wait_that_times_out_says_still_running() {
    let mut p = started();
    assert_eq!(p.wait_timeout::<String>(Ok(None)), Ok(None));
    assert_eq!(p.state(), ProcessState::Running);
    assert!(p.is_running(None));
}

#[test]
fn failures_are_handed_back_and_change_nothing() {
    let mut p = started();
    assert_eq!(p.terminate(Err("no such process".to_string())), Err("no such process".to_string()));
    assert_eq!(p.state(), ProcessState::Running);
    assert_eq!(p.wait_timeout(Err("wait failed".to_string())), Err("wait failed".to_string()));
    assert_eq!(p.state(), ProcessState::Running);
    assert_eq!(p.terminate::<String>(Ok(())), Ok(()));
    assert_eq!(p.wait_timeout(Err(7u8)), Err(7u8));
    assert_eq!(p.state(), ProcessState::Terminated);
}

#[test]
fn terminating_twice_is_harmless() {
    let mut p = started();
    assert_eq!(p.terminate::<String>(Ok(())), Ok(()));
    assert_eq!(p.terminate::<String>(Ok(())), Ok(()));
    assert_eq!(p.state(), ProcessState::Terminated);
}
