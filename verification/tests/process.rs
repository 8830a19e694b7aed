use game_launcher::process::{
    executable_path, forced_actions, graceful_actions, resolve_executable, signal_target,
    LaunchError, Liveness, ProcessController, ProcessHandle, ProcessStatus, Signal, StartDecision,
    StopAction, GRACE_PERIOD_MILLIS,
};

fn stopped() -> ProcessStatus {
    ProcessStatus { running: false, pid: None }
}

fn running(pid: u32) -> ProcessStatus {
    ProcessStatus { running: true, pid: Some(pid) }
}

fn spawned(pid: u32) -> Result<ProcessHandle<&'static str>, LaunchError> {
    Ok(ProcessHandle { pid, child: "child" })
}

fn pid_of(handle: Option<ProcessHandle<&'static str>>) -> Option<u32> {
    handle.map(|h| h.pid)
}

#[test]
fn stop_on_a_fresh_controller_reports_stopped() {
    let mut controller: ProcessController<&str> = ProcessController::new();
    let (status, handle) = controller.stop();
    assert_eq!(status, stopped());
    assert!(handle.is_none());
    assert_eq!(controller.pid(), None);
}

#[test]
fn reports_no_process_before_any_start() {
    let mut controller: ProcessController<&str> = ProcessController::new();
    for probe in [Liveness::Exited, Liveness::Running, Liveness::Unknown] {
        let (status, handle) = controller.status(probe);
        assert_eq!(status, stopped());
        assert!(handle.is_none());
    }
}

#[test]
fn a_missing_executable_is_not_found_and_changes_nothing() {
    let mut controller: ProcessController<&str> = ProcessController::new();
    let path = executable_path(Some("/no/such/game"), "/opt/game/run");
    assert_eq!(path, "/no/such/game");
    let resolved = resolve_executable(path, false);
    assert_eq!(resolved, Err(LaunchError::NotFound("/no/such/game".to_string())));
    let outcome: Result<ProcessHandle<&str>, LaunchError> = Err(resolved.unwrap_err());
    assert_eq!(controller.launched(outcome), Err(LaunchError::NotFound("/no/such/game".to_string())));
    assert_eq!(controller.pid(), None);
    assert_eq!(controller.status(Liveness::Running).0, stopped());
}

#[test]
fn a_failed_launch_keeps_the_process_that_is_there() {
    let mut controller: ProcessController<&str> = ProcessController::new();
    assert_eq!(controller.launched(spawned(77)), Ok(running(77)));
    let outcome: Result<ProcessHandle<&str>, LaunchError> = Err(LaunchError::Spawn("denied".to_string()));
    assert_eq!(controller.launched(outcome), Err(LaunchError::Spawn("denied".to_string())));
    assert_eq!(controller.pid(), Some(77));
    assert_eq!(controller.status(Liveness::Running).0, running(77));
}

#[test]
fn words_each_launch_error() {
    assert_eq!(LaunchError::StateLock.message(), "state lock failed");
    assert_eq!(
        LaunchError::NotFound("/no/such/game".to_string()).message(),
        "game executable not found: /no/such/game"
    );
    assert_eq!(LaunchError::Spawn("denied".to_string()).message(), "failed to launch game: denied");
}

#[test]
fn picks_the_given_path_or_the_default() {
    assert_eq!(executable_path(Some("/games/a"), "/opt/game/run"), "/games/a");
    assert_eq!(executable_path(None, "/opt/game/run"), "/opt/game/run");
    assert_eq!(executable_path(Some(""), "/opt/game/run"), "");
    assert_eq!(resolve_executable("/games/a".to_string(), true), Ok("/games/a".to_string()));
}

#[test]
fn launches_once() {
    let mut controller: ProcessController<&str> = ProcessController::new();
    match controller.start(Liveness::Unknown) {
        StartDecision::Launch(left) => assert!(left.is_none()),
        StartDecision::AlreadyRunning(_) => panic!("nothing was launched yet"),
    }
    assert_eq!(controller.launched(spawned(4242)), Ok(running(4242)));
    assert_eq!(controller.pid(), Some(4242));
    assert_eq!(controller.child(), Some(&"child"));
    match controller.start(Liveness::Running) {
        StartDecision::AlreadyRunning(status) => assert_eq!(status, running(4242)),
        StartDecision::Launch(_) => panic!("a second process would be launched"),
    }
    match controller.start(Liveness::Unknown) {
        StartDecision::AlreadyRunning(status) => assert_eq!(status, running(4242)),
        StartDecision::Launch(_) => panic!("a second process would be launched"),
    }
    assert_eq!(controller.pid(), Some(4242));
}

#[test]
fn launches_again_after_the_process_has_exited() {
    let mut controller: ProcessController<&str> = ProcessController::new();
    assert_eq!(controller.launched(spawned(4242)), Ok(running(4242)));
    match controller.start(Liveness::Exited) {
        StartDecision::Launch(left) => assert_eq!(pid_of(left), Some(4242)),
        StartDecision::AlreadyRunning(_) => panic!("the process has exited"),
    }
    assert_eq!(controller.pid(), None);
    assert_eq!(controller.launched(spawned(4243)), Ok(running(4243)));
    assert_eq!(controller.pid(), Some(4243));
}

#[test]
fn reports_what_the_probe_found() {
    let mut controller: ProcessController<&str> = ProcessController::new();
    assert_eq!(controller.launched(spawned(9)), Ok(running(9)));
    let (status, handle) = controller.status(Liveness::Running);
    assert_eq!(status, running(9));
    assert!(handle.is_none());
    let (status, handle) = controller.status(Liveness::Unknown);
    assert_eq!(status, running(9));
    assert!(handle.is_none());
    assert_eq!(controller.pid(), Some(9));
    let (status, handle) = controller.status(Liveness::Exited);
    assert_eq!(status, stopped());
    assert_eq!(pid_of(handle), Some(9));
    assert_eq!(controller.pid(), None);
    assert_eq!(controller.child(), None);
}

#[test]
fn no_probe_brings_a_stopped_process_back() {
    let mut controller: ProcessController<&str> = ProcessController::new();
    assert_eq!(controller.launched(spawned(31337)), Ok(running(31337)));
    let (status, handle) = controller.stop();
    assert_eq!(status, stopped());
    assert_eq!(pid_of(handle), Some(31337));
    for probe in [Liveness::Running, Liveness::Unknown, Liveness::Exited] {
        let (status, handle) = controller.status(probe);
        assert_eq!(status, stopped());
        assert!(handle.is_none());
        assert_eq!(controller.pid(), None);
    }
    let (status, handle) = controller.stop();
    assert_eq!(status, stopped());
    assert!(handle.is_none());
}

#[test]
fn addresses_the_group_by_the_negated_id() {
    assert_eq!(signal_target(1), Some(-1));
    assert_eq!(signal_target(4242), Some(-4242));
    assert_eq!(signal_target(2147483647), Some(-2147483647));
    assert_eq!(signal_target(0), None);
    assert_eq!(signal_target(2147483648), None);
    assert_eq!(signal_target(u32::MAX), None);
}

#[test]
fn asks_the_group_to_end_and_waits() {
    assert_eq!(GRACE_PERIOD_MILLIS, 600);
    assert_eq!(
        graceful_actions(4242, true),
        vec![
            StopAction::SignalGroup { target: -4242, signal: Signal::Terminate },
            StopAction::Wait { millis: 600 },
        ]
    );
    assert_eq!(graceful_actions(4242, false), Vec::<StopAction>::new());
    assert_eq!(graceful_actions(0, true), Vec::<StopAction>::new());
}

#[test]
fn kills_a_group_that_has_not_exited() {
    let kill_all = vec![
        StopAction::SignalGroup { target: -4242, signal: Signal::Kill },
        StopAction::KillProcess,
        StopAction::Reap,
    ];
    assert_eq!(forced_actions(4242, true, Liveness::Running), kill_all);
    assert_eq!(forced_actions(4242, true, Liveness::Unknown), kill_all);
    let kill_one = vec![StopAction::KillProcess, StopAction::Reap];
    assert_eq!(forced_actions(4242, true, Liveness::Exited), kill_one);
    assert_eq!(forced_actions(4242, false, Liveness::Running), kill_one);
    assert_eq!(forced_actions(4242, false, Liveness::Exited), kill_one);
    assert_eq!(forced_actions(0, true, Liveness::Running), kill_one);
}
