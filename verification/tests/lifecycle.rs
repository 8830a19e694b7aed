use game_launcher::lifecycle::{
    port_url, webgl_status_from_handle, webgl_status_stopped, ServerError, ServerRegistry,
    StartDecision, WebglStatus,
};

fn running_on(port: u16) -> WebglStatus {
    WebglStatus { running: true, url: Some(format!("http://127.0.0.1:{}/", port)), port: Some(port) }
}

fn stopped() -> WebglStatus {
    WebglStatus { running: false, url: None, port: None }
}

#[test]
fn writes_the_loopback_address() {
    assert_eq!(port_url(8080), "http://127.0.0.1:8080/");
    assert_eq!(port_url(0), "http://127.0.0.1:0/");
    assert_eq!(port_url(7), "http://127.0.0.1:7/");
    assert_eq!(port_url(10), "http://127.0.0.1:10/");
    assert_eq!(port_url(65535), "http://127.0.0.1:65535/");
    assert_eq!(port_url(40001), "http://127.0.0.1:40001/");
}

#[test]
fn writes_every_port_as_the_formatter_does() {
    for port in 0u16..=65535u16 {
        assert_eq!(port_url(port), format!("http://127.0.0.1:{}/", port));
    }
}

#[test]
fn reports_a_handle() {
    assert_eq!(webgl_status_from_handle(51234, true), running_on(51234));
    assert_eq!(
        webgl_status_from_handle(51234, false),
        WebglStatus { running: false, url: Some("http://127.0.0.1:51234/".to_string()), port: Some(51234) }
    );
    assert_eq!(webgl_status_stopped(), stopped());
}

#[test]
fn reports_stopped_before_any_start() {
    let mut registry: ServerRegistry<&str> = ServerRegistry::new();
    assert!(registry.handle().is_none());
    assert_eq!(registry.status(false), (stopped(), None));
    assert_eq!(registry.status(true), (stopped(), None));
}

#[test]
fn starts_once_and_reports_the_same_port_twice() {
    let mut registry: ServerRegistry<&str> = ServerRegistry::new();
    match registry.start(false) {
        StartDecision::Launch(left) => assert_eq!(left, None),
        StartDecision::AlreadyRunning(_) => panic!("nothing was started yet"),
    }
    let (first, left) = registry.install(43210, "worker");
    assert_eq!(left, None);
    assert_eq!(first, running_on(43210));
    match registry.start(true) {
        StartDecision::AlreadyRunning(second) => assert_eq!(second, first),
        StartDecision::Launch(_) => panic!("a second server would be launched"),
    }
    let handle = registry.handle().unwrap();
    assert_eq!(handle.port, 43210);
    assert_eq!(handle.worker, "worker");
    assert_eq!(registry.status(true), (first, None));
}

#[test]
fn reclaims_a_server_whose_worker_has_stopped() {
    let mut registry: ServerRegistry<&str> = ServerRegistry::new();
    registry.install(43210, "worker");
    let last = WebglStatus {
        running: false,
        url: Some("http://127.0.0.1:43210/".to_string()),
        port: Some(43210),
    };
    assert_eq!(registry.status(false), (last, Some("worker")));
    assert!(registry.handle().is_none());
    assert_eq!(registry.status(false), (stopped(), None));
    assert_eq!(registry.status(true), (stopped(), None));
}

#[test]
fn launches_anew_after_the_worker_has_stopped() {
    let mut registry: ServerRegistry<&str> = ServerRegistry::new();
    registry.install(43210, "first");
    match registry.start(false) {
        StartDecision::Launch(left) => assert_eq!(left, Some("first")),
        StartDecision::AlreadyRunning(_) => panic!("the worker has stopped"),
    }
    assert!(registry.handle().is_none());
    let (status, left) = registry.install(43211, "second");
    assert_eq!(left, None);
    assert_eq!(status, running_on(43211));
}

#[test]
fn hands_back_what_an_install_replaces() {
    let mut registry: ServerRegistry<&str> = ServerRegistry::new();
    registry.install(1, "first");
    let (status, left) = registry.install(2, "second");
    assert_eq!(left, Some("first"));
    assert_eq!(status, running_on(2));
    assert_eq!(registry.handle().unwrap().port, 2);
}

#[test]
fn stops_whatever_the_slot_holds() {
    let mut registry: ServerRegistry<&str> = ServerRegistry::new();
    assert_eq!(registry.stop(), (stopped(), None));
    registry.install(43210, "worker");
    assert_eq!(registry.stop(), (stopped(), Some("worker")));
    assert!(registry.handle().is_none());
    assert_eq!(registry.stop(), (stopped(), None));
    assert_eq!(registry.status(true), (stopped(), None));
}

#[test]
fn words_each_error() {
    assert_eq!(ServerError::StateLock.message(), "state lock failed");
    assert_eq!(
        ServerError::RootNotFound.message(),
        "WebGL build not found. Expected folder `breach_it/` with `index.html`."
    );
    assert_eq!(
        ServerError::Bind("address in use".to_string()).message(),
        "failed to bind localhost port: address in use"
    );
    assert_eq!(
        ServerError::LocalAddress("no socket".to_string()).message(),
        "failed to get bound port: no socket"
    );
    assert_eq!(ServerError::Listen("boom".to_string()).message(), "failed to start server: boom");
}
