use pawkit_desktop::server::{
    decimal_string, find_available_port, is_ready_status, navigation_target, server_url,
    start_server, wait_for_server, Probe, ServerState, StartError, WaitStep, MAX_ATTEMPTS,
    RETRY_DELAY_MS,
};

#[test]
fn state_keeps_the_port() {
    assert_eq!(ServerState::new(3000).port(), 3000);
    assert_eq!(ServerState::new(0).port(), 0);
}

#[test]
fn decimal_numbers() {
    assert_eq!(decimal_string(0), "0");
    assert_eq!(decimal_string(7), "7");
    assert_eq!(decimal_string(10), "10");
    assert_eq!(decimal_string(3000), "3000");
    assert_eq!(decimal_string(65535), "65535");
    for n in [1u16, 9, 11, 99, 100, 101, 999, 1000, 12345, 40404, 65534] {
        assert_eq!(decimal_string(n), n.to_string());
    }
}

#[test]
fn address_of_the_server() {
    assert_eq!(server_url(3000), "http://localhost:3000");
    assert_eq!(server_url(80), "http://localhost:80");
}

#[test]
fn port_or_error() {
    assert_eq!(find_available_port(Some(15000)), Ok(15000));
    assert_eq!(find_available_port(None), Err(StartError::NoPort));
}

#[test]
fn error_messages() {
    assert_eq!(StartError::NoPort.message(), "No available port found");
    assert_eq!(
        StartError::ResourceDir("gone".to_string()).message(),
        "Failed to get resource dir: gone"
    );
    assert_eq!(
        StartError::Sidecar("no node".to_string()).message(),
        "Failed to create sidecar command: no node"
    );
    assert_eq!(StartError::Spawn("denied".to_string()).message(), "Failed to spawn server: denied");
}

#[test]
fn launch_of_the_server() {
    let launch = start_server(Some(18080)).expect("a launch");
    assert_eq!(launch.port, 18080);
    assert_eq!(launch.sidecar, "node");
    assert_eq!(launch.script, vec!["standalone".to_string(), "server.js".to_string()]);
    assert_eq!(
        launch.environment,
        vec![
            ("PORT".to_string(), "18080".to_string()),
            ("HOSTNAME".to_string(), "localhost".to_string()),
        ]
    );
    assert_eq!(start_server(None), Err(StartError::NoPort));
}

#[test]
fn ready_statuses() {
    for code in [200u16, 204, 299, 300, 301, 399] {
        assert!(is_ready_status(code), "{code}");
    }
    for code in [0u16, 100, 199, 400, 404, 500, 65535] {
        assert!(!is_ready_status(code), "{code}");
    }
}

#[test]
fn waiting_ends_when_the_server_answers_well() {
    assert_eq!(wait_for_server(1, Probe::Answered(200)), WaitStep::Ready);
    assert_eq!(wait_for_server(30, Probe::Answered(302)), WaitStep::Ready);
}

#[test]
fn waiting_goes_on_after_a_bad_probe() {
    assert_eq!(wait_for_server(1, Probe::Failed), WaitStep::SleepThenProbe { attempt: 2 });
    assert_eq!(wait_for_server(1, Probe::Answered(503)), WaitStep::SleepThenProbe { attempt: 2 });
    assert_eq!(wait_for_server(29, Probe::Failed), WaitStep::SleepThenProbe { attempt: 30 });
}

#[test]
fn waiting_is_given_up_after_the_last_probe() {
    assert_eq!(MAX_ATTEMPTS, 30);
    assert_eq!(RETRY_DELAY_MS, 500);
    assert_eq!(wait_for_server(30, Probe::Failed), WaitStep::SleepThenGiveUp);
    assert_eq!(wait_for_server(30, Probe::Answered(404)), WaitStep::SleepThenGiveUp);
    assert_eq!(wait_for_server(u32::MAX, Probe::Failed), WaitStep::SleepThenGiveUp);
}

#[test]
fn a_server_that_never_answers_is_probed_thirty_times() {
    let mut attempt = 1;
    let mut probes = 0;
    loop {
        probes += 1;
        match wait_for_server(attempt, Probe::Failed) {
            WaitStep::SleepThenProbe { attempt: next } => attempt = next,
            WaitStep::SleepThenGiveUp => break,
            WaitStep::Ready => panic!("never ready"),
        }
    }
    assert_eq!(probes, 30);
}

#[test]
fn navigation_goes_to_the_server() {
    let target = navigation_target(3000).expect("a URL");
    assert_eq!(target.as_str(), "http://localhost:3000/");
    assert_eq!(target.scheme(), "http");
    assert_eq!(target.host_str(), Some("localhost"));
    assert_eq!(target.port(), Some(3000));
    let default_port = navigation_target(80).expect("a URL");
    assert_eq!(default_port.as_str(), "http://localhost/");
}
