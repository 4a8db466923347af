use kerb::SimError;

#[test]
fn sim_error_display() {
    let e = SimError::NotConnected("iRacing shared memory not found".into());
    assert!(e.to_string().contains("iRacing shared memory not found"));
}

#[test]
fn sim_error_from_io() {
    let io_err = std::io::Error::new(std::io::ErrorKind::NotFound, "file missing");
    let e: SimError = io_err.into();
    assert!(matches!(e, SimError::Io(_)));
}

#[test]
fn sim_error_no_sim_running_display() {
    let e = SimError::NoSimRunning;
    assert!(e.to_string().contains("No simulator"));
}

#[test]
fn sim_error_messages_are_exact() {
    assert_eq!(SimError::NotConnected("x".into()).to_string(), "Not connected: x");
    assert_eq!(SimError::InvalidHeader("bad".into()).to_string(), "Invalid header: bad");
    assert_eq!(SimError::NoSimRunning.to_string(), "No simulator is currently running");
    let io = SimError::Io(std::io::Error::new(std::io::ErrorKind::Other, "disk full"));
    assert_eq!(io.to_string(), "IO error: disk full");
}

#[test]
fn bad_header_message_prints_signed_values() {
    match SimError::bad_header(-3, 0) {
        SimError::InvalidHeader(msg) => {
            assert_eq!(msg, "Invalid iRacing telemetry header (ver=-3, num_vars=0)")
        }
        other => panic!("unexpected {:?}", other),
    }
    match SimError::bad_header(i32::MIN, 11) {
        SimError::InvalidHeader(msg) => assert_eq!(
            msg,
            "Invalid iRacing telemetry header (ver=-2147483648, num_vars=11)"
        ),
        other => panic!("unexpected {:?}", other),
    }
}
