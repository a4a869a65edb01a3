use serial_core::connection::{Connection, DEFAULT_BR};
use serial_core::error::IoError;
use serial_core::handle::OpenOutcome;

#[test]
fn new_connection_is_disconnected() {
    let c = Connection::new(DEFAULT_BR);
    assert_eq!(c.get_baud_rate(), 9600);
    assert_eq!(c.get_name(), "none");
    assert!(!c.is_connected());
    assert!(!c.has_handle());
}

#[test]
fn read_without_handle_fails_not_connected_idempotently() {
    let mut c = Connection::new(DEFAULT_BR);
    assert_eq!(c.read().unwrap_err(), IoError::NotConnected);
    // No side effects: the same call keeps failing the same way and the
    // remembered configuration is untouched.
    assert_eq!(c.read().unwrap_err(), IoError::NotConnected);
    assert_eq!(c.get_baud_rate(), 9600);
    assert_eq!(c.get_name(), "none");
    assert!(!c.is_connected());
}

#[test]
fn open_success_records_name() {
    let mut c = Connection::new(DEFAULT_BR);
    assert!(c.open("/dev/ttyUSB0", OpenOutcome::Opened).is_ok());
    assert!(c.is_connected());
    assert!(c.has_handle());
    assert_eq!(c.get_name(), "/dev/ttyUSB0");
}

#[test]
fn open_failure_changes_nothing() {
    let mut c = Connection::new(DEFAULT_BR);
    assert_eq!(
        c.open("/dev/ttyUSB0", OpenOutcome::Refused).unwrap_err(),
        IoError::ConnectFailed
    );
    assert!(!c.is_connected());
    assert!(!c.has_handle());
    assert_eq!(c.get_name(), "none");
}

#[test]
fn close_disconnects_and_is_idempotent() {
    let mut c = Connection::new(DEFAULT_BR);
    c.open("X", OpenOutcome::Opened).unwrap();
    assert!(c.is_connected());
    c.close();
    assert!(!c.is_connected());
    assert_eq!(c.get_name(), "none");
    assert_eq!(c.write("hello").unwrap_err(), IoError::NotConnected);
    // A second close changes nothing further.
    c.close();
    assert!(!c.is_connected());
    assert_eq!(c.write("hello").unwrap_err(), IoError::NotConnected);
    assert_eq!(c.get_baud_rate(), 9600);
}

#[test]
fn set_baud_rate_without_handle_commits() {
    let mut c = Connection::new(DEFAULT_BR);
    assert!(c.set_baud_rate(115200, OpenOutcome::Refused).is_ok());
    assert_eq!(c.get_baud_rate(), 115200);
    assert!(!c.is_connected());
}

#[test]
fn set_baud_rate_reopen_success_stays_connected() {
    let mut c = Connection::new(DEFAULT_BR);
    c.open("X", OpenOutcome::Opened).unwrap();
    assert!(c.set_baud_rate(115200, OpenOutcome::Opened).is_ok());
    assert!(c.is_connected());
    assert_eq!(c.get_baud_rate(), 115200);
    assert_eq!(c.get_name(), "X");
}

#[test]
fn set_baud_rate_reopen_failure_still_commits() {
    let mut c = Connection::new(DEFAULT_BR);
    c.open("X", OpenOutcome::Opened).unwrap();
    assert_eq!(
        c.set_baud_rate(115200, OpenOutcome::Refused).unwrap_err(),
        IoError::ConnectFailed
    );
    assert!(!c.is_connected());
    assert_eq!(c.get_baud_rate(), 115200);
}

#[test]
fn open_while_connected_replaces_handle() {
    let mut c = Connection::new(DEFAULT_BR);
    c.open("X", OpenOutcome::Opened).unwrap();
    c.write("stale").unwrap();
    c.open("Y", OpenOutcome::Opened).unwrap();
    assert_eq!(c.get_name(), "Y");
    assert!(c.is_connected());
    // The fresh handle starts with empty queues.
    assert_eq!(c.take_outbound(), None);
}

#[test]
fn open_failure_while_connected_keeps_old_handle() {
    let mut c = Connection::new(DEFAULT_BR);
    c.open("X", OpenOutcome::Opened).unwrap();
    assert_eq!(
        c.open("Y", OpenOutcome::Refused).unwrap_err(),
        IoError::ConnectFailed
    );
    assert!(c.is_connected());
    assert_eq!(c.get_name(), "X");
}
