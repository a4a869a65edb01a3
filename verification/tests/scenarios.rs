use serial_core::connection::Connection;
use serial_core::error::IoError;
use serial_core::handle::OpenOutcome;
use serial_core::sim::{on_device_bytes, pump_writes, SimDevice};
use serial_core::supervisor::{
    drain_tick, send_line, RetryReport, RetryState, RETRY_INTERVAL_MS, RETRY_TIMEOUT_MS,
};

#[test]
fn ping_pong_echo() {
    // Open device "X" at 9600 and send "ping\n".
    let mut c = Connection::new(9600);
    c.open("X", OpenOutcome::Opened).unwrap();
    c.write("ping\n").unwrap();
    let mut dev = SimDevice::new();
    pump_writes(&mut c, &mut dev);
    assert_eq!(dev.received()[0], "ping\n");
    // The device echoes "pong\n"; the poll after the echo returns exactly
    // it, and the next immediate poll returns the empty string.
    on_device_bytes(&mut c, b"pong\n".to_vec()).unwrap();
    assert_eq!(c.read().unwrap(), "pong\n");
    assert_eq!(c.read().unwrap(), "");
}

#[test]
fn retry_succeeds_on_fourth_attempt_with_one_report() {
    let mut retry = RetryState::new(RETRY_INTERVAL_MS, RETRY_TIMEOUT_MS);
    let mut terminal_reports = 0;
    for _ in 0..3 {
        match retry.step(OpenOutcome::Refused) {
            RetryReport::Pending => {}
            _ => terminal_reports += 1,
        }
    }
    assert_eq!(terminal_reports, 0);
    assert!(!retry.is_done());
    assert_eq!(retry.step(OpenOutcome::Opened), RetryReport::Connected);
    assert!(retry.is_done());
}

#[test]
fn retry_budget_exhaustion_is_one_error() {
    // A 1100 ms budget at a 500 ms interval: two quiet failures, then the
    // single terminal timeout.
    let mut retry = RetryState::new(500, 1100);
    assert_eq!(retry.step(OpenOutcome::Refused), RetryReport::Pending);
    assert_eq!(retry.step(OpenOutcome::Refused), RetryReport::Pending);
    assert_eq!(retry.step(OpenOutcome::Refused), RetryReport::TimedOut);
    assert!(retry.is_done());
}

#[test]
fn unplug_mid_session_surfaces_disconnected() {
    let mut c = Connection::new(9600);
    c.open("X", OpenOutcome::Opened).unwrap();
    c.write("hello").unwrap();
    c.unplug();
    // The loss shows on the next calls, without any close().
    assert_eq!(c.read().unwrap_err(), IoError::Disconnected);
    assert_eq!(c.write("again").unwrap_err(), IoError::Disconnected);
    assert!(!c.is_connected());
    // The configuration survives for an explicit re-selection.
    assert_eq!(c.get_name(), "X");
    assert_eq!(c.get_baud_rate(), 9600);
}

#[test]
fn invalid_utf8_chunk_is_dropped_not_substituted() {
    let mut c = Connection::new(9600);
    c.open("X", OpenOutcome::Opened).unwrap();
    on_device_bytes(&mut c, b"good".to_vec()).unwrap();
    assert_eq!(
        on_device_bytes(&mut c, vec![0xff, 0xfe]).unwrap_err(),
        IoError::InvalidData
    );
    // The malformed burst left no trace in the visible stream.
    assert_eq!(c.read().unwrap(), "good");
    assert_eq!(c.read().unwrap(), "");
    assert!(c.is_connected());
}

#[test]
fn empty_burst_is_not_forwarded() {
    let mut c = Connection::new(9600);
    c.open("X", OpenOutcome::Opened).unwrap();
    on_device_bytes(&mut c, Vec::new()).unwrap();
    assert_eq!(c.read().unwrap(), "");
}

#[test]
fn drain_tick_appends_and_stops_when_closed() {
    let mut c = Connection::new(9600);
    let mut buffer: Vec<String> = Vec::new();
    c.open("X", OpenOutcome::Opened).unwrap();
    on_device_bytes(&mut c, b"abc".to_vec()).unwrap();
    assert!(drain_tick(&mut c, &mut buffer));
    assert_eq!(buffer, vec!["abc"]);
    // An empty poll appends nothing and keeps going.
    assert!(drain_tick(&mut c, &mut buffer));
    assert_eq!(buffer, vec!["abc"]);
    c.close();
    assert!(!drain_tick(&mut c, &mut buffer));
    assert_eq!(buffer, vec!["abc"]);
}

#[test]
fn drain_tick_stops_on_observed_disconnect() {
    let mut c = Connection::new(9600);
    let mut buffer: Vec<String> = Vec::new();
    c.open("X", OpenOutcome::Opened).unwrap();
    assert!(drain_tick(&mut c, &mut buffer));
    // The device disappears: the very next tick observes the loss and
    // stops, without any close() call.
    c.unplug();
    assert!(!drain_tick(&mut c, &mut buffer));
    assert!(buffer.is_empty());
}

#[test]
fn bursts_are_read_back_in_arrival_order() {
    let mut c = Connection::new(9600);
    c.open("X", OpenOutcome::Opened).unwrap();
    on_device_bytes(&mut c, b"first ".to_vec()).unwrap();
    on_device_bytes(&mut c, b"second\n".to_vec()).unwrap();
    assert_eq!(c.read().unwrap(), "first ");
    assert_eq!(c.read().unwrap(), "second\n");
    assert_eq!(c.read().unwrap(), "");
}

#[test]
fn send_line_records_even_when_write_fails() {
    let mut c = Connection::new(9600);
    let mut sent: Vec<String> = Vec::new();
    assert_eq!(
        send_line(&mut c, &mut sent, "hi").unwrap_err(),
        IoError::NotConnected
    );
    assert_eq!(sent, vec!["hi\n"]);
    c.open("X", OpenOutcome::Opened).unwrap();
    send_line(&mut c, &mut sent, "there").unwrap();
    assert_eq!(sent, vec!["hi\n", "there\n"]);
    let mut dev = SimDevice::new();
    pump_writes(&mut c, &mut dev);
    assert_eq!(dev.received()[0], "there\n");
}
