use serial_core::connection::Connection;
use serial_core::error::IoError;
use serial_core::handle::{Handle, OpenOutcome};
use serial_core::sim::{pump_writes, SimDevice};

#[test]
fn handle_open_refused_yields_connect_failed() {
    match Handle::open("X", 9600, OpenOutcome::Refused) {
        Err(e) => assert_eq!(e, IoError::ConnectFailed),
        Ok(_) => panic!("a refused open must not yield a handle"),
    }
}

#[test]
fn writes_leave_in_issue_order() {
    let mut h = Handle::open("X", 9600, OpenOutcome::Opened).unwrap();
    h.write("one").unwrap();
    h.write("two").unwrap();
    h.write("three").unwrap();
    assert_eq!(h.take_outbound().unwrap(), "one");
    assert_eq!(h.take_outbound().unwrap(), "two");
    assert_eq!(h.take_outbound().unwrap(), "three");
    assert_eq!(h.take_outbound(), None);
}

#[test]
fn device_sees_concatenation_of_writes() {
    let mut c = Connection::new(9600);
    c.open("X", OpenOutcome::Opened).unwrap();
    c.write("he").unwrap();
    c.write("llo").unwrap();
    c.write(" world").unwrap();
    let mut dev = SimDevice::new();
    pump_writes(&mut c, &mut dev);
    let seen: String = dev.received().iter().map(|s| s.as_str()).collect::<Vec<_>>().concat();
    assert_eq!(seen, "hello world");
    // Pumping again moves nothing: nothing is duplicated.
    pump_writes(&mut c, &mut dev);
    assert_eq!(dev.received().len(), 3);
}

#[test]
fn reads_return_chunks_in_arrival_order() {
    let mut h = Handle::open("X", 9600, OpenOutcome::Opened).unwrap();
    h.deliver("foo");
    h.deliver("bar");
    assert_eq!(h.read().unwrap(), "foo");
    assert_eq!(h.read().unwrap(), "bar");
    // Nothing queued and the reader still runs: the empty string.
    assert_eq!(h.read().unwrap(), "");
}

#[test]
fn read_all_drains_everything_once() {
    let mut h = Handle::open("X", 9600, OpenOutcome::Opened).unwrap();
    h.deliver("a");
    h.deliver("b");
    h.deliver("c");
    let drained = h.read_all();
    assert_eq!(drained, vec!["a", "b", "c"]);
    assert_eq!(h.read().unwrap(), "");
}

#[test]
fn buffered_chunks_survive_reader_exit() {
    let mut h = Handle::open("X", 9600, OpenOutcome::Opened).unwrap();
    h.deliver("last words");
    h.reader_exited();
    assert!(!h.is_connected());
    assert_eq!(h.read().unwrap(), "last words");
    assert_eq!(h.read().unwrap_err(), IoError::Disconnected);
}

#[test]
fn write_after_writer_exit_fails_disconnected() {
    let mut h = Handle::open("X", 9600, OpenOutcome::Opened).unwrap();
    h.writer_exited();
    assert!(!h.is_connected());
    assert_eq!(h.write("late").unwrap_err(), IoError::Disconnected);
}

#[test]
fn reconnect_refused_leaves_aborted_handle() {
    let mut h = Handle::open("X", 9600, OpenOutcome::Opened).unwrap();
    h.deliver("buffered");
    assert_eq!(
        h.reconnect("X", 115200, OpenOutcome::Refused).unwrap_err(),
        IoError::ConnectFailed
    );
    assert!(!h.is_connected());
    // The buffer is still drainable, then the loss surfaces.
    assert_eq!(h.read().unwrap(), "buffered");
    assert_eq!(h.read().unwrap_err(), IoError::Disconnected);
}
