use serial_core::ports::{ports_from_entries, PortInfo};

#[test]
fn port_info_getters() {
    let p = PortInfo::new(
        String::from("/dev/ttyUSB0"),
        Some(String::from("Acme")),
        Some(String::from("Widget")),
    );
    assert_eq!(p.name(), "/dev/ttyUSB0");
    assert_eq!(p.manufacturer(), "Acme");
    assert_eq!(p.product(), "Widget");
}

#[test]
fn port_info_unknown_defaults() {
    let p = PortInfo::new(String::from("COM3"), None, None);
    assert_eq!(p.name(), "COM3");
    assert_eq!(p.manufacturer(), "Unknown");
    assert_eq!(p.product(), "Unknown");
}

#[test]
fn ports_from_entries_keeps_order_and_fields() {
    let entries = vec![
        (String::from("/dev/ttyUSB0"), Some(String::from("Acme")), None),
        (String::from("/dev/ttyS1"), None, Some(String::from("Bridge"))),
    ];
    let ports = ports_from_entries(entries);
    assert_eq!(ports.len(), 2);
    assert_eq!(ports[0].name(), "/dev/ttyUSB0");
    assert_eq!(ports[0].manufacturer(), "Acme");
    assert_eq!(ports[0].product(), "Unknown");
    assert_eq!(ports[1].name(), "/dev/ttyS1");
    assert_eq!(ports[1].manufacturer(), "Unknown");
    assert_eq!(ports[1].product(), "Bridge");
}
