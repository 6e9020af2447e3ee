use xtools::hex::HexError;
use xtools::ports::{describe_port_kind, ports_to_infos, PortKind};
use xtools::serial::{
    normalize_data_bits, normalize_stop_bits, parity_code, DataEntry, SerialError, SerialManager,
};

#[test]
fn new_manager_is_disconnected() {
    let mgr = SerialManager::new();
    assert!(!mgr.is_connected());
}

#[test]
fn send_while_disconnected_fails_text_mode() {
    let mut mgr = SerialManager::new();
    assert_eq!(mgr.send("hello", false), Err(SerialError::NotConnected));
    assert!(!mgr.is_connected());
}

#[test]
fn send_while_disconnected_fails_hex_mode() {
    let mut mgr = SerialManager::new();
    assert_eq!(mgr.send("48 65", true), Err(SerialError::NotConnected));
    // Even an undecodable payload reports the missing connection first.
    assert_eq!(mgr.send("ZZ", true), Err(SerialError::NotConnected));
    assert!(!mgr.is_connected());
}

#[test]
fn disconnect_twice_is_noop_success() {
    let mut mgr = SerialManager::new();
    assert_eq!(mgr.disconnect(), Ok(()));
    assert_eq!(mgr.disconnect(), Ok(()));
    assert!(!mgr.is_connected());
}

#[test]
fn read_available_while_disconnected_is_empty_success() {
    let mut mgr = SerialManager::new();
    let entries = mgr.read_available().expect("no error while disconnected");
    assert!(entries.is_empty());
}

#[test]
fn failed_connect_leaves_manager_disconnected() {
    let mut mgr = SerialManager::new();
    let r = mgr.connect("/dev/does-not-exist-xtools", 115200, 8, 1, "none");
    match r {
        Err(SerialError::OpenFailed(_)) => {}
        other => panic!("expected OpenFailed, got {:?}", other),
    }
    assert!(!mgr.is_connected());
    // The failed attempt leaves a cleanly disconnected manager behind.
    assert_eq!(mgr.disconnect(), Ok(()));
    assert!(mgr.read_available().unwrap().is_empty());
}

#[test]
fn entry_from_echoed_bytes() {
    let e = DataEntry::from_bytes(b"hi\r\n", String::from("12:00:00.000"), "rx");
    assert_eq!(e.data, "hi\r\n");
    assert_eq!(e.hex, "68 69 0D 0A");
    assert_eq!(e.direction, "rx");
    assert_eq!(e.timestamp, "12:00:00.000");
}

#[test]
fn entry_text_is_lossy_for_invalid_utf8() {
    let e = DataEntry::from_bytes(&[0xFF, b'a'], String::from("t"), "rx");
    assert_eq!(e.data, "\u{FFFD}a");
    assert_eq!(e.hex, "FF 61");
}

#[test]
fn unrecognized_parameters_fall_back_to_defaults() {
    // The documented leniency: invalid values silently become the defaults
    // instead of failing.
    assert_eq!(normalize_data_bits(5), 5);
    assert_eq!(normalize_data_bits(8), 8);
    assert_eq!(normalize_data_bits(0), 8);
    assert_eq!(normalize_data_bits(9), 8);
    assert_eq!(normalize_stop_bits(1), 1);
    assert_eq!(normalize_stop_bits(2), 2);
    assert_eq!(normalize_stop_bits(7), 1);
    assert_eq!(parity_code("none"), 0);
    assert_eq!(parity_code("Odd"), 1);
    assert_eq!(parity_code("EVEN"), 2);
    assert_eq!(parity_code("bogus"), 0);
    assert_eq!(parity_code(""), 0);
}

#[test]
fn error_messages() {
    assert_eq!(
        SerialError::NotConnected.message(),
        "not connected to a serial port"
    );
    assert_eq!(
        SerialError::OpenFailed(String::from("nope")).message(),
        "cannot open port: nope"
    );
    assert_eq!(
        SerialError::DecodeFailed(HexError::OddLength).message(),
        "hex string must have an even number of digits"
    );
    assert_eq!(
        SerialError::DecodeFailed(HexError::InvalidDigit(String::from("ZZ"))).message(),
        "invalid hex digits: ZZ"
    );
}

#[test]
fn port_descriptions() {
    assert_eq!(
        describe_port_kind(&PortKind::Usb {
            manufacturer: Some(String::from("Acme")),
            product: Some(String::from("Widget")),
        }),
        "Acme - Widget"
    );
    assert_eq!(
        describe_port_kind(&PortKind::Usb { manufacturer: None, product: None }),
        " - "
    );
    assert_eq!(describe_port_kind(&PortKind::Pci), "PCI serial port");
    assert_eq!(describe_port_kind(&PortKind::Bluetooth), "Bluetooth serial port");
    assert_eq!(describe_port_kind(&PortKind::Unknown), "unknown port type");
}

#[test]
fn no_detected_ports_means_empty_listing() {
    let infos = ports_to_infos(Vec::new());
    assert!(infos.is_empty());
}

#[test]
fn list_available_ports_does_not_error() {
    // Whatever devices the machine has, enumeration itself should succeed;
    // an empty listing is a valid result.
    let r = xtools::ports::list_available_ports();
    assert!(r.is_ok());
}
