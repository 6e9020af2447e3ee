//! Port directory: enumerate available serial devices with a best-effort
//! human-readable description per transport kind.

use vstd::prelude::*;
use crate::serial::SerialError;

verus! {

/// A discovered device: its system name and description.
#[derive(Debug, Clone)]
pub struct PortInfo {
    pub name: String,
    pub description: String,
}

/// The transport a discovered device hangs off, with whatever descriptive
/// strings the system offers for USB devices.
#[derive(Debug, Clone)]
pub enum PortKind {
    Usb { manufacturer: Option<String>, product: Option<String> },
    Pci,
    Bluetooth,
    Unknown,
}

/// A device as the enumeration reports it, before formatting.
#[derive(Debug, Clone)]
pub struct DetectedPort {
    pub name: String,
    pub kind: PortKind,
}

/// The string an optional descriptive field contributes: its text, or nothing.
pub open spec fn option_text(o: Option<String>) -> Seq<char> {
    match o {
        Some(s) => s@,
        None => Seq::empty(),
    }
}

/// The description shown for a transport kind: USB devices show
/// manufacturer and product joined by a dash, the rest a fixed label.
pub open spec fn kind_description(k: PortKind) -> Seq<char> {
    match k {
        PortKind::Usb { manufacturer, product } => option_text(manufacturer) + " - "@
            + option_text(product),
        PortKind::Pci => "PCI serial port"@,
        PortKind::Bluetooth => "Bluetooth serial port"@,
        PortKind::Unknown => "unknown port type"@,
    }
}

/// Render the description for one transport kind.
pub fn describe_port_kind(k: &PortKind) -> (r: String)
    ensures
        r@ == kind_description(*k),
{
    match k {
        PortKind::Usb { manufacturer, product } => {
            let mut s = match manufacturer {
                Some(m) => m.clone(),
                None => String::new(),
            };
            s.append(" - ");
            match product {
                Some(p) => s.append(p.as_str()),
                None => (),
            }
            s
        }
        PortKind::Pci => String::from_str("PCI serial port"),
        PortKind::Bluetooth => String::from_str("Bluetooth serial port"),
        PortKind::Unknown => String::from_str("unknown port type"),
    }
}

/// The info entry that stands for one detected device.
pub open spec fn info_of_detected(d: DetectedPort, p: PortInfo) -> bool {
    p.name@ == d.name@ && p.description@ == kind_description(d.kind)
}

/// Entry-by-entry: these infos describe exactly those detected devices.
pub open spec fn infos_describe(ds: Seq<DetectedPort>, infos: Seq<PortInfo>) -> bool {
    infos.len() == ds.len() && forall|i: int|
        0 <= i < ds.len() ==> info_of_detected(ds[i], #[trigger] infos[i])
}

/// Turn detected devices into displayable entries, order kept.
pub fn ports_to_infos(ports: Vec<DetectedPort>) -> (r: Vec<PortInfo>)
    ensures
        infos_describe(ports@, r@),
{
    let mut out: Vec<PortInfo> = Vec::new();
    let mut i: usize = 0;
    while i < ports.len()
        invariant
            i <= ports@.len(),
            out@.len() == i,
            forall|j: int| 0 <= j < i ==> info_of_detected(ports@[j], #[trigger] out@[j]),
        decreases ports@.len() - i,
    {
        let p = &ports[i];
        out.push(PortInfo { name: p.name.clone(), description: describe_port_kind(&p.kind) });
        i = i + 1;
    }
    out
}

/// Relies on `serialport::available_ports`: each reported port carries its
/// system name and transport type, USB ones with the system's manufacturer
/// and product strings. The mapping here converts each entry one-for-one.
#[verifier::external_body]
fn enumerate_ports() -> (r: Result<Vec<DetectedPort>, String>) {
    match serialport::available_ports() {
        Ok(ps) => Ok(ps.into_iter().map(|p| DetectedPort {
            name: p.port_name,
            kind: match p.port_type {
                serialport::SerialPortType::UsbPort(u) => PortKind::Usb {
                    manufacturer: u.manufacturer,
                    product: u.product,
                },
                serialport::SerialPortType::PciPort => PortKind::Pci,
                serialport::SerialPortType::BluetoothPort => PortKind::Bluetooth,
                serialport::SerialPortType::Unknown => PortKind::Unknown,
            },
        }).collect()),
        Err(e) => Err(format!("cannot enumerate serial ports: {}", e)),
    }
}

/// List the serial devices the system reports, each with its description.
/// An empty listing is a valid success meaning no devices were detected;
/// only a failing enumeration is an error.
pub fn list_available_ports() -> (r: Result<Vec<PortInfo>, SerialError>)
    ensures
        r matches Err(e) ==> e is EnumerationFailed,
        r matches Ok(infos) ==> exists|ds: Seq<DetectedPort>| infos_describe(ds, infos@),
{
    match enumerate_ports() {
        Ok(ds) => {
            let ghost detected = ds@;
            let infos = ports_to_infos(ds);
            let res: Result<Vec<PortInfo>, SerialError> = Ok(infos);
            proof {
                assert(res matches Ok(inf) ==> infos_describe(detected, inf@));
            }
            res
        }
        Err(m) => Err(SerialError::EnumerationFailed(m)),
    }
}

} // verus!
