//! Trusted boundary to the serial-port device layer and the wall clock.
//!
//! Everything that touches the physical device or the clock lives here,
//! behind small functions whose contracts state only what the underlying
//! library promises. All connection logic is verified elsewhere against
//! these contracts.

use vstd::prelude::*;

verus! {

/// An open serial device handle. Opaque to verification; reads and writes go
/// through the trusted functions of this module.
#[verifier::external_body]
pub struct PortHandle {
    inner: Box<dyn serialport::SerialPort>,
}

/// One outcome of a bounded, short-timeout read attempt: a chunk of fresh
/// bytes (possibly empty when the device reported end of pending data), a
/// timeout or would-block condition meaning "nothing new yet", or a real
/// device failure.
pub enum ReadOutcome {
    Data(Vec<u8>),
    Timeout,
    Failed(String),
}

/// Relies on `serialport::new(..).open()`: opening the named device with the
/// given parameters, no flow control and a 10 ms read timeout yields a
/// handle, or an error describing why the device could not be opened. The
/// parameter values are already normalized; the conversions here are
/// one-for-one.
#[verifier::external_body]
pub(crate) fn open_port(name: &str, baud: u32, data_bits: u8, stop_bits: u8, parity: u8) -> (r:
    Result<PortHandle, String>)
    requires
        data_bits == 5 || data_bits == 6 || data_bits == 7 || data_bits == 8,
        stop_bits == 1 || stop_bits == 2,
        parity <= 2,
{
    let db = serialport::DataBits::try_from(data_bits).unwrap_or(serialport::DataBits::Eight);
    let sb = serialport::StopBits::try_from(stop_bits).unwrap_or(serialport::StopBits::One);
    let pa = match parity {
        1 => serialport::Parity::Odd,
        2 => serialport::Parity::Even,
        _ => serialport::Parity::None,
    };
    match serialport::new(name, baud).data_bits(db).stop_bits(sb).parity(pa).flow_control(
        serialport::FlowControl::None,
    ).timeout(std::time::Duration::from_millis(10)).open() {
        Ok(p) => Ok(PortHandle { inner: p }),
        Err(e) => Err(format!("cannot open serial port {}: {}", name, e)),
    }
}

/// Relies on `std::io::Write::write_all` on the open port: on `Ok` the whole
/// buffer was handed to the device; any shortfall or device error surfaces
/// as the error string.
#[verifier::external_body]
pub(crate) fn port_write_all(h: &mut PortHandle, bytes: &[u8]) -> (r: Result<(), String>) {
    h.inner.write_all(bytes).map_err(|e| format!("write failed: {}", e))
}

/// Relies on `std::io::Read::read` on the open port: a successful read fills
/// at most the fixed probe buffer; a timeout or would-block condition is the
/// normal "no data yet" signal, not an error.
#[verifier::external_body]
pub(crate) fn port_read_chunk(h: &mut PortHandle) -> (r: ReadOutcome)
    ensures
        r matches ReadOutcome::Data(v) ==> v@.len() <= 1024,
{
    let mut buf = [0u8; 1024];
    match h.inner.read(&mut buf) {
        Ok(n) => ReadOutcome::Data(buf[..n].to_vec()),
        Err(e) if e.kind() == std::io::ErrorKind::TimedOut => ReadOutcome::Timeout,
        Err(e) if e.kind() == std::io::ErrorKind::WouldBlock => ReadOutcome::Timeout,
        Err(e) => ReadOutcome::Failed(format!("read failed: {}", e)),
    }
}

/// Relies on `chrono::Local::now` and its formatter: the current local
/// wall-clock time rendered as hours, minutes, seconds and milliseconds.
#[verifier::external_body]
pub(crate) fn now_timestamp() -> (r: String) {
    chrono::Local::now().format("%H:%M:%S%.3f").to_string()
}

} // verus!
