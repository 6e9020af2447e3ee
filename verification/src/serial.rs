//! The connection manager: at most one open serial connection, with
//! connect/disconnect/send and a polling, non-blocking read that turns raw
//! chunks into timestamped entries.

use vstd::prelude::*;
use crate::device::{PortHandle, ReadOutcome};
use crate::hex::{self, HexError};
use crate::text::lower_seq;

verus! {

/// Errors of the connection manager.
#[derive(Debug, Clone, PartialEq, Eq)]
pub enum SerialError {
    NotConnected,
    EnumerationFailed(String),
    OpenFailed(String),
    WriteFailed(String),
    ReadFailed(String),
    DecodeFailed(HexError),
}

impl SerialError {
    /// A human-readable description of the error.
    pub fn message(&self) -> (r: String)
        ensures
            self is NotConnected ==> r@ == "not connected to a serial port"@,
            forall|m: String| *self == SerialError::EnumerationFailed(m) ==> r@
                == "cannot list ports: "@ + m@,
            forall|m: String| *self == SerialError::OpenFailed(m) ==> r@ == "cannot open port: "@
                + m@,
            forall|m: String| *self == SerialError::WriteFailed(m) ==> r@ == "send failed: "@ + m@,
            forall|m: String| *self == SerialError::ReadFailed(m) ==> r@ == "read failed: "@ + m@,
            *self == SerialError::DecodeFailed(HexError::OddLength) ==> r@
                == "hex string must have an even number of digits"@,
            forall|g: String| *self == SerialError::DecodeFailed(HexError::InvalidDigit(g)) ==> r@
                == "invalid hex digits: "@ + g@,
    {
        match self {
            SerialError::NotConnected => String::from_str("not connected to a serial port"),
            SerialError::EnumerationFailed(m) => {
                let mut s = String::from_str("cannot list ports: ");
                s.append(m.as_str());
                s
            }
            SerialError::OpenFailed(m) => {
                let mut s = String::from_str("cannot open port: ");
                s.append(m.as_str());
                s
            }
            SerialError::WriteFailed(m) => {
                let mut s = String::from_str("send failed: ");
                s.append(m.as_str());
                s
            }
            SerialError::ReadFailed(m) => {
                let mut s = String::from_str("read failed: ");
                s.append(m.as_str());
                s
            }
            SerialError::DecodeFailed(HexError::OddLength) => String::from_str(
                "hex string must have an even number of digits",
            ),
            SerialError::DecodeFailed(HexError::InvalidDigit(g)) => {
                let mut s = String::from_str("invalid hex digits: ");
                s.append(g.as_str());
                s
            }
        }
    }
}

/// One captured chunk of traffic: capture-time wall clock, lossy text decode,
/// uppercase space-separated hex, and a direction tag.
#[derive(Debug, Clone)]
pub struct DataEntry {
    pub timestamp: String,
    pub data: String,
    pub hex: String,
    pub direction: String,
}

/// The text `String::from_utf8_lossy` decodes from these bytes; a function of
/// the bytes alone.
pub uninterp spec fn utf8_lossy_of(bytes: Seq<u8>) -> Seq<char>;

/// Relies on `String::from_utf8_lossy`: the decoded text depends on the bytes
/// alone.
#[verifier::external_body]
fn decode_utf8_lossy(bytes: &[u8]) -> (r: String)
    ensures
        r@ == utf8_lossy_of(bytes@),
{
    String::from_utf8_lossy(bytes).to_string()
}

impl DataEntry {
    /// Build the entry for one captured chunk.
    pub fn from_bytes(bytes: &[u8], timestamp: String, direction: &str) -> (e: DataEntry)
        ensures
            e.timestamp@ == timestamp@,
            e.direction@ == direction@,
            e.data@ == utf8_lossy_of(bytes@),
            e.hex@ == hex::hex_encoding(bytes@),
    {
        DataEntry {
            timestamp,
            data: decode_utf8_lossy(bytes),
            hex: hex::bytes_to_hex_string(bytes),
            direction: direction.to_owned(),
        }
    }
}

/// An entry as the polling read produces it: tagged `rx`, with text and hex
/// derived from one non-empty captured chunk.
pub open spec fn valid_rx_entry(e: DataEntry) -> bool {
    &&& e.direction@ == "rx"@
    &&& exists|b: Seq<u8>|
        b.len() > 0 && e.hex@ == hex::hex_encoding(b) && e.data@ == utf8_lossy_of(b)
}

/// The data-bits value actually used: recognized values pass through,
/// anything else falls back to eight.
pub open spec fn normalized_data_bits(v: u8) -> u8 {
    if v == 5 || v == 6 || v == 7 {
        v
    } else {
        8
    }
}

/// The stop-bits value actually used: two passes through, anything else
/// falls back to one.
pub open spec fn normalized_stop_bits(v: u8) -> u8 {
    if v == 2 {
        2
    } else {
        1
    }
}

/// Parity encoded as a small number: zero none, one odd, two even. Matching
/// is case-insensitive and anything unrecognized falls back to none.
pub open spec fn parity_code_of(s: Seq<char>) -> u8 {
    if lower_seq(s) == "odd"@ {
        1
    } else if lower_seq(s) == "even"@ {
        2
    } else {
        0
    }
}

/// Exec mirror of `normalized_data_bits`.
pub fn normalize_data_bits(v: u8) -> (r: u8)
    ensures
        r == normalized_data_bits(v),
{
    if v == 5 || v == 6 || v == 7 {
        v
    } else {
        8
    }
}

/// Exec mirror of `normalized_stop_bits`.
pub fn normalize_stop_bits(v: u8) -> (r: u8)
    ensures
        r == normalized_stop_bits(v),
{
    if v == 2 {
        2
    } else {
        1
    }
}

/// Exec mirror of `parity_code_of`.
pub fn parity_code(s: &str) -> (r: u8)
    ensures
        r == parity_code_of(s@),
{
    proof {
        reveal_strlit("odd");
        reveal_strlit("even");
        assert(lower_seq("odd"@) =~= "odd"@);
        assert(lower_seq("even"@) =~= "even"@);
    }
    if crate::text::eq_ignore_case(s, "odd") {
        1
    } else if crate::text::eq_ignore_case(s, "even") {
        2
    } else {
        proof {
            assert(lower_seq(s@) == "odd"@ ==> lower_seq(s@) == lower_seq("odd"@));
            assert(lower_seq(s@) == "even"@ ==> lower_seq(s@) == lower_seq("even"@));
        }
        0
    }
}

/// The fully released state: no device open, no name, nothing buffered.
/// `disconnect` always leaves the manager here, whatever held before — so
/// a second `disconnect` in a row finds this state and keeps it unchanged.
pub open spec fn released(m: SerialManager) -> bool {
    &&& !m.connected()
    &&& m.name_view() == Seq::<char>::empty()
    &&& m.buffered() == Seq::<u8>::empty()
}

/// The single owner of at most one open serial connection.
pub struct SerialManager {
    port: Option<PortHandle>,
    port_name: String,
    buffer: Vec<u8>,
}

impl SerialManager {
    /// Whether a device is currently open.
    pub closed spec fn connected(self) -> bool {
        self.port is Some
    }

    /// The name the current device was opened under; empty when disconnected.
    pub closed spec fn name_view(self) -> Seq<char> {
        self.port_name@
    }

    /// Bytes held over from earlier reads; cleared by connect and disconnect.
    pub closed spec fn buffered(self) -> Seq<u8> {
        self.buffer@
    }

    /// A fresh manager: disconnected, nothing buffered.
    pub fn new() -> (r: SerialManager)
        ensures
            !r.connected(),
            r.name_view() =~= Seq::<char>::empty(),
            r.buffered() =~= Seq::<u8>::empty(),
    {
        SerialManager { port: None, port_name: String::new(), buffer: Vec::new() }
    }

    /// Pure state query.
    pub fn is_connected(&self) -> (r: bool)
        ensures
            r == self.connected(),
    {
        self.port.is_some()
    }

    /// Close the connection, if any. Always succeeds; closing while already
    /// disconnected is a no-op success. The final state does not depend on
    /// the state before the call.
    pub fn disconnect(&mut self) -> (r: Result<(), SerialError>)
        ensures
            r is Ok,
            released(*final(self)),
    {
        self.port = None;
        self.port_name = String::new();
        self.buffer = Vec::new();
        proof {
            assert(self.port_name@ =~= Seq::<char>::empty());
            assert(self.buffer@ =~= Seq::<u8>::empty());
        }
        Ok(())
    }

    /// Open the named device with the given parameters, implicitly
    /// disconnecting first; unrecognized data-bits, stop-bits or parity
    /// values fall back to their defaults rather than failing. On failure
    /// the manager is left cleanly disconnected. Either way nothing buffered
    /// from an earlier connection survives.
    pub fn connect(
        &mut self,
        port_name: &str,
        baud_rate: u32,
        data_bits: u8,
        stop_bits: u8,
        parity: &str,
    ) -> (r: Result<(), SerialError>)
        ensures
            r is Ok ==> final(self).connected() && final(self).name_view() == port_name@,
            r is Err ==> released(*final(self)),
            final(self).buffered() =~= Seq::<u8>::empty(),
            r matches Err(e) ==> e is OpenFailed,
    {
        let _ = self.disconnect();
        let db = normalize_data_bits(data_bits);
        let sb = normalize_stop_bits(stop_bits);
        let pa = parity_code(parity);
        match crate::device::open_port(port_name, baud_rate, db, sb, pa) {
            Ok(h) => {
                self.port = Some(h);
                self.port_name = port_name.to_owned();
                Ok(())
            }
            Err(m) => Err(SerialError::OpenFailed(m)),
        }
    }

    /// Send a payload: in hex mode the text is decoded through the hex codec
    /// first (propagating its errors exactly); otherwise the text's bytes go
    /// out as they are. Fails with `NotConnected` exactly when no device is
    /// open, and never changes the observable connection state.
    pub fn send(&mut self, data: &str, hex_mode: bool) -> (r: Result<(), SerialError>)
        ensures
            final(self).connected() == old(self).connected(),
            final(self).name_view() == old(self).name_view(),
            final(self).buffered() == old(self).buffered(),
            r matches Err(SerialError::NotConnected) <==> !old(self).connected(),
            r matches Err(SerialError::DecodeFailed(e)) ==> old(self).connected() && hex_mode
                && hex::decode_error_matches(data@, e),
            old(self).connected() && hex_mode && !hex::decodes_ok(data@) ==> r matches Err(
                SerialError::DecodeFailed(_),
            ),
            r is Ok ==> old(self).connected() && (hex_mode ==> hex::decodes_ok(data@)),
            r matches Err(SerialError::WriteFailed(_)) ==> old(self).connected() && (hex_mode
                ==> hex::decodes_ok(data@)),
            r matches Err(e) ==> (e is NotConnected || e is DecodeFailed || e is WriteFailed),
    {
        if self.port.is_none() {
            return Err(SerialError::NotConnected);
        }
        let bytes: Vec<u8> = if hex_mode {
            match hex::parse_hex_string(data) {
                Ok(v) => v,
                Err(e) => {
                    return Err(SerialError::DecodeFailed(e));
                }
            }
        } else {
            data.as_bytes_vec()
        };
        match &mut self.port {
            Some(h) => {
                match crate::device::port_write_all(h, bytes.as_slice()) {
                    Ok(_) => Ok(()),
                    Err(m) => Err(SerialError::WriteFailed(m)),
                }
            }
            None => unreached(),
        }
    }

    /// Drain whatever the device has pending, in bounded chunks, stopping at
    /// a timeout or when nothing more is reported (the normal "nothing new
    /// yet" case, which is a success with an empty result, not an error).
    /// While disconnected the result is an empty success. Each non-empty
    /// chunk becomes one timestamped `rx` entry; a real device failure is
    /// reported as `ReadFailed` and leaves the connection in place.
    pub fn read_available(&mut self) -> (r: Result<Vec<DataEntry>, SerialError>)
        ensures
            final(self).connected() == old(self).connected(),
            final(self).name_view() == old(self).name_view(),
            final(self).buffered() == old(self).buffered(),
            !old(self).connected() ==> (r matches Ok(v) && v@ =~= Seq::<DataEntry>::empty()),
            r matches Ok(v) ==> forall|i: int|
                0 <= i < v@.len() ==> valid_rx_entry(#[trigger] v@[i]),
            r matches Err(e) ==> e is ReadFailed && old(self).connected(),
    {
        match &mut self.port {
            None => Ok(Vec::new()),
            Some(h) => {
                match drain_port(h) {
                    Ok(entries) => Ok(entries),
                    Err(m) => Err(SerialError::ReadFailed(m)),
                }
            }
        }
    }
}

/// Collect pending chunks from an open handle into entries, at most a fixed
/// number of chunks per call so each poll stays bounded.
fn drain_port(h: &mut PortHandle) -> (r: Result<Vec<DataEntry>, String>)
    ensures
        r matches Ok(v) ==> forall|i: int| 0 <= i < v@.len() ==> valid_rx_entry(#[trigger] v@[i]),
{
    let mut entries: Vec<DataEntry> = Vec::new();
    let mut more = true;
    let mut round: usize = 0;
    let mut failure: Option<String> = None;
    while more && round < 64
        invariant
            round <= 64,
            forall|i: int| 0 <= i < entries@.len() ==> valid_rx_entry(#[trigger] entries@[i]),
        decreases 64 - round,
    {
        round = round + 1;
        match crate::device::port_read_chunk(h) {
            ReadOutcome::Data(chunk) => {
                if chunk.len() == 0 {
                    more = false;
                } else {
                    let ts = crate::device::now_timestamp();
                    let entry = DataEntry::from_bytes(chunk.as_slice(), ts, "rx");
                    proof {
                        assert(valid_rx_entry(entry));
                    }
                    entries.push(entry);
                }
            }
            ReadOutcome::Timeout => {
                more = false;
            }
            ReadOutcome::Failed(m) => {
                failure = Some(m);
                more = false;
            }
        }
    }
    match failure {
        Some(m) => Err(m),
        None => Ok(entries),
    }
}

} // verus!
