//! The persisted settings record: serial defaults and display defaults.
//! Reading and writing it on disk is the application shell's business; the
//! record itself and its built-in defaults live here.

use vstd::prelude::*;

verus! {

/// Serial line defaults.
#[derive(Debug, Clone)]
pub struct SerialConfig {
    pub port: String,
    pub baud_rate: u32,
    pub custom_baud_rate: u32,
    pub data_bits: u8,
    pub stop_bits: u8,
    pub parity: String,
    pub hex_mode: bool,
    pub append_newline: bool,
    pub newline_type: String,
}

/// Display defaults.
#[derive(Debug, Clone)]
pub struct DisplayConfig {
    pub auto_scroll: bool,
    pub show_timestamp: bool,
    pub show_hex: bool,
    pub font_size: u32,
    pub terminal_mode: bool,
}

/// The whole settings record.
#[derive(Debug, Clone)]
pub struct AppConfig {
    pub serial: SerialConfig,
    pub display: DisplayConfig,
}

impl Default for AppConfig {
    /// The built-in defaults used when no settings file exists: 115200 baud,
    /// eight data bits, one stop bit, no parity, text mode with CRLF line
    /// endings appended, and a plain timestamped display.
    fn default() -> (r: AppConfig)
        ensures
            r.serial.port@ =~= Seq::<char>::empty(),
            r.serial.baud_rate == 115200,
            r.serial.custom_baud_rate == 0,
            r.serial.data_bits == 8,
            r.serial.stop_bits == 1,
            r.serial.parity@ == "none"@,
            r.serial.hex_mode == false,
            r.serial.append_newline == true,
            r.serial.newline_type@ == "crlf"@,
            r.display.auto_scroll == true,
            r.display.show_timestamp == true,
            r.display.show_hex == false,
            r.display.font_size == 14,
            r.display.terminal_mode == false,
    {
        AppConfig {
            serial: SerialConfig {
                port: String::new(),
                baud_rate: 115200,
                custom_baud_rate: 0,
                data_bits: 8,
                stop_bits: 1,
                parity: String::from_str("none"),
                hex_mode: false,
                append_newline: true,
                newline_type: String::from_str("crlf"),
            },
            display: DisplayConfig {
                auto_scroll: true,
                show_timestamp: true,
                show_hex: false,
                font_size: 14,
                terminal_mode: false,
            },
        }
    }
}

} // verus!
