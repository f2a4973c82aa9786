//! Constants of the wire protocol.
use vstd::prelude::*;

verus! {

/// Number of bytes of a frame that are not payload (four before it, one after).
pub const PACKET_HEADER_SIZE: usize = 5;

/// Above this many buffered bytes without a frame, the receive buffer is dropped.
pub const BUFFER_MAX_SIZE: usize = 1024;

/// The checksum is the byte sum taken modulo this value.
pub const CHECKSUM_MODULUS: u32 = 0x100;

/// First byte of every frame sent by the device.
pub const HEADER_INPUT: u8 = 0xf0;

/// First byte of every frame sent to the device.
pub const HEADER_OUTPUT: u8 = 0xf1;

pub const CMD_GET: u8 = 0xa1;
pub const CMD_BAUD: u8 = 0xb0;
pub const CMD_SET: u8 = 0xb1;
pub const CMD_XXX_192: u8 = 0xc0;
pub const CMD_SESSION: u8 = 0xc1;

// Identifiers of values carried as little-endian IEEE-754 single-precision floats.
pub const VOLTAGE_SET: u8 = 193;
pub const CURRENT_SET: u8 = 194;
pub const TEMPERATURE: u8 = 196;
pub const GROUP1_VOLTAGE_SET: u8 = 197;
pub const GROUP1_CURRENT_SET: u8 = 198;
pub const GROUP2_VOLTAGE_SET: u8 = 199;
pub const GROUP2_CURRENT_SET: u8 = 200;
pub const GROUP3_VOLTAGE_SET: u8 = 201;
pub const GROUP3_CURRENT_SET: u8 = 202;
pub const GROUP4_VOLTAGE_SET: u8 = 203;
pub const GROUP4_CURRENT_SET: u8 = 204;
pub const GROUP5_VOLTAGE_SET: u8 = 205;
pub const GROUP5_CURRENT_SET: u8 = 206;
pub const GROUP6_VOLTAGE_SET: u8 = 207;
pub const GROUP7_CURRENT_SET: u8 = 208;

// Protection thresholds.
pub const OVP: u8 = 209;
pub const OCP: u8 = 210;
pub const OPP: u8 = 211;
pub const OTP: u8 = 212;
pub const LVP: u8 = 213;

pub const METERING_ENABLE: u8 = 216;
pub const OUTPUT_ENABLE: u8 = 219;
/// Which protection tripped.
pub const PROTECTION_STATE_DATA: u8 = 220;

// Single-byte values.
pub const BRIGHTNESS: u8 = 214;
pub const VOLUME: u8 = 215;
pub const MODEL_NAME: u8 = 222;
pub const HARDWARE_VERSION: u8 = 223;
pub const FIRMWARE_VERSION: u8 = 224;

// Baud rate selectors.
pub const BAUD_9600: u8 = 1;
pub const BAUD_19200: u8 = 2;
pub const BAUD_38400: u8 = 3;
pub const BAUD_57600: u8 = 4;
pub const BAUD_115200: u8 = 5;
pub const ALL: u8 = 255;

} // verus!
