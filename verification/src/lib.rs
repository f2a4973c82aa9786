//! Verified model of the serial protocol spoken by FNIRSI DPS-150 style bench
//! power supplies: building command frames, and turning a stream of bytes read
//! back from the device into decoded updates.
pub mod commands;
pub mod protocol;
pub mod update;
pub mod dps150;
pub mod laws;

pub use dps150::DPS150;
pub use update::DPSUpdate;
