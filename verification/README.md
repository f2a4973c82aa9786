# dps150

A verified implementation of the serial protocol of FNIRSI DPS-150 style bench
power supplies (a simplified master/slave protocol in the spirit of Modbus).

- `src/commands.rs`: protocol constants.
- `src/protocol.rs`: frame layout, checksum, and the search for a frame in
  received bytes.
- `src/update.rs`: `DPSUpdate`, the report decoded from one frame, and what each
  frame type decodes to.
- `src/dps150.rs`: `DPS150`, which builds command frames and decodes the byte
  stream received from the device.
- `src/laws.rs`: properties relating encoding and decoding.
- `app/main.rs`: a monitor that talks to the device over a serial port.

Values that the device sends as single-precision floats are carried as their
IEEE-754 bit patterns; `f32::from_bits` recovers them.
