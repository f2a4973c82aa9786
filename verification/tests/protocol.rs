use dps150::commands::{
    ALL, CMD_GET, CMD_SET, HEADER_INPUT, HEADER_OUTPUT, OUTPUT_ENABLE, TEMPERATURE, VOLTAGE_SET,
};
use dps150::{DPSUpdate, DPS150};

/// A frame from the device, with the checksum computed here.
fn device_frame(type_id: u8, payload: &[u8]) -> Vec<u8> {
    let mut f = vec![0xf0, 0xa1, type_id, payload.len() as u8];
    f.extend_from_slice(payload);
    let sum: u32 = type_id as u32 + payload.len() as u32 + payload.iter().map(|b| *b as u32).sum::<u32>();
    f.push((sum % 256) as u8);
    f
}

fn float_frame(type_id: u8, value: f32) -> Vec<u8> {
    device_frame(type_id, &value.to_le_bytes())
}

fn bits(v: f32) -> Option<u32> {
    Some(v.to_bits())
}

#[test]
fn get_all_frame() {
    let d = DPS150::new();
    assert_eq!(d.get_all(), vec![0xf1, 0xa1, 0xff, 0x01, 0x00, 0x00]);
}

#[test]
fn get_protection_frame() {
    let d = DPS150::new();
    assert_eq!(d.get_protection(), vec![0xf1, 0xa1, 0xdc, 0x01, 0x00, 0xdd]);
}

#[test]
fn enable_output_frames() {
    let d = DPS150::new();
    assert_eq!(d.enable_output(true), vec![0xf1, 0xb1, 0xdb, 0x01, 0x01, 0xdd]);
    assert_eq!(d.enable_output(false), vec![0xf1, 0xb1, 0xdb, 0x01, 0x00, 0xdc]);
}

#[test]
fn set_float_value_frame() {
    let d = DPS150::new();
    // 5.0 is 0x40A00000; checksum 193 + 4 + 0xA0 + 0x40 = 421, mod 256 = 0xA5.
    assert_eq!(
        d.set_float_value(VOLTAGE_SET, 5.0f32.to_bits()),
        vec![0xf1, 0xb1, 0xc1, 0x04, 0x00, 0x00, 0xa0, 0x40, 0xa5]
    );
}

#[test]
fn init_command_frames() {
    let d = DPS150::new();
    let frames = d.init_command();
    assert_eq!(
        frames,
        vec![
            vec![0xf1, 0xc1, 0x00, 0x01, 0x01, 0x02],
            vec![0xf1, 0xb0, 0x00, 0x01, 0x05, 0x06],
            vec![0xf1, 0xa1, 0xc4, 0x01, 0x00, 0xc5],
            vec![0xf1, 0xa1, 0xde, 0x01, 0x00, 0xdf],
            vec![0xf1, 0xa1, 0xdf, 0x01, 0x00, 0xe0],
            vec![0xf1, 0xa1, 0xe0, 0x01, 0x00, 0xe1],
            vec![0xf1, 0xa1, 0xff, 0x01, 0x00, 0x00],
        ]
    );
    assert_eq!(frames[6], d.get_all());
}

#[test]
fn build_command_checksum_wraps() {
    let d = DPS150::new();
    let f = d.build_command(HEADER_OUTPUT, CMD_SET, 0xff, &[0xff, 0xff]);
    // 255 + 2 + 255 + 255 = 767, mod 256 = 255.
    assert_eq!(f, vec![0xf1, 0xb1, 0xff, 0x02, 0xff, 0xff, 0xff]);
    let empty = d.build_command(HEADER_OUTPUT, CMD_GET, 7, &[]);
    assert_eq!(empty, vec![0xf1, 0xa1, 0x07, 0x00, 0x07]);
}

#[test]
fn decodes_input_voltage() {
    let mut d = DPS150::new();
    let updates = d.push_serial_data(&float_frame(192, 12.5));
    assert_eq!(updates.len(), 1);
    assert_eq!(updates[0].input_voltage, bits(12.5));
    assert_eq!(updates[0].output_voltage, None);
    assert!(!updates[0].output_closed);
    assert_eq!(d.buffered_len(), 0);
}

#[test]
fn decodes_output_triple() {
    let mut d = DPS150::new();
    let mut payload = Vec::new();
    payload.extend_from_slice(&5.0f32.to_le_bytes());
    payload.extend_from_slice(&0.25f32.to_le_bytes());
    payload.extend_from_slice(&1.25f32.to_le_bytes());
    let updates = d.push_serial_data(&device_frame(195, &payload));
    assert_eq!(updates.len(), 1);
    assert_eq!(updates[0].output_voltage, bits(5.0));
    assert_eq!(updates[0].output_current, bits(0.25));
    assert_eq!(updates[0].output_power, bits(1.25));
}

#[test]
fn short_float_payload_reads_zero() {
    let mut d = DPS150::new();
    let updates = d.push_serial_data(&device_frame(TEMPERATURE, &[1, 2]));
    assert_eq!(updates.len(), 1);
    assert_eq!(updates[0].temperature, Some(0));
}

#[test]
fn decodes_single_float_types() {
    let cases: [(u8, f32); 5] = [(196, 31.5), (217, 2.0), (218, 7.75), (226, 30.0), (227, 5.1)];
    for (type_id, value) in cases {
        let mut d = DPS150::new();
        let u = d.push_serial_data(&float_frame(type_id, value));
        assert_eq!(u.len(), 1);
        let got = match type_id {
            196 => u[0].temperature,
            217 => u[0].output_capacity,
            218 => u[0].output_energy,
            226 => u[0].upper_limit_voltage,
            _ => u[0].upper_limit_current,
        };
        assert_eq!(got, bits(value));
    }
}

#[test]
fn decodes_output_state() {
    let mut d = DPS150::new();
    let u = d.push_serial_data(&device_frame(OUTPUT_ENABLE, &[1]));
    assert!(u[0].output_closed);
    let u = d.push_serial_data(&device_frame(OUTPUT_ENABLE, &[0]));
    assert!(!u[0].output_closed);
    let u = d.push_serial_data(&device_frame(OUTPUT_ENABLE, &[2]));
    assert!(!u[0].output_closed);
}

#[test]
fn decodes_protection_and_mode_labels() {
    let mut d = DPS150::new();
    let labels = ["", "OVP", "OCP", "OPP", "OTP", "LVP", "REP"];
    for (code, label) in labels.iter().enumerate() {
        let u = d.push_serial_data(&device_frame(220, &[code as u8]));
        assert_eq!(u[0].protection_state.as_deref(), Some(*label));
    }
    let u = d.push_serial_data(&device_frame(221, &[0]));
    assert_eq!(u[0].cc_cv.as_deref(), Some("CC"));
    let u = d.push_serial_data(&device_frame(221, &[1]));
    assert_eq!(u[0].cc_cv.as_deref(), Some("CV"));
}

#[test]
fn decodes_text_reports() {
    let mut d = DPS150::new();
    let u = d.push_serial_data(&device_frame(222, b"DPS-150"));
    assert_eq!(u[0].model_name.as_deref(), Some("DPS-150"));
    let u = d.push_serial_data(&device_frame(223, b"V1.0"));
    assert_eq!(u[0].hardware_version.as_deref(), Some("V1.0"));
    let u = d.push_serial_data(&device_frame(224, b"V1.2"));
    assert_eq!(u[0].firmware_version.as_deref(), Some("V1.2"));
    let u = d.push_serial_data(&device_frame(222, &[b'A', 0xff, b'B']));
    assert_eq!(u[0].model_name.as_deref(), Some("A\u{fffd}B"));
}

#[test]
fn decodes_all_values() {
    let mut d = DPS150::new();
    let values: Vec<f32> = (0..24).map(|k| k as f32 + 0.5).collect();
    let mut payload = Vec::new();
    for v in &values {
        payload.extend_from_slice(&v.to_le_bytes());
    }
    let u = d.push_serial_data(&device_frame(ALL, &payload));
    assert_eq!(u.len(), 1);
    let u: &DPSUpdate = &u[0];
    assert_eq!(u.input_voltage, bits(values[0]));
    assert_eq!(u.vset, bits(values[1]));
    assert_eq!(u.cset, bits(values[2]));
    assert_eq!(u.output_voltage, bits(values[3]));
    assert_eq!(u.output_current, bits(values[4]));
    assert_eq!(u.output_power, bits(values[5]));
    assert_eq!(u.temperature, bits(values[6]));
    assert_eq!(u.g1_vset, bits(values[7]));
    assert_eq!(u.g1_cset, bits(values[8]));
    assert_eq!(u.g6_vset, bits(values[17]));
    assert_eq!(u.g6_cset, bits(values[18]));
    assert_eq!(u.ovp, bits(values[19]));
    assert_eq!(u.ocp, bits(values[20]));
    assert_eq!(u.opp, bits(values[21]));
    assert_eq!(u.otp, bits(values[22]));
    // The low-voltage protection is read at byte 82, across two values.
    let lvp = u32::from_le_bytes([payload[82], payload[83], payload[84], payload[85]]);
    assert_eq!(u.lvp, Some(lvp));
    assert_eq!(u.model_name, None);
}

#[test]
fn unknown_type_is_consumed_without_update() {
    let mut d = DPS150::new();
    let mut data = device_frame(0x10, &[1, 2, 3]);
    data.extend(float_frame(192, 3.0));
    let u = d.push_serial_data(&data);
    assert_eq!(u.len(), 1);
    assert_eq!(u[0].input_voltage, bits(3.0));
    assert_eq!(d.buffered_len(), 0);
}

#[test]
fn two_frames_in_one_push_decode_in_order() {
    let mut d = DPS150::new();
    let mut data = float_frame(192, 1.0);
    data.extend(float_frame(196, 2.0));
    let u = d.push_serial_data(&data);
    assert_eq!(u.len(), 2);
    assert_eq!(u[0].input_voltage, bits(1.0));
    assert_eq!(u[1].temperature, bits(2.0));
}

#[test]
fn split_frame_waits_for_the_rest() {
    let mut d = DPS150::new();
    let data = float_frame(192, 9.0);
    assert!(d.push_serial_data(&data[..3]).is_empty());
    assert_eq!(d.buffered_len(), 3);
    assert!(d.push_serial_data(&data[3..7]).is_empty());
    assert_eq!(d.buffered_len(), 7);
    let u = d.push_serial_data(&data[7..]);
    assert_eq!(u.len(), 1);
    assert_eq!(u[0].input_voltage, bits(9.0));
    assert_eq!(d.buffered_len(), 0);
}

#[test]
fn garbage_before_frame_is_dropped() {
    let mut d = DPS150::new();
    let mut data = vec![0x00, 0x13, 0xf0, 0x55];
    data.extend(float_frame(192, 4.0));
    let u = d.push_serial_data(&data);
    assert_eq!(u.len(), 1);
    assert_eq!(d.buffered_len(), 0);
}

#[test]
fn bad_checksum_frame_is_skipped() {
    let mut d = DPS150::new();
    let mut bad = float_frame(192, 4.0);
    let last = bad.len() - 1;
    bad[last] = bad[last].wrapping_add(1);
    let u = d.push_serial_data(&bad);
    assert!(u.is_empty());
    assert_eq!(d.buffered_len(), bad.len());
    let u = d.push_serial_data(&float_frame(196, 8.0));
    assert_eq!(u.len(), 1);
    assert_eq!(u[0].temperature, bits(8.0));
    assert_eq!(d.buffered_len(), 0);
}

#[test]
fn short_input_stays_buffered() {
    let mut d = DPS150::new();
    assert!(d.push_serial_data(&[0xf0, 0xa1, 0xc0, 0x00, 0xc0]).is_empty());
    assert_eq!(d.buffered_len(), 5);
}

#[test]
fn oversized_garbage_is_cleared() {
    // The frame's first three bytes sit in the last five positions, which are
    // not searched; with more than 1024 bytes buffered the buffer is dropped,
    // so the rest of the frame arrives alone and is not recognised.
    let frame = float_frame(192, 6.0);
    let mut d = DPS150::new();
    let mut data = vec![0u8; 1100];
    data.extend_from_slice(&frame[..3]);
    assert!(d.push_serial_data(&data).is_empty());
    assert_eq!(d.buffered_len(), 0);
    assert!(d.push_serial_data(&frame[3..]).is_empty());

    // Below the limit the same bytes are kept and the frame completes.
    let mut d = DPS150::new();
    let mut data = vec![0u8; 500];
    data.extend_from_slice(&frame[..3]);
    assert!(d.push_serial_data(&data).is_empty());
    assert_eq!(d.buffered_len(), 503);
    let u = d.push_serial_data(&frame[3..]);
    assert_eq!(u.len(), 1);
    assert_eq!(u[0].input_voltage, bits(6.0));
}

#[test]
fn malformed_payloads_are_reported() {
    let d = DPS150::new();
    assert!(!d.can_decode(&device_frame(220, &[7])));
    assert!(!d.can_decode(&device_frame(221, &[2])));
    // An empty output-state frame alone is too short to be searched; one more byte makes it reached.
    assert!(d.can_decode(&device_frame(219, &[])));
    let mut empty_state = device_frame(219, &[]);
    empty_state.push(0);
    assert!(!d.can_decode(&empty_state));
    assert!(d.can_decode(&device_frame(220, &[6])));
    // The malformed frame hides behind a good one.
    let mut data = float_frame(192, 1.0);
    data.extend(device_frame(220, &[9]));
    assert!(!d.can_decode(&data));
    // A malformed frame that is still incomplete is not reached.
    assert!(d.can_decode(&device_frame(220, &[9])[..4]));
}

#[test]
fn built_device_frame_decodes_back() {
    // A frame encoded with build_command using the device's header is decoded
    // to the value it carries, and nothing stays buffered.
    let d = DPS150::new();
    let value = 17.25f32.to_bits();
    let setter = d.set_float_value(VOLTAGE_SET, value);
    let payload = &setter[4..8];
    let frame = d.build_command(HEADER_INPUT, CMD_GET, 192, payload);
    let mut reader = DPS150::new();
    let u = reader.push_serial_data(&frame);
    assert_eq!(u.len(), 1);
    assert_eq!(u[0].input_voltage, Some(value));
    assert_eq!(reader.buffered_len(), 0);
}

#[test]
fn decoding_settles() {
    // Pushing nothing after a push decodes nothing and keeps the buffer.
    let mut d = DPS150::new();
    let mut data = float_frame(192, 1.0);
    data.extend_from_slice(&[0xf0, 0xa1, 0xc0, 0x04, 0x01]);
    let u = d.push_serial_data(&data);
    assert_eq!(u.len(), 1);
    let kept = d.buffered_len();
    assert_eq!(kept, 5);
    assert!(d.push_serial_data(&[]).is_empty());
    assert_eq!(d.buffered_len(), kept);
}

#[test]
fn float_bytes_roundtrip() {
    let d = DPS150::new();
    for v in [0.0f32, -1.5, 3.3, f32::MAX, 1e-20] {
        let f = d.set_float_value(VOLTAGE_SET, v.to_bits());
        let mut reader = DPS150::new();
        let u = reader.push_serial_data(&device_frame(192, &f[4..8]));
        assert_eq!(u[0].input_voltage, Some(v.to_bits()));
        assert_eq!(f32::from_bits(u[0].input_voltage.unwrap()), v);
    }
}

#[test]
fn default_update_is_empty() {
    let u = DPSUpdate::default();
    assert_eq!(u.input_voltage, None);
    assert_eq!(u.model_name, None);
    assert_eq!(u.brightness, None);
    assert!(!u.output_closed);
}
