//! Decoded device reports.
use vstd::prelude::*;
use vstd::utf8::{decode_utf8, valid_utf8};

verus! {

/// What one frame from the device reported. Every field that the frame does
/// not carry is `None` (or `false`).
///
/// Quantities that the device sends as single-precision floats are kept as
/// their IEEE-754 bit patterns (`f32::from_bits` turns one into the value).
#[derive(Debug)]
pub struct DPSUpdate {
    pub input_voltage: Option<u32>,
    pub output_voltage: Option<u32>,
    pub output_current: Option<u32>,
    pub output_power: Option<u32>,
    pub temperature: Option<u32>,
    pub model_name: Option<String>,
    /// Name of the protection that tripped, empty when none did.
    pub protection_state: Option<String>,
    pub vset: Option<u32>,
    pub cset: Option<u32>,
    pub g1_vset: Option<u32>,
    pub g1_cset: Option<u32>,
    pub g2_vset: Option<u32>,
    pub g2_cset: Option<u32>,
    pub g3_vset: Option<u32>,
    pub g3_cset: Option<u32>,
    pub g4_vset: Option<u32>,
    pub g4_cset: Option<u32>,
    pub g5_vset: Option<u32>,
    pub g5_cset: Option<u32>,
    pub g6_vset: Option<u32>,
    pub g6_cset: Option<u32>,
    pub ovp: Option<u32>,
    pub ocp: Option<u32>,
    pub opp: Option<u32>,
    pub otp: Option<u32>,
    pub lvp: Option<u32>,
    pub brightness: Option<u8>,
    pub volume: Option<u8>,
    pub metering: Option<u8>,
    pub output_capacity: Option<u32>,
    pub output_energy: Option<u32>,
    /// Regulation mode, `CC` or `CV`.
    pub cc_cv: Option<String>,
    pub upper_limit_voltage: Option<u32>,
    pub upper_limit_current: Option<u32>,
    /// Whether the output is switched on.
    pub output_closed: bool,
    pub firmware_version: Option<String>,
    pub hardware_version: Option<String>,
}

/// The contents of a [`DPSUpdate`], with text taken as its characters.
pub struct UpdateView {
    pub input_voltage: Option<u32>,
    pub output_voltage: Option<u32>,
    pub output_current: Option<u32>,
    pub output_power: Option<u32>,
    pub temperature: Option<u32>,
    pub model_name: Option<Seq<char>>,
    /// Name of the protection that tripped, empty when none did.
    pub protection_state: Option<Seq<char>>,
    pub vset: Option<u32>,
    pub cset: Option<u32>,
    pub g1_vset: Option<u32>,
    pub g1_cset: Option<u32>,
    pub g2_vset: Option<u32>,
    pub g2_cset: Option<u32>,
    pub g3_vset: Option<u32>,
    pub g3_cset: Option<u32>,
    pub g4_vset: Option<u32>,
    pub g4_cset: Option<u32>,
    pub g5_vset: Option<u32>,
    pub g5_cset: Option<u32>,
    pub g6_vset: Option<u32>,
    pub g6_cset: Option<u32>,
    pub ovp: Option<u32>,
    pub ocp: Option<u32>,
    pub opp: Option<u32>,
    pub otp: Option<u32>,
    pub lvp: Option<u32>,
    pub brightness: Option<u8>,
    pub volume: Option<u8>,
    pub metering: Option<u8>,
    pub output_capacity: Option<u32>,
    pub output_energy: Option<u32>,
    /// Regulation mode, `CC` or `CV`.
    pub cc_cv: Option<Seq<char>>,
    pub upper_limit_voltage: Option<u32>,
    pub upper_limit_current: Option<u32>,
    /// Whether the output is switched on.
    pub output_closed: bool,
    pub firmware_version: Option<Seq<char>>,
    pub hardware_version: Option<Seq<char>>,
}

/// The characters of an optional text.
pub open spec fn chars_of(text: Option<String>) -> Option<Seq<char>> {
    match text {
        Some(t) => Some(t@),
        None => None,
    }
}

impl View for DPSUpdate {
    type V = UpdateView;

    open spec fn view(&self) -> UpdateView {
        UpdateView {
            input_voltage: self.input_voltage,
            output_voltage: self.output_voltage,
            output_current: self.output_current,
            output_power: self.output_power,
            temperature: self.temperature,
            model_name: chars_of(self.model_name),
            protection_state: chars_of(self.protection_state),
            vset: self.vset,
            cset: self.cset,
            g1_vset: self.g1_vset,
            g1_cset: self.g1_cset,
            g2_vset: self.g2_vset,
            g2_cset: self.g2_cset,
            g3_vset: self.g3_vset,
            g3_cset: self.g3_cset,
            g4_vset: self.g4_vset,
            g4_cset: self.g4_cset,
            g5_vset: self.g5_vset,
            g5_cset: self.g5_cset,
            g6_vset: self.g6_vset,
            g6_cset: self.g6_cset,
            ovp: self.ovp,
            ocp: self.ocp,
            opp: self.opp,
            otp: self.otp,
            lvp: self.lvp,
            brightness: self.brightness,
            volume: self.volume,
            metering: self.metering,
            output_capacity: self.output_capacity,
            output_energy: self.output_energy,
            cc_cv: chars_of(self.cc_cv),
            upper_limit_voltage: self.upper_limit_voltage,
            upper_limit_current: self.upper_limit_current,
            output_closed: self.output_closed,
            firmware_version: chars_of(self.firmware_version),
            hardware_version: chars_of(self.hardware_version),
        }
    }
}

/// An update that reports nothing.
pub open spec fn empty_update() -> UpdateView {
    UpdateView {
            input_voltage: None,
            output_voltage: None,
            output_current: None,
            output_power: None,
            temperature: None,
            model_name: None,
            protection_state: None,
            vset: None,
            cset: None,
            g1_vset: None,
            g1_cset: None,
            g2_vset: None,
            g2_cset: None,
            g3_vset: None,
            g3_cset: None,
            g4_vset: None,
            g4_cset: None,
            g5_vset: None,
            g5_cset: None,
            g6_vset: None,
            g6_cset: None,
            ovp: None,
            ocp: None,
            opp: None,
            otp: None,
            lvp: None,
            brightness: None,
            volume: None,
            metering: None,
            output_capacity: None,
            output_energy: None,
            cc_cv: None,
            upper_limit_voltage: None,
            upper_limit_current: None,
            output_closed: false,
            firmware_version: None,
            hardware_version: None,
    }
}

impl Default for DPSUpdate {
    fn default() -> (update: Self)
        ensures
            update@ == empty_update(),
    {
        DPSUpdate {
            input_voltage: None,
            output_voltage: None,
            output_current: None,
            output_power: None,
            temperature: None,
            model_name: None,
            protection_state: None,
            vset: None,
            cset: None,
            g1_vset: None,
            g1_cset: None,
            g2_vset: None,
            g2_cset: None,
            g3_vset: None,
            g3_cset: None,
            g4_vset: None,
            g4_cset: None,
            g5_vset: None,
            g5_cset: None,
            g6_vset: None,
            g6_cset: None,
            ovp: None,
            ocp: None,
            opp: None,
            otp: None,
            lvp: None,
            brightness: None,
            volume: None,
            metering: None,
            output_capacity: None,
            output_energy: None,
            cc_cv: None,
            upper_limit_voltage: None,
            upper_limit_current: None,
            output_closed: false,
            firmware_version: None,
            hardware_version: None,
        }
    }
}

/// The 32-bit word stored little-endian in four bytes.
pub open spec fn le_u32(b0: u8, b1: u8, b2: u8, b3: u8) -> u32 {
    (b0 + 256 * b1 + 65536 * b2 + 16777216 * b3) as u32
}

/// The four little-endian bytes of a 32-bit word.
pub open spec fn le_bytes(v: u32) -> Seq<u8> {
    seq![(v % 256) as u8, ((v / 256) % 256) as u8, ((v / 65536) % 256) as u8, (v / 16777216) as u8]
}

/// The float bit pattern at `offset` in a payload, or 0 (the bits of `0.0`)
/// where the payload ends before four bytes are available.
pub open spec fn float_bits_at(p: Seq<u8>, offset: int) -> u32 {
    if offset + 4 > p.len() {
        0
    } else {
        le_u32(p[offset], p[offset + 1], p[offset + 2], p[offset + 3])
    }
}

/// Names of the protection states, by code.
pub open spec fn protection_label(code: u8) -> Seq<char> {
    if code == 0 {
        seq![]
    } else if code == 1 {
        seq!['O', 'V', 'P']
    } else if code == 2 {
        seq!['O', 'C', 'P']
    } else if code == 3 {
        seq!['O', 'P', 'P']
    } else if code == 4 {
        seq!['O', 'T', 'P']
    } else if code == 5 {
        seq!['L', 'V', 'P']
    } else {
        seq!['R', 'E', 'P']
    }
}

/// Names of the regulation modes, by code.
pub open spec fn cc_cv_label(code: u8) -> Seq<char> {
    if code == 0 {
        seq!['C', 'C']
    } else {
        seq!['C', 'V']
    }
}

/// The frames whose payload cannot be decoded: a single-byte report with no
/// byte, or a code outside its table.
pub open spec fn payload_malformed(type_id: u8, p: Seq<u8>) -> bool {
    ||| type_id == 219 && p.len() == 0
    ||| type_id == 220 && (p.len() == 0 || p[0] >= 7)
    ||| type_id == 221 && (p.len() == 0 || p[0] >= 2)
}

/// What a frame of type `type_id` carrying `p` reports; `None` for a type
/// that is not decoded.
pub open spec fn decode_payload(type_id: u8, p: Seq<u8>) -> Option<UpdateView> {
    let e = empty_update();
    if type_id == 192 {
        Some(UpdateView { input_voltage: Some(float_bits_at(p, 0)), ..e })
    } else if type_id == 195 {
        Some(
            UpdateView {
                output_voltage: Some(float_bits_at(p, 0)),
                output_current: Some(float_bits_at(p, 4)),
                output_power: Some(float_bits_at(p, 8)),
                ..e
            },
        )
    } else if type_id == 196 {
        Some(UpdateView { temperature: Some(float_bits_at(p, 0)), ..e })
    } else if type_id == 217 {
        Some(UpdateView { output_capacity: Some(float_bits_at(p, 0)), ..e })
    } else if type_id == 218 {
        Some(UpdateView { output_energy: Some(float_bits_at(p, 0)), ..e })
    } else if type_id == 219 {
        Some(UpdateView { output_closed: p[0] == 1, ..e })
    } else if type_id == 220 {
        Some(UpdateView { protection_state: Some(protection_label(p[0])), ..e })
    } else if type_id == 221 {
        Some(UpdateView { cc_cv: Some(cc_cv_label(p[0])), ..e })
    } else if type_id == 222 {
        Some(UpdateView { model_name: Some(utf8_lossy(p)), ..e })
    } else if type_id == 223 {
        Some(UpdateView { hardware_version: Some(utf8_lossy(p)), ..e })
    } else if type_id == 224 {
        Some(UpdateView { firmware_version: Some(utf8_lossy(p)), ..e })
    } else if type_id == 255 {
        Some(
            UpdateView {
                input_voltage: Some(float_bits_at(p, 0)),
                vset: Some(float_bits_at(p, 4)),
                cset: Some(float_bits_at(p, 8)),
                output_voltage: Some(float_bits_at(p, 12)),
                output_current: Some(float_bits_at(p, 16)),
                output_power: Some(float_bits_at(p, 20)),
                temperature: Some(float_bits_at(p, 24)),
                g1_vset: Some(float_bits_at(p, 28)),
                g1_cset: Some(float_bits_at(p, 32)),
                g2_vset: Some(float_bits_at(p, 36)),
                g2_cset: Some(float_bits_at(p, 40)),
                g3_vset: Some(float_bits_at(p, 44)),
                g3_cset: Some(float_bits_at(p, 48)),
                g4_vset: Some(float_bits_at(p, 52)),
                g4_cset: Some(float_bits_at(p, 56)),
                g5_vset: Some(float_bits_at(p, 60)),
                g5_cset: Some(float_bits_at(p, 64)),
                g6_vset: Some(float_bits_at(p, 68)),
                g6_cset: Some(float_bits_at(p, 72)),
                ovp: Some(float_bits_at(p, 76)),
                ocp: Some(float_bits_at(p, 80)),
                opp: Some(float_bits_at(p, 84)),
                otp: Some(float_bits_at(p, 88)),
                lvp: Some(float_bits_at(p, 82)),
                ..e
            },
        )
    } else if type_id == 226 {
        Some(UpdateView { upper_limit_voltage: Some(float_bits_at(p, 0)), ..e })
    } else if type_id == 227 {
        Some(UpdateView { upper_limit_current: Some(float_bits_at(p, 0)), ..e })
    } else {
        None
    }
}

/// The text that `String::from_utf8_lossy` makes of some bytes.
pub uninterp spec fn utf8_lossy(bytes: Seq<u8>) -> Seq<char>;

/// Calls `String::from_utf8_lossy`. Claimed of it: the result depends on the
/// bytes alone, and on valid UTF-8 it is the decoded text (invalid sequences
/// become U+FFFD, which is left unsaid here).
#[verifier::external_body]
pub(crate) fn text_from_bytes(bytes: &[u8]) -> (text: String)
    ensures
        text@ == utf8_lossy(bytes@),
        valid_utf8(bytes@) ==> text@ == decode_utf8(bytes@),
{
    String::from_utf8_lossy(bytes).into_owned()
}

} // verus!
