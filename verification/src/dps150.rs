//! The DPS-150 protocol engine: commands to the device, and decoding of what
//! it sends back.
use crate::commands::{
    ALL, BAUD_115200, BUFFER_MAX_SIZE, CHECKSUM_MODULUS, CMD_BAUD, CMD_GET, CMD_SESSION, CMD_SET,
    FIRMWARE_VERSION, HARDWARE_VERSION, HEADER_OUTPUT, MODEL_NAME, OUTPUT_ENABLE,
    PROTECTION_STATE_DATA, TEMPERATURE,
};
use crate::protocol::{
    byte_sum, command_frame, find_frame, frame_end, lemma_byte_sum_bound, lemma_byte_sum_prefix, lemma_scan_bounds,
    payload_at, scan_from, FrameSearch, Scan,
};
use crate::update::{
    cc_cv_label, decode_payload, float_bits_at, le_bytes, payload_malformed, protection_label,
    text_from_bytes, DPSUpdate, UpdateView,
};
use vstd::prelude::*;

verus! {

/// The updates that one optional decoding contributes.
pub open spec fn updates_of(decoded: Option<UpdateView>) -> Seq<UpdateView> {
    match decoded {
        Some(u) => seq![u],
        None => seq![],
    }
}

/// The contents of an optional decoded update.
pub open spec fn update_view_of(update: Option<DPSUpdate>) -> Option<UpdateView> {
    match update {
        Some(u) => Some(u@),
        None => None,
    }
}

/// The contents of a list of decoded updates.
pub open spec fn updates_view(updates: Seq<DPSUpdate>) -> Seq<UpdateView> {
    updates.map_values(|u: DPSUpdate| u@)
}

/// What the receive buffer holding `buf` yields: the updates decoded from it,
/// in order, and the bytes that stay buffered.
///
/// While six or more bytes are buffered, the first frame found is decoded and
/// the buffer is drained up to its end. A partial frame stops decoding and
/// keeps the buffer. When no frame is found the buffer is kept, unless it
/// holds more than `BUFFER_MAX_SIZE` bytes, in which case it is emptied.
pub open spec fn process_stream(buf: Seq<u8>) -> (Seq<UpdateView>, Seq<u8>)
    decreases buf.len(),
{
    if buf.len() < 6 {
        (seq![], buf)
    } else {
        match scan_from(buf, 0) {
            Scan::Complete(i) => {
                proof {
                    lemma_scan_bounds(buf, 0);
                }
                let tail = process_stream(buf.skip(frame_end(buf, i)));
                (updates_of(decode_payload(buf[i + 2], payload_at(buf, i))) + tail.0, tail.1)
            },
            Scan::Partial => (seq![], buf),
            Scan::Absent => (
                seq![],
                if buf.len() > BUFFER_MAX_SIZE {
                    seq![]
                } else {
                    buf
                },
            ),
        }
    }
}

/// No frame that decoding `buf` reaches has a malformed payload.
pub open spec fn stream_decodable(buf: Seq<u8>) -> bool
    decreases buf.len(),
{
    if buf.len() < 6 {
        true
    } else {
        match scan_from(buf, 0) {
            Scan::Complete(i) => {
                proof {
                    lemma_scan_bounds(buf, 0);
                }
                !payload_malformed(buf[i + 2], payload_at(buf, i)) && stream_decodable(
                    buf.skip(frame_end(buf, i)),
                )
            },
            _ => true,
        }
    }
}

/// The frames of the start-up sequence: unlock the session, select 115200
/// baud, then ask for the temperature, model name, hardware version,
/// firmware version and all values.
pub open spec fn init_frames() -> Seq<Seq<u8>> {
    seq![
        command_frame(HEADER_OUTPUT, CMD_SESSION, 0, seq![1]),
        command_frame(HEADER_OUTPUT, CMD_BAUD, 0, seq![BAUD_115200]),
        command_frame(HEADER_OUTPUT, CMD_GET, TEMPERATURE, seq![0]),
        command_frame(HEADER_OUTPUT, CMD_GET, MODEL_NAME, seq![0]),
        command_frame(HEADER_OUTPUT, CMD_GET, HARDWARE_VERSION, seq![0]),
        command_frame(HEADER_OUTPUT, CMD_GET, FIRMWARE_VERSION, seq![0]),
        command_frame(HEADER_OUTPUT, CMD_GET, ALL, seq![0]),
    ]
}

/// A connection to one power supply: the bytes received and not yet decoded.
pub struct DPS150 {
    buffer: Vec<u8>,
}

impl View for DPS150 {
    type V = Seq<u8>;

    /// The received bytes not decoded yet.
    closed spec fn view(&self) -> Seq<u8> {
        self.buffer@
    }
}

/// The text of a protection state code.
fn protection_label_text(code: u8) -> (text: String)
    requires
        code < 7,
    ensures
        text@ == protection_label(code),
{
    proof {
        reveal_strlit("");
        reveal_strlit("OVP");
        reveal_strlit("OCP");
        reveal_strlit("OPP");
        reveal_strlit("OTP");
        reveal_strlit("LVP");
        reveal_strlit("REP");
    }
    if code == 0 {
        "".to_owned()
    } else if code == 1 {
        "OVP".to_owned()
    } else if code == 2 {
        "OCP".to_owned()
    } else if code == 3 {
        "OPP".to_owned()
    } else if code == 4 {
        "OTP".to_owned()
    } else if code == 5 {
        "LVP".to_owned()
    } else {
        "REP".to_owned()
    }
}

/// The text of a regulation mode code.
fn cc_cv_label_text(code: u8) -> (text: String)
    requires
        code < 2,
    ensures
        text@ == cc_cv_label(code),
{
    proof {
        reveal_strlit("CC");
        reveal_strlit("CV");
    }
    if code == 0 {
        "CC".to_owned()
    } else {
        "CV".to_owned()
    }
}

/// Appends `src` to `dst`.
fn append_bytes(dst: &mut Vec<u8>, src: &[u8])
    ensures
        final(dst)@ == old(dst)@ + src@,
{
    let ghost start = dst@;
    let mut k: usize = 0;
    while k < src.len()
        invariant
            k <= src@.len(),
            dst@ == start + src@.take(k as int),
        decreases src@.len() - k,
    {
        assert(src@.take(k + 1) =~= src@.take(k as int).push(src@[k as int]));
        dst.push(src[k]);
        k = k + 1;
    }
    assert(src@.take(k as int) =~= src@);
}

/// Whether a frame of type `type_id` carries a payload it cannot be decoded from.
fn payload_is_malformed(type_id: u8, payload: &[u8]) -> (malformed: bool)
    ensures
        malformed == payload_malformed(type_id, payload@),
{
    if type_id == 219 {
        payload.len() == 0
    } else if type_id == 220 {
        payload.len() == 0 || payload[0] >= 7
    } else if type_id == 221 {
        payload.len() == 0 || payload[0] >= 2
    } else {
        false
    }
}

impl DPS150 {
    /// A connection with nothing received yet.
    pub fn new() -> (dps: Self)
        ensures
            dps@ == Seq::<u8>::empty(),
    {
        DPS150 { buffer: Vec::new() }
    }

    /// How many received bytes wait to be decoded.
    pub fn buffered_len(&self) -> (len: usize)
        ensures
            len == self@.len(),
    {
        self.buffer.len()
    }

    /// The frames to send when a session starts, in order.
    pub fn init_command(&self) -> (frames: Vec<Vec<u8>>)
        ensures
            frames@.map_values(|f: Vec<u8>| f@) == init_frames(),
    {
        let mut frames: Vec<Vec<u8>> = Vec::new();
        frames.push(self.build_byte_command(HEADER_OUTPUT, CMD_SESSION, 0, 1));
        frames.push(self.build_byte_command(HEADER_OUTPUT, CMD_BAUD, 0, BAUD_115200));
        frames.push(self.build_byte_command(HEADER_OUTPUT, CMD_GET, TEMPERATURE, 0));
        frames.push(self.build_byte_command(HEADER_OUTPUT, CMD_GET, MODEL_NAME, 0));
        frames.push(self.build_byte_command(HEADER_OUTPUT, CMD_GET, HARDWARE_VERSION, 0));
        frames.push(self.build_byte_command(HEADER_OUTPUT, CMD_GET, FIRMWARE_VERSION, 0));
        frames.push(self.get_all());
        assert(frames@.map_values(|f: Vec<u8>| f@) =~= init_frames());
        frames
    }

    /// The frame that asks which protection tripped.
    pub fn get_protection(&self) -> (frame: Vec<u8>)
        ensures
            frame@ == command_frame(HEADER_OUTPUT, CMD_GET, PROTECTION_STATE_DATA, seq![0]),
    {
        self.build_byte_command(HEADER_OUTPUT, CMD_GET, PROTECTION_STATE_DATA, 0)
    }

    /// The frame that asks for all values at once.
    pub fn get_all(&self) -> (frame: Vec<u8>)
        ensures
            frame@ == command_frame(HEADER_OUTPUT, CMD_GET, ALL, seq![0]),
    {
        self.build_byte_command(HEADER_OUTPUT, CMD_GET, ALL, 0)
    }

    /// The frame that switches the output on (`true`) or off.
    pub fn enable_output(&self, enable: bool) -> (frame: Vec<u8>)
        ensures
            frame@ == command_frame(
                HEADER_OUTPUT,
                CMD_SET,
                OUTPUT_ENABLE,
                seq![if enable { 1u8 } else { 0u8 }],
            ),
    {
        let val: u8 = if enable { 1 } else { 0 };
        self.build_byte_command(HEADER_OUTPUT, CMD_SET, OUTPUT_ENABLE, val)
    }

    /// The frame that sets the value `type_id` to the single-precision float
    /// whose IEEE-754 bit pattern is `value`, sent little-endian.
    pub fn set_float_value(&self, type_id: u8, value: u32) -> (frame: Vec<u8>)
        ensures
            frame@ == command_frame(HEADER_OUTPUT, CMD_SET, type_id, le_bytes(value)),
            frame@.len() == 9,
            frame@[3] == 4,
            frame@[4] == value % 256,
            frame@[5] == (value / 256) % 256,
            frame@[6] == (value / 65536) % 256,
            frame@[7] == value / 16777216,
    {
        let mut bytes: Vec<u8> = Vec::new();
        bytes.push((value % 256) as u8);
        bytes.push(((value / 256) % 256) as u8);
        bytes.push(((value / 65536) % 256) as u8);
        bytes.push((value / 16777216) as u8);
        assert(bytes@ =~= le_bytes(value));
        proof {
            lemma_byte_sum_bound(bytes@);
        }
        self.build_command(HEADER_OUTPUT, CMD_SET, type_id, bytes.as_slice())
    }

    /// The frame carrying the one-byte payload `[byte]`.
    fn build_byte_command(&self, c1: u8, c2: u8, c3: u8, byte: u8) -> (packet: Vec<u8>)
        ensures
            packet@ == command_frame(c1, c2, c3, seq![byte]),
    {
        let mut payload: Vec<u8> = Vec::new();
        payload.push(byte);
        proof {
            lemma_byte_sum_bound(payload@);
        }
        self.build_command(c1, c2, c3, payload.as_slice())
    }

    /// The frame `[c1, c2, c3, length, payload.., checksum]`.
    pub fn build_command(&self, c1: u8, c2: u8, c3: u8, payload: &[u8]) -> (packet: Vec<u8>)
        requires
            c3 + payload@.len() + byte_sum(payload@) <= u32::MAX,
        ensures
            packet@ == command_frame(c1, c2, c3, payload@),
    {
        let mut packet: Vec<u8> = Vec::new();
        packet.push(c1);
        packet.push(c2);
        packet.push(c3);
        packet.push((payload.len() % 256) as u8);
        let ghost head = packet@;
        let mut checksum: u32 = c3 as u32 + payload.len() as u32;
        let mut k: usize = 0;
        while k < payload.len()
            invariant
                k <= payload@.len(),
                head == seq![c1, c2, c3, (payload@.len() % 256) as u8],
                c3 + payload@.len() + byte_sum(payload@) <= u32::MAX,
                packet@ == head + payload@.take(k as int),
                checksum == c3 + payload@.len() + byte_sum(payload@.take(k as int)),
            decreases payload@.len() - k,
        {
            proof {
                lemma_byte_sum_prefix(payload@, k as int);
                lemma_byte_sum_prefix(payload@, k + 1);
                assert(payload@.take(k + 1) =~= payload@.take(k as int).push(payload@[k as int]));
            }
            let byte = payload[k];
            packet.push(byte);
            checksum = checksum + byte as u32;
            k = k + 1;
        }
        assert(payload@.take(k as int) =~= payload@);
        packet.push((checksum % CHECKSUM_MODULUS) as u8);
        assert(packet@ =~= command_frame(c1, c2, c3, payload@));
        packet
    }

    /// Appends received bytes and decodes every frame that is now complete.
    pub fn push_serial_data(&mut self, data: &[u8]) -> (updates: Vec<DPSUpdate>)
        requires
            old(self)@.len() + data@.len() <= isize::MAX,
            stream_decodable(old(self)@ + data@),
        ensures
            updates_view(updates@) == process_stream(old(self)@ + data@).0,
            final(self)@ == process_stream(old(self)@ + data@).1,
    {
        append_bytes(&mut self.buffer, data);
        self.process_buffer()
    }

    /// Whether `push_serial_data(data)` can decode every frame it would reach:
    /// no frame it would decode carries a malformed payload.
    pub fn can_decode(&self, data: &[u8]) -> (ok: bool)
        requires
            self@.len() + data@.len() <= isize::MAX,
        ensures
            ok == stream_decodable(self@ + data@),
    {
        let mut buf: Vec<u8> = Vec::new();
        append_bytes(&mut buf, self.buffer.as_slice());
        append_bytes(&mut buf, data);
        let ghost start = buf@;
        loop
            invariant
                start == self@ + data@,
                stream_decodable(start) == stream_decodable(buf@),
            decreases buf@.len(),
        {
            if buf.len() < 6 {
                return true;
            }
            match find_frame(buf.as_slice()) {
                FrameSearch::Complete(i) => {
                    proof {
                        lemma_scan_bounds(buf@, 0);
                    }
                    let type_id = buf[i + 2];
                    let len = buf[i + 3] as usize;
                    if payload_is_malformed(type_id, &buf.as_slice()[i + 4..i + 4 + len]) {
                        return false;
                    }
                    let rest = buf.split_off(i + 5 + len);
                    buf = rest;
                },
                _ => {
                    return true;
                },
            }
        }
    }

    /// Decodes every complete frame in the buffer, draining what it consumed.
    fn process_buffer(&mut self) -> (updates: Vec<DPSUpdate>)
        requires
            stream_decodable(old(self)@),
        ensures
            updates_view(updates@) == process_stream(old(self)@).0,
            final(self)@ == process_stream(old(self)@).1,
    {
        let ghost start = self.buffer@;
        let mut updates: Vec<DPSUpdate> = Vec::new();
        loop
            invariant
                stream_decodable(self.buffer@),
                process_stream(start).0 == updates_view(updates@) + process_stream(self.buffer@).0,
                process_stream(start).1 == process_stream(self.buffer@).1,
            ensures
                process_stream(start).0 == updates_view(updates@),
                process_stream(start).1 == self.buffer@,
            decreases self.buffer@.len(),
        {
            let n = self.buffer.len();
            if n < 6 {
                assert(updates_view(updates@) + seq![] =~= updates_view(updates@));
                break;
            }
            match find_frame(self.buffer.as_slice()) {
                FrameSearch::Complete(i) => {
                    proof {
                        lemma_scan_bounds(self.buffer@, 0);
                    }
                    let type_id = self.buffer[i + 2];
                    let len = self.buffer[i + 3] as usize;
                    let payload = &self.buffer.as_slice()[i + 4..i + 4 + len];
                    let ghost before = updates_view(updates@);
                    let decoded = self.parse_data(type_id, payload);
                    if let Some(update) = decoded {
                        updates.push(update);
                    }
                    assert(updates_view(updates@) =~= before + updates_of(update_view_of(decoded)));
                    let rest = self.buffer.split_off(i + 5 + len);
                    self.buffer = rest;
                },
                FrameSearch::Partial => {
                    assert(updates_view(updates@) + seq![] =~= updates_view(updates@));
                    break;
                },
                FrameSearch::Absent => {
                    if n > BUFFER_MAX_SIZE {
                        self.buffer.clear();
                    }
                    assert(updates_view(updates@) + seq![] =~= updates_view(updates@));
                    break;
                },
            }
        }
        updates
    }

    /// Decodes the payload of one frame of type `type_id`.
    fn parse_data(&self, type_id: u8, payload: &[u8]) -> (update: Option<DPSUpdate>)
        requires
            !payload_malformed(type_id, payload@),
        ensures
            update_view_of(update) == decode_payload(type_id, payload@),
    {
        let mut update = DPSUpdate::default();
        match type_id {
            192 => update.input_voltage = Some(self.read_float(payload, 0)),
            195 => {
                update.output_voltage = Some(self.read_float(payload, 0));
                update.output_current = Some(self.read_float(payload, 4));
                update.output_power = Some(self.read_float(payload, 8));
            },
            196 => update.temperature = Some(self.read_float(payload, 0)),
            217 => update.output_capacity = Some(self.read_float(payload, 0)),
            218 => update.output_energy = Some(self.read_float(payload, 0)),
            219 => update.output_closed = payload[0] == 1,
            220 => update.protection_state = Some(protection_label_text(payload[0])),
            221 => update.cc_cv = Some(cc_cv_label_text(payload[0])),
            222 => update.model_name = Some(text_from_bytes(payload)),
            223 => update.hardware_version = Some(text_from_bytes(payload)),
            224 => update.firmware_version = Some(text_from_bytes(payload)),
            255 => {
                update.input_voltage = Some(self.read_float(payload, 0));
                update.vset = Some(self.read_float(payload, 4));
                update.cset = Some(self.read_float(payload, 8));
                update.output_voltage = Some(self.read_float(payload, 12));
                update.output_current = Some(self.read_float(payload, 16));
                update.output_power = Some(self.read_float(payload, 20));
                update.temperature = Some(self.read_float(payload, 24));
                update.g1_vset = Some(self.read_float(payload, 28));
                update.g1_cset = Some(self.read_float(payload, 32));
                update.g2_vset = Some(self.read_float(payload, 36));
                update.g2_cset = Some(self.read_float(payload, 40));
                update.g3_vset = Some(self.read_float(payload, 44));
                update.g3_cset = Some(self.read_float(payload, 48));
                update.g4_vset = Some(self.read_float(payload, 52));
                update.g4_cset = Some(self.read_float(payload, 56));
                update.g5_vset = Some(self.read_float(payload, 60));
                update.g5_cset = Some(self.read_float(payload, 64));
                update.g6_vset = Some(self.read_float(payload, 68));
                update.g6_cset = Some(self.read_float(payload, 72));
                update.ovp = Some(self.read_float(payload, 76));
                update.ocp = Some(self.read_float(payload, 80));
                update.opp = Some(self.read_float(payload, 84));
                update.otp = Some(self.read_float(payload, 88));
                update.lvp = Some(self.read_float(payload, 82));
            },
            226 => update.upper_limit_voltage = Some(self.read_float(payload, 0)),
            227 => update.upper_limit_current = Some(self.read_float(payload, 0)),
            _ => return None,
        }
        Some(update)
    }

    /// The float bit pattern stored little-endian at `offset`, or 0 when the
    /// payload is too short.
    fn read_float(&self, payload: &[u8], offset: usize) -> (bits: u32)
        requires
            offset + 4 <= usize::MAX,
        ensures
            bits == float_bits_at(payload@, offset as int),
    {
        if offset + 4 > payload.len() {
            return 0;
        }
        payload[offset] as u32 + payload[offset + 1] as u32 * 256 + payload[offset + 2] as u32
            * 65536 + payload[offset + 3] as u32 * 16777216
    }
}

} // verus!
