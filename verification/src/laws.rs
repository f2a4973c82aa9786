//! Properties of the protocol that span encoding and decoding.
use crate::commands::{BUFFER_MAX_SIZE, CMD_GET, HEADER_INPUT};
use crate::dps150::{process_stream, stream_decodable, updates_of};
use crate::protocol::{
    byte_sum, checksum, checksum_ok_at, command_frame, frame_end, header_at, lemma_scan_bounds, scan_from,
    Scan,
};
use crate::update::{
    cc_cv_label, decode_payload, empty_update, float_bits_at, le_bytes, payload_malformed,
    protection_label, utf8_lossy, UpdateView,
};
use vstd::prelude::*;

verus! {

/// A frame from the device, encoded as `build_command` encodes frames, is
/// recognised at the head of the received bytes: decoding it and then what
/// follows gives its update first, then those of the rest, and leaves what the
/// rest leaves. This holds when the payload's length fits its length byte and
/// at least six bytes are buffered.
pub proof fn lemma_frame_decodes_first(type_id: u8, payload: Seq<u8>, rest: Seq<u8>)
    requires
        payload.len() <= 255,
        payload.len() + rest.len() >= 1,
    ensures
        process_stream(command_frame(HEADER_INPUT, CMD_GET, type_id, payload) + rest) == (
            updates_of(decode_payload(type_id, payload)) + process_stream(rest).0,
            process_stream(rest).1,
        ),
        stream_decodable(command_frame(HEADER_INPUT, CMD_GET, type_id, payload) + rest) == (
        !payload_malformed(type_id, payload) && stream_decodable(rest)),
{
    let frame = command_frame(HEADER_INPUT, CMD_GET, type_id, payload);
    let buf = frame + rest;
    let n = payload.len() as int;
    assert(buf.len() == 5 + n + rest.len());
    assert(buf[0] == HEADER_INPUT && buf[1] == CMD_GET && buf[2] == type_id);
    assert(buf[3] == n);
    assert(frame_end(buf, 0) == 5 + n);
    assert(buf.subrange(4, 4 + n) =~= payload);
    assert(buf[4 + n] == checksum(type_id, payload));
    assert(scan_from(buf, 0) == Scan::Complete(0));
    assert(buf.skip(5 + n) =~= rest);
}

/// Every frame that `build_command` encodes, whatever its header bytes,
/// carries the checksum that the decoder checks, and its length byte spans
/// exactly its payload, when the payload's length fits the length byte.
pub proof fn lemma_command_checksum_valid(c1: u8, c2: u8, c3: u8, payload: Seq<u8>)
    requires
        payload.len() <= 255,
    ensures
        checksum_ok_at(command_frame(c1, c2, c3, payload), 0),
        frame_end(command_frame(c1, c2, c3, payload), 0) == command_frame(c1, c2, c3, payload).len(),
{
    let frame = command_frame(c1, c2, c3, payload);
    let n = payload.len() as int;
    assert(frame[2] == c3 && frame[3] == n);
    assert(frame.subrange(4, 4 + n) =~= payload);
    assert(frame[4 + n] == checksum(c3, payload));
}

/// A single frame with a non-empty payload, received alone, is decoded to its
/// update and leaves nothing buffered.
pub proof fn lemma_single_frame_decodes(type_id: u8, payload: Seq<u8>)
    requires
        1 <= payload.len() <= 255,
    ensures
        process_stream(command_frame(HEADER_INPUT, CMD_GET, type_id, payload)) == (
            updates_of(decode_payload(type_id, payload)),
            Seq::<u8>::empty(),
        ),
{
    lemma_frame_decodes_first(type_id, payload, Seq::<u8>::empty());
    assert(command_frame(HEADER_INPUT, CMD_GET, type_id, payload) + Seq::<u8>::empty()
        =~= command_frame(HEADER_INPUT, CMD_GET, type_id, payload));
    assert(updates_of(decode_payload(type_id, payload)) + Seq::<UpdateView>::empty()
        =~= updates_of(decode_payload(type_id, payload)));
}

/// The four bytes that `set_float_value` sends for a bit pattern read back as
/// that same bit pattern.
pub proof fn lemma_float_bytes_roundtrip(value: u32)
    ensures
        float_bits_at(le_bytes(value), 0) == value,
{
    let b = le_bytes(value);
    assert(b.len() == 4);
    assert((value % 256) + 256 * ((value / 256) % 256) + 65536 * ((value / 65536) % 256)
        + 16777216 * (value / 16777216) == value) by (nonlinear_arith);
}

/// Decoding is complete: what stays buffered holds nothing more to decode, so
/// decoding it again yields no update and keeps it as it is.
pub proof fn lemma_decoding_settles(buf: Seq<u8>)
    ensures
        process_stream(process_stream(buf).1) == (Seq::<UpdateView>::empty(), process_stream(buf).1),
    decreases buf.len(),
{
    if buf.len() >= 6 {
        match scan_from(buf, 0) {
            Scan::Complete(i) => {
                lemma_scan_bounds(buf, 0);
                lemma_decoding_settles(buf.skip(frame_end(buf, i)));
            },
            Scan::Partial => {},
            Scan::Absent => {
                if buf.len() > BUFFER_MAX_SIZE {
                    assert(process_stream(Seq::<u8>::empty()) == (Seq::<UpdateView>::empty(), Seq::<u8>::empty()));
                }
            },
        }
    }
}

/// The bytes that stay buffered are a suffix of those received: decoding only
/// drops bytes from the front, never reorders or invents any.
pub proof fn lemma_leftover_is_suffix(buf: Seq<u8>)
    ensures
        exists|k: int| 0 <= k <= buf.len() && #[trigger] buf.skip(k) == process_stream(buf).1,
    decreases buf.len(),
{
    if buf.len() < 6 {
        assert(buf.skip(0) =~= buf);
    } else {
        match scan_from(buf, 0) {
            Scan::Complete(i) => {
                lemma_scan_bounds(buf, 0);
                let end = frame_end(buf, i);
                let rest = buf.skip(end);
                lemma_leftover_is_suffix(rest);
                let k = choose|k: int| 0 <= k <= rest.len() && #[trigger] rest.skip(k) == process_stream(rest).1;
                assert(buf.skip(end + k) =~= rest.skip(k));
            },
            Scan::Partial => {
                assert(buf.skip(0) =~= buf);
            },
            Scan::Absent => {
                if buf.len() > BUFFER_MAX_SIZE {
                    assert(buf.skip(buf.len() as int) =~= Seq::<u8>::empty());
                } else {
                    assert(buf.skip(0) =~= buf);
                }
            },
        }
    }
}

/// The payload of a SET frame for the bit pattern `v` is its four bytes, least
/// significant first, and those bytes recombine to `v`.
pub proof fn lemma_le_bytes_arithmetic(v: u32)
    ensures
        le_bytes(v).len() == 4,
        le_bytes(v)[0] == v % 256,
        le_bytes(v)[1] == (v / 256) % 256,
        le_bytes(v)[2] == (v / 65536) % 256,
        le_bytes(v)[3] == v / 16777216,
        le_bytes(v)[0] + 256 * le_bytes(v)[1] + 65536 * le_bytes(v)[2] + 16777216 * le_bytes(v)[3]
            == v,
{
    assert((v % 256) + 256 * ((v / 256) % 256) + 65536 * ((v / 65536) % 256) + 16777216 * (v
        / 16777216) == v) by (nonlinear_arith);
}

/// A float read from a payload at `offset` is the little-endian word of the
/// four bytes there: `p[o] + 256 p[o+1] + 65536 p[o+2] + 16777216 p[o+3]`;
/// it is 0 when fewer than four bytes remain.
pub proof fn lemma_float_read_arithmetic(p: Seq<u8>, offset: int)
    requires
        0 <= offset,
    ensures
        offset + 4 <= p.len() ==> float_bits_at(p, offset) == p[offset] + 256 * p[offset + 1]
            + 65536 * p[offset + 2] + 16777216 * p[offset + 3],
        offset + 4 > p.len() ==> float_bits_at(p, offset) == 0,
{
}

/// The values of the all-values report, in the order the device sends them.
pub open spec fn all_values_in_order(u: UpdateView) -> Seq<Option<u32>> {
    seq![
        u.input_voltage,
        u.vset,
        u.cset,
        u.output_voltage,
        u.output_current,
        u.output_power,
        u.temperature,
        u.g1_vset,
        u.g1_cset,
        u.g2_vset,
        u.g2_cset,
        u.g3_vset,
        u.g3_cset,
        u.g4_vset,
        u.g4_cset,
        u.g5_vset,
        u.g5_cset,
        u.g6_vset,
        u.g6_cset,
        u.ovp,
        u.ocp,
        u.opp,
        u.otp,
    ]
}

/// In the all-values report each value is read at four times its position in
/// the report's order; the low-voltage protection is read at byte 82; no
/// other field is reported.
pub proof fn lemma_all_values_report(p: Seq<u8>)
    ensures
        decode_payload(255, p) is Some,
        forall|k: int|
            0 <= k < 23 ==> #[trigger] all_values_in_order(decode_payload(255, p)->0)[k] == Some(
                float_bits_at(p, 4 * k),
            ),
        decode_payload(255, p)->0.lvp == Some(float_bits_at(p, 82)),
        decode_payload(255, p)->0.model_name is None,
        decode_payload(255, p)->0.protection_state is None,
        decode_payload(255, p)->0.brightness is None,
        decode_payload(255, p)->0.volume is None,
        decode_payload(255, p)->0.metering is None,
        decode_payload(255, p)->0.output_capacity is None,
        decode_payload(255, p)->0.output_energy is None,
        decode_payload(255, p)->0.cc_cv is None,
        decode_payload(255, p)->0.upper_limit_voltage is None,
        decode_payload(255, p)->0.upper_limit_current is None,
        !decode_payload(255, p)->0.output_closed,
        decode_payload(255, p)->0.firmware_version is None,
        decode_payload(255, p)->0.hardware_version is None,
{
    let u = decode_payload(255, p)->0;
    assert(all_values_in_order(u)[0] == Some(float_bits_at(p, 0)));
    assert(all_values_in_order(u)[1] == Some(float_bits_at(p, 4)));
    assert(all_values_in_order(u)[2] == Some(float_bits_at(p, 8)));
    assert(all_values_in_order(u)[3] == Some(float_bits_at(p, 12)));
    assert(all_values_in_order(u)[4] == Some(float_bits_at(p, 16)));
    assert(all_values_in_order(u)[5] == Some(float_bits_at(p, 20)));
    assert(all_values_in_order(u)[6] == Some(float_bits_at(p, 24)));
    assert(all_values_in_order(u)[7] == Some(float_bits_at(p, 28)));
    assert(all_values_in_order(u)[8] == Some(float_bits_at(p, 32)));
    assert(all_values_in_order(u)[9] == Some(float_bits_at(p, 36)));
    assert(all_values_in_order(u)[10] == Some(float_bits_at(p, 40)));
    assert(all_values_in_order(u)[11] == Some(float_bits_at(p, 44)));
    assert(all_values_in_order(u)[12] == Some(float_bits_at(p, 48)));
    assert(all_values_in_order(u)[13] == Some(float_bits_at(p, 52)));
    assert(all_values_in_order(u)[14] == Some(float_bits_at(p, 56)));
    assert(all_values_in_order(u)[15] == Some(float_bits_at(p, 60)));
    assert(all_values_in_order(u)[16] == Some(float_bits_at(p, 64)));
    assert(all_values_in_order(u)[17] == Some(float_bits_at(p, 68)));
    assert(all_values_in_order(u)[18] == Some(float_bits_at(p, 72)));
    assert(all_values_in_order(u)[19] == Some(float_bits_at(p, 76)));
    assert(all_values_in_order(u)[20] == Some(float_bits_at(p, 80)));
    assert(all_values_in_order(u)[21] == Some(float_bits_at(p, 84)));
    assert(all_values_in_order(u)[22] == Some(float_bits_at(p, 88)));
    assert forall|k: int| 0 <= k < 23 implies #[trigger] all_values_in_order(u)[k] == Some(
        float_bits_at(p, 4 * k),
    ) by {
        if k == 0 {} else if k == 1 {} else if k == 2 {} else if k == 3 {} else if k == 4 {}
        else if k == 5 {} else if k == 6 {} else if k == 7 {} else if k == 8 {} else if k == 9 {}
        else if k == 10 {} else if k == 11 {} else if k == 12 {} else if k == 13 {}
        else if k == 14 {} else if k == 15 {} else if k == 16 {} else if k == 17 {}
        else if k == 18 {} else if k == 19 {} else if k == 20 {} else if k == 21 {}
        else {}
    }
}

/// Each single-value or measurement report sets only its own fields: its
/// update is the empty one with those fields filled in.
pub proof fn lemma_reports_set_only_their_fields(p: Seq<u8>)
    ensures
        decode_payload(192, p) == Some(
            (UpdateView { input_voltage: Some(float_bits_at(p, 0)), ..empty_update() }),
        ),
        decode_payload(195, p) == Some(
            (UpdateView {
                output_voltage: Some(float_bits_at(p, 0)),
                output_current: Some(float_bits_at(p, 4)),
                output_power: Some(float_bits_at(p, 8)),
                ..empty_update()
            }),
        ),
        decode_payload(196, p) == Some(
            (UpdateView { temperature: Some(float_bits_at(p, 0)), ..empty_update() }),
        ),
        decode_payload(217, p) == Some(
            (UpdateView { output_capacity: Some(float_bits_at(p, 0)), ..empty_update() }),
        ),
        decode_payload(218, p) == Some(
            (UpdateView { output_energy: Some(float_bits_at(p, 0)), ..empty_update() }),
        ),
        decode_payload(226, p) == Some(
            (UpdateView { upper_limit_voltage: Some(float_bits_at(p, 0)), ..empty_update() }),
        ),
        decode_payload(227, p) == Some(
            (UpdateView { upper_limit_current: Some(float_bits_at(p, 0)), ..empty_update() }),
        ),
        p.len() > 0 ==> decode_payload(219, p) == Some(
            (UpdateView { output_closed: p[0] == 1, ..empty_update() }),
        ),
{
}

/// A well-formed frame from the device starts at `j`: header, complete, and
/// its checksum holds.
pub open spec fn valid_frame_at(buf: Seq<u8>, j: int) -> bool {
    &&& 0 <= j
    &&& j + 5 < buf.len()
    &&& header_at(buf, j)
    &&& frame_end(buf, j) <= buf.len()
    &&& checksum_ok_at(buf, j)
}

/// A frame header at `j` whose frame runs past the received bytes.
pub open spec fn partial_frame_at(buf: Seq<u8>, j: int) -> bool {
    &&& 0 <= j
    &&& j + 5 < buf.len()
    &&& header_at(buf, j)
    &&& frame_end(buf, j) > buf.len()
}

/// A position that holds no header, or a complete frame whose checksum fails,
/// is skipped by one byte: searching from it gives what searching from the next
/// position gives.
pub proof fn lemma_invalid_position_skipped_by_one(buf: Seq<u8>, i: int)
    requires
        0 <= i,
        i + 5 < buf.len(),
        !valid_frame_at(buf, i),
        !partial_frame_at(buf, i),
    ensures
        scan_from(buf, i) == scan_from(buf, i + 1),
{
}

/// The search from `i` finds `k` exactly when `k` is the first position from
/// `i` on that holds a valid frame and no position before it holds a partial
/// frame.
#[verifier::spinoff_prover]
#[verifier::rlimit(30)]
proof fn lemma_scan_from_characterized(buf: Seq<u8>, i: int, k: int)
    requires
        0 <= i <= k,
    ensures
        scan_from(buf, i) == Scan::Complete(k) <==> (valid_frame_at(buf, k) && forall|j: int| #![trigger valid_frame_at(buf, j)]
            i <= j < k ==> !valid_frame_at(buf, j) && !partial_frame_at(buf, j)),
    decreases k - i,
{
    if i < k {
        lemma_scan_from_characterized(buf, i + 1, k);
        if i + 5 >= buf.len() {
            assert(!valid_frame_at(buf, k));
        } else if valid_frame_at(buf, i) {
            assert(scan_from(buf, i) == Scan::Complete(i));
        } else if partial_frame_at(buf, i) {
            assert(scan_from(buf, i) == Scan::Partial);
        } else {
            assert(scan_from(buf, i) == scan_from(buf, i + 1));
            if valid_frame_at(buf, k) && forall|j: int| #![trigger valid_frame_at(buf, j)]
                i + 1 <= j < k ==> !valid_frame_at(buf, j) && !partial_frame_at(buf, j) {
                assert forall|j: int| #![trigger valid_frame_at(buf, j)] i <= j < k implies !valid_frame_at(buf, j)
                    && !partial_frame_at(buf, j) by {
                    if j > i {
                    }
                }
            }
        }
    } else {
        lemma_scan_bounds(buf, i + 1);
    }
}

/// The decoder takes the first valid frame in the received bytes: the search
/// finds position `k` exactly when a valid frame starts at `k` and every
/// earlier position holds neither a valid frame nor a partial one. Corrupt
/// frames are therefore passed over one byte at a time, and a valid frame that
/// starts inside a corrupt frame's claimed span is still found.
pub proof fn lemma_scan_finds_first_valid_frame(buf: Seq<u8>, k: int)
    requires
        0 <= k,
    ensures
        scan_from(buf, 0) == Scan::Complete(k) <==> (valid_frame_at(buf, k) && forall|j: int| #![trigger valid_frame_at(buf, j)]
            0 <= j < k ==> !valid_frame_at(buf, j) && !partial_frame_at(buf, j)),
{
    lemma_scan_from_characterized(buf, 0, k);
}

/// Positions that hold neither a valid nor a partial frame are passed over:
/// the search from `i` gives what the search from `k` gives.
pub proof fn lemma_scan_skips_to(buf: Seq<u8>, i: int, k: int)
    requires
        0 <= i <= k,
        forall|j: int| #![trigger valid_frame_at(buf, j)] i <= j < k ==> !valid_frame_at(buf, j) && !partial_frame_at(buf, j),
    ensures
        scan_from(buf, i) == scan_from(buf, k),
    decreases k - i,
{
    if i < k {
        assert(!valid_frame_at(buf, i) && !partial_frame_at(buf, i));
        lemma_scan_skips_to(buf, i + 1, k);
    }
}

/// With fewer than six bytes received, nothing is decoded and all are kept.
pub proof fn lemma_process_short_input(buf: Seq<u8>)
    requires
        buf.len() < 6,
    ensures
        process_stream(buf) == (Seq::<UpdateView>::empty(), buf),
{
}

/// When the first frame-like position holds a valid frame at `k`, decoding
/// yields that frame's update (if its type is decoded), drops every byte up to
/// the frame's end, and goes on with what follows it.
pub proof fn lemma_process_takes_first_frame(buf: Seq<u8>, k: int)
    requires
        buf.len() >= 6,
        valid_frame_at(buf, k),
        forall|j: int| #![trigger valid_frame_at(buf, j)] 0 <= j < k ==> !valid_frame_at(buf, j) && !partial_frame_at(buf, j),
    ensures
        process_stream(buf) == (
            updates_of(decode_payload(buf[k + 2], buf.subrange(k + 4, k + 4 + buf[k + 3])))
                + process_stream(buf.skip(k + 5 + buf[k + 3])).0,
            process_stream(buf.skip(k + 5 + buf[k + 3])).1,
        ),
{
    lemma_scan_from_characterized(buf, 0, k);
}

/// When the first frame-like position holds a frame still arriving, nothing
/// is decoded and every byte is kept.
pub proof fn lemma_process_waits_for_partial_frame(buf: Seq<u8>, k: int)
    requires
        buf.len() >= 6,
        partial_frame_at(buf, k),
        forall|j: int| #![trigger valid_frame_at(buf, j)] 0 <= j < k ==> !valid_frame_at(buf, j) && !partial_frame_at(buf, j),
    ensures
        process_stream(buf) == (Seq::<UpdateView>::empty(), buf),
{
    assert(scan_from(buf, 0) == scan_from(buf, k)) by {
        lemma_scan_skips_to(buf, 0, k);
    }
}

/// Without any valid or partial frame, nothing is decoded; the bytes are kept
/// when there are at most 1024 of them, and all dropped otherwise.
pub proof fn lemma_process_without_frames(buf: Seq<u8>)
    requires
        buf.len() >= 6,
        forall|j: int| #![trigger valid_frame_at(buf, j)] 0 <= j ==> !valid_frame_at(buf, j) && !partial_frame_at(buf, j),
    ensures
        process_stream(buf).0 == Seq::<UpdateView>::empty(),
        buf.len() <= 1024 ==> process_stream(buf).1 == buf,
        buf.len() > 1024 ==> process_stream(buf).1 == Seq::<u8>::empty(),
{
    assert(scan_from(buf, 0) == scan_from(buf, buf.len() as int)) by {
        lemma_scan_skips_to(buf, 0, buf.len() as int);
    }
}

/// The text and code reports set only their own field; types that are not
/// decoded give no update.
pub proof fn lemma_text_and_code_reports(p: Seq<u8>, type_id: u8)
    ensures
        p.len() > 0 && p[0] < 7 ==> decode_payload(220, p) == Some(
            (UpdateView { protection_state: Some(protection_label(p[0])), ..empty_update() }),
        ),
        p.len() > 0 && p[0] < 2 ==> decode_payload(221, p) == Some(
            (UpdateView { cc_cv: Some(cc_cv_label(p[0])), ..empty_update() }),
        ),
        decode_payload(222, p) == Some(
            (UpdateView { model_name: Some(utf8_lossy(p)), ..empty_update() }),
        ),
        decode_payload(223, p) == Some(
            (UpdateView { hardware_version: Some(utf8_lossy(p)), ..empty_update() }),
        ),
        decode_payload(224, p) == Some(
            (UpdateView { firmware_version: Some(utf8_lossy(p)), ..empty_update() }),
        ),
        !(type_id == 192 || type_id == 195 || type_id == 196 || (217 <= type_id <= 224)
            || type_id == 226 || type_id == 227 || type_id == 255) ==> decode_payload(type_id, p)
            is None,
{
}

/// The labels of the protection states and regulation modes.
pub proof fn lemma_labels()
    ensures
        protection_label(0) == Seq::<char>::empty(),
        protection_label(1) == seq!['O', 'V', 'P'],
        protection_label(2) == seq!['O', 'C', 'P'],
        protection_label(3) == seq!['O', 'P', 'P'],
        protection_label(4) == seq!['O', 'T', 'P'],
        protection_label(5) == seq!['L', 'V', 'P'],
        protection_label(6) == seq!['R', 'E', 'P'],
        cc_cv_label(0) == seq!['C', 'C'],
        cc_cv_label(1) == seq!['C', 'V'],
{
}

/// A byte sum adds up the bytes: the empty sum is 0, and appending a byte adds it.
pub proof fn lemma_byte_sum_adds(s: Seq<u8>, b: u8)
    ensures
        byte_sum(Seq::<u8>::empty()) == 0,
        byte_sum(s.push(b)) == byte_sum(s) + b,
{
    assert(s.push(b).drop_last() =~= s);
}

/// The layout of every frame that `build_command` encodes: the three given
/// bytes, the payload's length modulo 256, the payload, and the checksum
/// `(c3 + length + sum of the payload) mod 256`.
pub proof fn lemma_command_frame_layout(c1: u8, c2: u8, c3: u8, payload: Seq<u8>)
    ensures
        command_frame(c1, c2, c3, payload).len() == payload.len() + 5,
        command_frame(c1, c2, c3, payload)[0] == c1,
        command_frame(c1, c2, c3, payload)[1] == c2,
        command_frame(c1, c2, c3, payload)[2] == c3,
        command_frame(c1, c2, c3, payload)[3] == payload.len() % 256,
        command_frame(c1, c2, c3, payload).subrange(4, 4 + payload.len() as int) == payload,
        command_frame(c1, c2, c3, payload)[4 + payload.len() as int] == (c3 + payload.len()
            + byte_sum(payload)) % 256,
{
    assert(command_frame(c1, c2, c3, payload).subrange(4, 4 + payload.len() as int) =~= payload);
}

} // verus!
