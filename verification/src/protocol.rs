//! Frame layout and checksum of the wire protocol.
//!
//! A frame is `[header, command, type_id, length, payload.., checksum]`, where
//! `checksum` is `(type_id + length + sum of the payload bytes) mod 256`.
use crate::commands::{CMD_GET, HEADER_INPUT, PACKET_HEADER_SIZE};
use vstd::prelude::*;

verus! {

/// Sum of the bytes of `s`, as a natural number.
pub open spec fn byte_sum(s: Seq<u8>) -> nat
    decreases s.len(),
{
    if s.len() == 0 {
        0
    } else {
        byte_sum(s.drop_last()) + s.last() as nat
    }
}

/// The checksum byte that closes a frame carrying `payload` for `type_id`.
pub open spec fn checksum(type_id: u8, payload: Seq<u8>) -> u8 {
    ((type_id + payload.len() + byte_sum(payload)) % 256) as u8
}

/// The bytes of a frame with the given header bytes and payload.
/// The length byte keeps the low eight bits of the payload's length.
pub open spec fn command_frame(c1: u8, c2: u8, c3: u8, payload: Seq<u8>) -> Seq<u8> {
    seq![c1, c2, c3, (payload.len() % 256) as u8] + payload + seq![checksum(c3, payload)]
}

/// A prefix of a byte string never sums to more than the whole.
pub proof fn lemma_byte_sum_prefix(s: Seq<u8>, i: int)
    requires
        0 <= i <= s.len(),
    ensures
        byte_sum(s.take(i)) <= byte_sum(s),
        i < s.len() ==> byte_sum(s.take(i + 1)) == byte_sum(s.take(i)) + s[i],
    decreases s.len(),
{
    if i < s.len() {
        assert(s.take(i + 1).drop_last() =~= s.take(i));
        lemma_byte_sum_prefix(s.drop_last(), i);
        assert(s.drop_last().take(i) =~= s.take(i));
    } else {
        assert(s.take(i) =~= s);
    }
}

/// Each byte adds at most 255 to a byte sum.
pub proof fn lemma_byte_sum_bound(s: Seq<u8>)
    ensures
        byte_sum(s) <= 255 * s.len(),
    decreases s.len(),
{
    if s.len() > 0 {
        lemma_byte_sum_bound(s.drop_last());
    }
}

/// Sums `bytes[from..to]`.
pub fn sum_bytes(bytes: &[u8], from: usize, to: usize) -> (total: u32)
    requires
        from <= to <= bytes@.len(),
        byte_sum(bytes@.subrange(from as int, to as int)) <= u32::MAX,
    ensures
        total == byte_sum(bytes@.subrange(from as int, to as int)),
{
    let ghost whole = bytes@.subrange(from as int, to as int);
    let mut total: u32 = 0;
    let mut k: usize = from;
    while k < to
        invariant
            from <= k <= to <= bytes@.len(),
            whole == bytes@.subrange(from as int, to as int),
            byte_sum(whole) <= u32::MAX,
            total == byte_sum(whole.take(k - from)),
        decreases to - k,
    {
        proof {
            lemma_byte_sum_prefix(whole, k - from);
            lemma_byte_sum_prefix(whole, k - from + 1);
        }
        total = total + bytes[k] as u32;
        k = k + 1;
    }
    proof {
        assert(whole.take(to - from) =~= whole);
    }
    total
}

/// Outcome of looking for a frame from the device in received bytes.
pub enum Scan {
    /// A frame with a valid checksum starts at this position.
    Complete(int),
    /// A frame starts here but its last bytes have not arrived yet.
    Partial,
    /// No frame is recognised.
    Absent,
}

/// The executable counterpart of [`Scan`].
pub enum FrameSearch {
    Complete(usize),
    Partial,
    Absent,
}

impl View for FrameSearch {
    type V = Scan;

    open spec fn view(&self) -> Scan {
        match self {
            FrameSearch::Complete(i) => Scan::Complete(*i as int),
            FrameSearch::Partial => Scan::Partial,
            FrameSearch::Absent => Scan::Absent,
        }
    }
}

/// `buf[i]` and `buf[i + 1]` open a frame from the device.
pub open spec fn header_at(buf: Seq<u8>, i: int) -> bool {
    buf[i] == HEADER_INPUT && buf[i + 1] == CMD_GET
}

/// One past the last byte of the frame that starts at `i`.
pub open spec fn frame_end(buf: Seq<u8>, i: int) -> int {
    i + 5 + buf[i + 3]
}

/// The payload of the frame that starts at `i`.
pub open spec fn payload_at(buf: Seq<u8>, i: int) -> Seq<u8> {
    buf.subrange(i + 4, i + 4 + buf[i + 3])
}

/// The frame that starts at `i` closes with its checksum.
pub open spec fn checksum_ok_at(buf: Seq<u8>, i: int) -> bool {
    checksum(buf[i + 2], payload_at(buf, i)) == buf[i + 4 + buf[i + 3]]
}

/// Looks for a frame at positions `i`, `i + 1`, ... up to, not including,
/// `buf.len() - 5`. A header whose frame ends past the buffer stops the
/// search; one whose checksum fails is skipped.
pub open spec fn scan_from(buf: Seq<u8>, i: int) -> Scan
    decreases buf.len() - i,
{
    if i < 0 || i + 5 >= buf.len() {
        Scan::Absent
    } else if header_at(buf, i) {
        if frame_end(buf, i) > buf.len() {
            Scan::Partial
        } else if checksum_ok_at(buf, i) {
            Scan::Complete(i)
        } else {
            scan_from(buf, i + 1)
        }
    } else {
        scan_from(buf, i + 1)
    }
}

/// A frame found by the search lies inside the buffer.
pub proof fn lemma_scan_bounds(buf: Seq<u8>, i: int)
    ensures
        scan_from(buf, i) matches Scan::Complete(k) ==> {
            &&& 0 <= i <= k
            &&& k + 5 < buf.len()
            &&& header_at(buf, k)
            &&& frame_end(buf, k) <= buf.len()
            &&& checksum_ok_at(buf, k)
        },
    decreases buf.len() - i,
{
    if i < 0 || i + 5 >= buf.len() {
    } else if header_at(buf, i) && frame_end(buf, i) > buf.len() {
    } else if header_at(buf, i) && checksum_ok_at(buf, i) {
    } else {
        lemma_scan_bounds(buf, i + 1);
    }
}

/// Finds the first frame from the device in `buf`, as [`scan_from`] does from 0.
pub fn find_frame(buf: &[u8]) -> (found: FrameSearch)
    ensures
        found@ == scan_from(buf@, 0),
{
    let n = buf.len();
    let limit: usize = if n > 5 { n - 5 } else { 0 };
    let mut i: usize = 0;
    while i < limit
        invariant
            n == buf@.len(),
            limit == if n > 5 { n - 5 } else { 0 },
            i <= limit,
            scan_from(buf@, 0) == scan_from(buf@, i as int),
        decreases limit - i,
    {
        if buf[i] == HEADER_INPUT && buf[i + 1] == CMD_GET {
            let len = buf[i + 3] as usize;
            if len > n - PACKET_HEADER_SIZE - i {
                return FrameSearch::Partial;
            }
            proof {
                lemma_byte_sum_bound(buf@.subrange(i + 4, i + 4 + len));
            }
            let total = buf[i + 2] as u32 + len as u32 + sum_bytes(buf, i + 4, i + 4 + len);
            if total % 256 == buf[i + 4 + len] as u32 {
                return FrameSearch::Complete(i);
            }
        }
        i = i + 1;
    }
    FrameSearch::Absent
}

} // verus!
