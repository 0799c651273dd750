//! Frame synchronization: the pure decision logic that keeps a
//! sentinel-delimited byte stream aligned on frame boundaries.
//!
//! One 16-byte read is one attempt. An attempt either finds the two-byte
//! sentinel at the front and yields the 14-byte payload behind it, or
//! decides how many bytes to discard before the next attempt. The caller
//! owns the byte source: it fills the buffer, asks [`sync_step`] for the
//! decision, and discards the returned number of bytes.

use vstd::prelude::*;

verus! {

/// Length in bytes of one wire frame: two sentinel bytes and the payload.
pub const FRAME_LENGTH: usize = 16;

/// The byte the two-byte frame sentinel is made of.
pub const SENTINEL_BYTE: u8 = 0xFF;

/// The buffer starts with the full two-byte sentinel.
pub open spec fn aligned(buf: Seq<u8>) -> bool {
    buf[0] == 0xFF && buf[1] == 0xFF
}

/// Index `i` of a misaligned buffer may start the sentinel: it holds a
/// sentinel byte and is either followed by a second one or sits at the last
/// index, where the second byte would fall into the next read.
pub open spec fn marker_candidate(buf: Seq<u8>, i: int) -> bool {
    buf[i] == 0xFF && (i == 15 || buf[i + 1] == 0xFF)
}

/// The scan for the first candidate index, moving right from `i`: the
/// first `j >= i` with `marker_candidate(buf, j)`, or 1 (the minimal
/// slide) if no index up to 15 qualifies.
pub open spec fn scan_from(buf: Seq<u8>, i: int) -> int
    decreases 16 - i,
{
    if i >= 16 {
        1
    } else if marker_candidate(buf, i) {
        i
    } else {
        scan_from(buf, i + 1)
    }
}

/// How many bytes a misaligned buffer tells the synchronizer to discard:
/// the first candidate index in `1..16`, or 1 if there is none.
pub open spec fn skip_amount(buf: Seq<u8>) -> int {
    scan_from(buf, 1)
}

/// The decision taken on one filled 16-byte buffer: either the buffer was
/// aligned and carries a payload, or this many bytes are to be discarded.
pub enum FrameStep {
    Payload(Vec<u8>),
    Skip(usize),
}

/// Decides what to do with one filled 16-byte buffer. An aligned buffer
/// yields its payload; a misaligned one yields the discard count, which is
/// always at least 1 and at most 15.
pub fn sync_step(buffer: &[u8]) -> (step: FrameStep)
    requires
        buffer@.len() == FRAME_LENGTH,
    ensures
        aligned(buffer@) ==> (step matches FrameStep::Payload(p) && p@ == buffer@.subrange(
            2,
            16,
        )),
        !aligned(buffer@) ==> (step matches FrameStep::Skip(n) && n == skip_amount(buffer@) && 1
            <= n <= 15),
{
    if buffer[0] == SENTINEL_BYTE && buffer[1] == SENTINEL_BYTE {
        let mut payload: Vec<u8> = Vec::new();
        let mut i: usize = 2;
        while i < 16
            invariant
                2 <= i <= 16,
                buffer@.len() == 16,
                payload@ == buffer@.subrange(2, i as int),
            decreases 16 - i,
        {
            payload.push(buffer[i]);
            proof {
                assert(payload@ =~= buffer@.subrange(2, i + 1));
            }
            i += 1;
        }
        FrameStep::Payload(payload)
    } else {
        FrameStep::Skip(find_skip(buffer))
    }
}

/// Scans a misaligned buffer for the first index that may start the
/// sentinel and returns the matching discard count.
fn find_skip(buffer: &[u8]) -> (skip: usize)
    requires
        buffer@.len() == 16,
    ensures
        skip == skip_amount(buffer@),
        1 <= skip <= 15,
{
    proof {
        lemma_scan_from_bounds(buffer@, 1);
    }
    let mut i: usize = 1;
    while i < 16
        invariant
            1 <= i <= 16,
            buffer@.len() == 16,
            scan_from(buffer@, 1) == scan_from(buffer@, i as int),
        decreases 16 - i,
    {
        if buffer[i] == SENTINEL_BYTE {
            if i == 15 {
                return 15;
            } else if buffer[i + 1] == SENTINEL_BYTE {
                return i;
            }
        }
        i += 1;
    }
    1
}

/// The scan result is always a valid discard count: at least 1 and at
/// most 15.
proof fn lemma_scan_from_bounds(buf: Seq<u8>, i: int)
    requires
        1 <= i,
    ensures
        1 <= scan_from(buf, i) <= 15,
    decreases 16 - i,
{
    if i >= 16 || marker_candidate(buf, i) {
    } else {
        lemma_scan_from_bounds(buf, i + 1);
    }
}

/// A scan that starts at or past every candidate-free index falls back to
/// the minimal slide of 1.
proof fn lemma_scan_from_no_candidate(buf: Seq<u8>, i: int)
    requires
        1 <= i <= 16,
        forall|j: int| i <= j < 16 ==> !marker_candidate(buf, j),
    ensures
        scan_from(buf, i) == 1,
    decreases 16 - i,
{
    if i < 16 {
        lemma_scan_from_no_candidate(buf, i + 1);
    }
}

/// What the discard count of a misaligned buffer is: the first index in
/// `1..16` that may start the sentinel, or 1 when no index qualifies. In
/// particular every attempt discards at least one byte, so
/// resynchronization always makes forward progress.
pub proof fn lemma_skip_amount_characterization(buf: Seq<u8>)
    requires
        buf.len() == 16,
    ensures
        1 <= skip_amount(buf) <= 15,
        (exists|i: int| 1 <= i < 16 && marker_candidate(buf, i)) ==> marker_candidate(
            buf,
            skip_amount(buf),
        ) && (forall|j: int| 1 <= j < skip_amount(buf) ==> !marker_candidate(buf, j)),
        (forall|i: int| 1 <= i < 16 ==> !marker_candidate(buf, i)) ==> skip_amount(buf) == 1,
{
    lemma_scan_from_bounds(buf, 1);
    if exists|i: int| 1 <= i < 16 && marker_candidate(buf, i) {
        lemma_first_candidate_exists(buf, 1);
    } else {
        lemma_scan_from_no_candidate(buf, 1);
    }
}

/// If any candidate index lies at or after `i`, the scan from `i` lands on
/// a candidate that is preceded by no other.
proof fn lemma_first_candidate_exists(buf: Seq<u8>, i: int)
    requires
        1 <= i < 16,
        exists|c: int| i <= c < 16 && marker_candidate(buf, c),
    ensures
        marker_candidate(buf, scan_from(buf, i)),
        i <= scan_from(buf, i) < 16,
        forall|j: int| i <= j < scan_from(buf, i) ==> !marker_candidate(buf, j),
    decreases 16 - i,
{
    if marker_candidate(buf, i) {
    } else {
        let c = choose|c: int| i <= c < 16 && marker_candidate(buf, c);
        assert(i + 1 <= c < 16 && marker_candidate(buf, c));
        lemma_first_candidate_exists(buf, i + 1);
    }
}

/// One attempt of the synchronizer on an in-memory stream: the number of
/// bytes it consumes from the front. An aligned attempt reads exactly one
/// frame; a misaligned one reads the 16-byte buffer and then discards the
/// skip on top of it.
pub open spec fn step_consumed(stream: Seq<u8>) -> int {
    if aligned(stream.subrange(0, 16)) {
        16
    } else {
        16 + skip_amount(stream.subrange(0, 16))
    }
}

/// Runs the synchronizer for at most `fuel` attempts over an in-memory
/// stream: `Some((payload, consumed))` when an aligned frame is reached
/// within the budget, where `consumed` counts every byte read or discarded
/// up to and including that frame.
pub open spec fn sync_run(stream: Seq<u8>, fuel: nat) -> Option<(Seq<u8>, int)>
    decreases fuel,
{
    if fuel == 0 || stream.len() < 16 {
        None
    } else if aligned(stream.subrange(0, 16)) {
        Some((stream.subrange(2, 16), 16))
    } else {
        match sync_run(stream.skip(step_consumed(stream)), (fuel - 1) as nat) {
            None => None,
            Some((payload, consumed)) => Some((payload, consumed + step_consumed(stream))),
        }
    }
}

/// Every misaligned attempt discards at least one byte on top of the
/// buffer it read: no two consecutive attempts stall at the same stream
/// position.
pub proof fn lemma_forward_progress(stream: Seq<u8>)
    ensures
        step_consumed(stream) >= 16,
        !aligned(stream.subrange(0, 16)) ==> step_consumed(stream) == 16 + skip_amount(
            stream.subrange(0, 16),
        ) && skip_amount(stream.subrange(0, 16)) >= 1,
{
    lemma_scan_from_bounds(stream.subrange(0, 16), 1);
}

/// Eventual frame recovery: a stream that carries a complete frame behind
/// non-sentinel junk whose length is a whole number of misaligned attempts
/// (17 bytes each: a 16-byte fill plus the minimal slide of 1) yields
/// exactly that frame's payload, consuming exactly the junk and the frame.
pub proof fn lemma_eventual_frame(junk: Seq<u8>, frame: Seq<u8>, rest: Seq<u8>)
    requires
        junk.len() % 17 == 0,
        forall|i: int| 0 <= i < junk.len() ==> junk[i] != 0xFF,
        frame.len() == 16,
        frame[0] == 0xFF,
        frame[1] == 0xFF,
    ensures
        sync_run(junk + frame + rest, junk.len() / 17 + 1) == Some(
            (frame.subrange(2, 16), junk.len() + 16 as int),
        ),
    decreases junk.len(),
{
    let stream = junk + frame + rest;
    let buf = stream.subrange(0, 16);
    let j = junk.len() as int;
    if j == 0 {
        assert(buf =~= frame);
        assert(aligned(buf));
        assert(stream.subrange(2, 16) =~= frame.subrange(2, 16));
    } else {
        assert(j >= 17);
        assert(buf[0] == junk[0]);
        assert(!aligned(buf));
        assert(forall|i: int| 1 <= i < 16 ==> buf[i] == junk[i] && !marker_candidate(buf, i));
        lemma_scan_from_no_candidate(buf, 1);
        assert(skip_amount(buf) == 1);
        assert(step_consumed(stream) == 17);
        assert(stream.skip(17) =~= junk.skip(17) + frame + rest);
        assert(junk.skip(17).len() % 17 == 0);
        lemma_eventual_frame(junk.skip(17), frame, rest);
        assert(junk.skip(17).len() / 17 + 1 == junk.len() / 17);
        assert(sync_run(stream.skip(17), (junk.len() / 17) as nat) == Some(
            (frame.subrange(2, 16), (j - 17) + 16),
        ));
    }
}

/// Misalignment within one buffer recovers on the following attempt: when
/// one to fifteen non-sentinel bytes precede back-to-back frames, the
/// first attempt discards exactly the misalignment on top of its fill —
/// the buffer's tail of the leading frame — and the second attempt
/// returns the next frame's payload. This covers the split-marker case:
/// with fifteen leading bytes only the sentinel's first byte reaches the
/// buffer, at its last index.
pub proof fn lemma_misaligned_recovers_next_frame(
    junk: Seq<u8>,
    frame1: Seq<u8>,
    frame2: Seq<u8>,
    rest: Seq<u8>,
)
    requires
        1 <= junk.len() <= 15,
        forall|i: int| 0 <= i < junk.len() ==> junk[i] != 0xFF,
        frame1.len() == 16,
        frame1[0] == 0xFF,
        frame1[1] == 0xFF,
        frame2.len() == 16,
        frame2[0] == 0xFF,
        frame2[1] == 0xFF,
    ensures
        sync_run(junk + frame1 + frame2 + rest, 2) == Some(
            (frame2.subrange(2, 16), junk.len() + 32 as int),
        ),
{
    let stream = junk + frame1 + frame2 + rest;
    let buf = stream.subrange(0, 16);
    let j = junk.len() as int;
    assert(buf[0] == junk[0]);
    assert(!aligned(buf));
    assert(buf[j] == frame1[0]);
    if j < 15 {
        assert(buf[j + 1] == frame1[1]);
    }
    assert(marker_candidate(buf, j));
    assert(forall|i: int| 1 <= i < j ==> buf[i] == junk[i] && !marker_candidate(buf, i));
    lemma_first_candidate_exists(buf, 1);
    assert(skip_amount(buf) == j);
    assert(step_consumed(stream) == 16 + j);
    let tail = frame2 + rest;
    assert(stream.skip(16 + j) =~= tail);
    assert(tail.subrange(0, 16) =~= frame2);
    assert(aligned(tail.subrange(0, 16)));
    assert(tail.subrange(2, 16) =~= frame2.subrange(2, 16));
    assert(sync_run(tail, 1nat) == Some((frame2.subrange(2, 16), 16int)));
}

} // verus!
