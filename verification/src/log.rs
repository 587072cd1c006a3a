//! On-disk framing of the append-only event log.
//!
//! Layout: `magic[4] = CAK1`, `schema[2]` (u16 LE), `reserved[2] = 0`, then
//! records `{ len: u32 LE, crc32: u32 LE of payload, payload[len] }`.
//!
//! Recovery: an incomplete tail (short length, CRC, or payload at the end of
//! the bytes) is a torn append and is cut off; a complete record whose CRC
//! does not match is fatal, also when it is the last record. A claimed length
//! of zero or above [`MAX_RECORD_BYTES`] is fatal before anything is read.
use vstd::prelude::*;

use crate::error::{KernelError, LogCorruptKind};
use crate::event::{EventRecord, SCHEMA_VERSION};
use crate::text::{decimal_text, hex_text, hex_u64_text, join2, u64_text};
use vstd::string::StringExecFns;

verus! {

/// File header: magic (4) + schema (2) + reserved (2).
pub const LOG_HEADER_LEN: u64 = 8;

/// Largest accepted payload. A corrupted length prefix must not allocate.
pub const MAX_RECORD_BYTES: u32 = 16 * 1024 * 1024;

/// The CRC-32 checksum that `crc32fast::hash` computes over some bytes.
pub uninterp spec fn crc32_of(bytes: Seq<u8>) -> u32;

/// Calls `crc32fast::hash`; its result is the named checksum of the bytes.
#[verifier::external_body]
fn crc32(bytes: &[u8]) -> (c: u32)
    ensures
        c == crc32_of(bytes@),
{
    crc32fast::hash(bytes)
}

/// Little-endian bytes of a `u32`.
pub open spec fn u32_le(v: u32) -> Seq<u8> {
    seq![
        (v & 0xff) as u8,
        ((v >> 8u32) & 0xff) as u8,
        ((v >> 16u32) & 0xff) as u8,
        ((v >> 24u32) & 0xff) as u8,
    ]
}

/// The `u32` stored little-endian at `b[i..i + 4]`.
pub open spec fn le_u32_at(b: Seq<u8>, i: int) -> u32 {
    (b[i] as u32) | ((b[i + 1] as u32) << 8u32) | ((b[i + 2] as u32) << 16u32) | ((
    b[i + 3] as u32) << 24u32)
}

/// Little-endian bytes of a `u16`.
pub open spec fn u16_le(v: u16) -> Seq<u8> {
    seq![(v & 0xff) as u8, ((v >> 8u16) & 0xff) as u8]
}

/// The `u16` stored little-endian at `b[i..i + 2]`.
pub open spec fn le_u16_at(b: Seq<u8>, i: int) -> u16 {
    (b[i] as u16) | ((b[i + 1] as u16) << 8u16)
}

/// The magic bytes `CAK1`.
pub open spec fn magic_bytes() -> Seq<u8> {
    seq![67u8, 65u8, 75u8, 49u8]
}

/// The file header of a new log.
pub open spec fn header_bytes() -> Seq<u8> {
    magic_bytes() + u16_le(SCHEMA_VERSION) + u16_le(0)
}

/// A payload the log accepts: between one byte and the maximum.
pub open spec fn valid_payload(p: Seq<u8>) -> bool {
    1 <= p.len() <= MAX_RECORD_BYTES
}

/// The framed bytes of one payload.
pub open spec fn frame_bytes(p: Seq<u8>) -> Seq<u8> {
    u32_le(p.len() as u32) + u32_le(crc32_of(p)) + p
}

/// The framed bytes of several payloads, in order.
pub open spec fn frames_bytes(ps: Seq<Seq<u8>>) -> Seq<u8>
    decreases ps.len(),
{
    if ps.len() == 0 {
        Seq::empty()
    } else {
        frame_bytes(ps[0]) + frames_bytes(ps.drop_first())
    }
}

/// Detail of a refused claimed length.
pub open spec fn length_detail(len: u32) -> Seq<char> {
    "claimed length "@ + decimal_text(len as nat) + ", max "@ + decimal_text(
        MAX_RECORD_BYTES as nat,
    )
}

/// Detail of a CRC mismatch.
pub open spec fn crc_detail(expected: u32, actual: u32) -> Seq<char> {
    "expected 0x"@ + hex_text(expected as nat) + ", got 0x"@ + hex_text(actual as nat)
}

/// What the bytes at one position hold.
pub enum FrameRead {
    /// No bytes left.
    End,
    /// An incomplete record: the tail of an interrupted append.
    Torn,
    /// A record that must not be read past.
    Corrupt(LogCorruptKind, Seq<char>),
    /// A complete record with this payload length.
    Complete(nat),
}

/// Reading one frame at `pos`.
pub open spec fn frame_at(b: Seq<u8>, pos: int) -> FrameRead {
    let rem = b.len() - pos;
    if rem <= 0 {
        FrameRead::End
    } else if rem < 4 {
        FrameRead::Torn
    } else {
        let len = le_u32_at(b, pos);
        if len == 0 {
            FrameRead::Corrupt(LogCorruptKind::InvalidLength, length_detail(len))
        } else if len > MAX_RECORD_BYTES {
            FrameRead::Corrupt(LogCorruptKind::RecordTooLarge, length_detail(len))
        } else if rem < 8 {
            FrameRead::Torn
        } else if rem - 8 < len {
            FrameRead::Torn
        } else {
            let expected = le_u32_at(b, pos + 4);
            let actual = crc32_of(b.subrange(pos + 8, pos + 8 + len));
            if actual != expected {
                FrameRead::Corrupt(LogCorruptKind::CrcMismatch, crc_detail(expected, actual))
            } else {
                FrameRead::Complete(len as nat)
            }
        }
    }
}

/// Frames found (position and payload) and where a torn tail starts.
pub type ScanOk = (Seq<(int, Seq<u8>)>, Option<int>);

/// Where a fatal record starts, why, and the detail text.
pub type ScanErr = (int, LogCorruptKind, Seq<char>);

/// `fs` placed before the frames of `r`.
pub open spec fn prepend_frames(fs: Seq<(int, Seq<u8>)>, r: Result<ScanOk, ScanErr>) -> Result<
    ScanOk,
    ScanErr,
> {
    match r {
        Ok(v) => Ok((fs + v.0, v.1)),
        Err(e) => Err(e),
    }
}

/// Reading every frame from `pos` on.
pub open spec fn scan_from(b: Seq<u8>, pos: int) -> Result<ScanOk, ScanErr>
    decreases b.len() - pos,
{
    match frame_at(b, pos) {
        FrameRead::End => Ok((Seq::empty(), None)),
        FrameRead::Torn => Ok((Seq::empty(), Some(pos))),
        FrameRead::Corrupt(kind, detail) => Err((pos, kind, detail)),
        FrameRead::Complete(len) => {
            let next = pos + 8 + len;
            if next <= pos {
                Ok((Seq::empty(), None))
            } else {
                prepend_frames(seq![(pos, b.subrange(pos + 8, next))], scan_from(b, next))
            }
        },
    }
}

/// A complete record read from the log bytes.
#[derive(Clone, Debug, PartialEq, Eq)]
pub struct LogFrame {
    pub pos: u64,
    pub payload: Vec<u8>,
}

/// What a scan of the log bytes found.
#[derive(Clone, Debug, PartialEq, Eq)]
pub struct LogScan {
    pub frames: Vec<LogFrame>,
    pub torn_tail_at: Option<u64>,
}

/// Positions and payloads of frames.
pub open spec fn frames_view(fs: Seq<LogFrame>) -> Seq<(int, Seq<u8>)> {
    fs.map_values(|f: LogFrame| (f.pos as int, f.payload@))
}

/// An optional position as an integer.
pub open spec fn opt_pos(o: Option<u64>) -> Option<int> {
    match o {
        Some(p) => Some(p as int),
        None => None,
    }
}

impl LogScan {
    pub open spec fn outcome(&self) -> ScanOk {
        (frames_view(self.frames@), opt_pos(self.torn_tail_at))
    }
}

/// `r` is the error that the scan outcome `e` describes.
pub open spec fn is_scan_error(r: KernelError, e: ScanErr) -> bool {
    r matches KernelError::LogCorrupt { at_byte, kind, detail } && at_byte == e.0 && kind == e.1
        && detail@ == e.2
}

fn read_u32_le(b: &[u8], i: usize) -> (v: u32)
    requires
        i + 4 <= b@.len(),
    ensures
        v == le_u32_at(b@, i as int),
{
    (b[i] as u32) | ((b[i + 1] as u32) << 8u32) | ((b[i + 2] as u32) << 16u32) | ((
    b[i + 3] as u32) << 24u32)
}

fn push_u32_le(out: &mut Vec<u8>, v: u32)
    ensures
        final(out)@ == old(out)@ + u32_le(v),
{
    out.push((v & 0xff) as u8);
    out.push(((v >> 8u32) & 0xff) as u8);
    out.push(((v >> 16u32) & 0xff) as u8);
    out.push(((v >> 24u32) & 0xff) as u8);
    assert(final(out)@ =~= old(out)@ + u32_le(v));
}

/// The header of a new log file.
pub fn log_header() -> (h: Vec<u8>)
    ensures
        h@ == header_bytes(),
{
    let mut h: Vec<u8> = Vec::new();
    h.push(67u8);
    h.push(65u8);
    h.push(75u8);
    h.push(49u8);
    h.push(1u8);
    h.push(0u8);
    h.push(0u8);
    h.push(0u8);
    assert(((1u16 & 0xff) as u8) == 1u8 && (((1u16 >> 8u16) & 0xff) as u8) == 0u8) by (bit_vector);
    assert(((0u16 & 0xff) as u8) == 0u8 && (((0u16 >> 8u16) & 0xff) as u8) == 0u8) by (bit_vector);
    assert(h@ =~= header_bytes());
    h
}

fn length_detail_text(len: u32) -> (s: String)
    ensures
        s@ == length_detail(len),
{
    let mut s = join2("claimed length ", u64_text(len as u64).as_str());
    s.append(", max ");
    s.append(u64_text(MAX_RECORD_BYTES as u64).as_str());
    s
}

fn crc_detail_text(expected: u32, actual: u32) -> (s: String)
    ensures
        s@ == crc_detail(expected, actual),
{
    let mut s = join2("expected 0x", hex_u64_text(expected as u64).as_str());
    s.append(", got 0x");
    s.append(hex_u64_text(actual as u64).as_str());
    s
}

/// Frames one payload for appending.
///
/// Fails with `RecordTooLarge` at byte 0 when the payload is empty, above
/// [`MAX_RECORD_BYTES`], or does not fit a `u32` length.
pub fn frame_record(payload: &[u8]) -> (r: Result<Vec<u8>, KernelError>)
    ensures
        r is Ok <==> valid_payload(payload@),
        r matches Ok(v) ==> v@ == frame_bytes(payload@),
        r matches Err(e) ==> (e matches KernelError::LogCorrupt { at_byte, kind, detail } && at_byte
            == 0 && kind == LogCorruptKind::RecordTooLarge && detail@ == (if payload@.len()
            > u32::MAX {
            "record larger than u32::MAX"@
        } else {
            "refusing to append "@ + decimal_text(payload@.len()) + " byte record"@
        })),
{
    if payload.len() > 4294967295usize {
        return Err(
            KernelError::log_corrupt(
                0,
                LogCorruptKind::RecordTooLarge,
                String::from_str("record larger than u32::MAX"),
            ),
        );
    }
    let len = payload.len() as u32;
    if len == 0 || len > MAX_RECORD_BYTES {
        let mut detail = join2("refusing to append ", u64_text(len as u64).as_str());
        detail.append(" byte record");
        return Err(KernelError::log_corrupt(0, LogCorruptKind::RecordTooLarge, detail));
    }
    let crc = crc32(payload);
    let mut out: Vec<u8> = Vec::new();
    push_u32_le(&mut out, len);
    push_u32_le(&mut out, crc);
    out.extend_from_slice(payload);
    assert(out@ =~= frame_bytes(payload@));
    Ok(out)
}

/// Frames a payload with an optional stored CRC and an optional claimed
/// length in place of the true ones (used to write damaged records).
pub fn frame_custom(payload: &[u8], crc: Option<u32>, claimed_len: Option<u32>) -> (v: Vec<u8>)
    requires
        payload@.len() <= u32::MAX,
    ensures
        v@ == u32_le(
            match claimed_len {
                Some(l) => l,
                None => payload@.len() as u32,
            },
        ) + u32_le(
            match crc {
                Some(c) => c,
                None => crc32_of(payload@),
            },
        ) + payload@,
{
    let len = match claimed_len {
        Some(l) => l,
        None => payload.len() as u32,
    };
    let crc = match crc {
        Some(c) => c,
        None => crc32(payload),
    };
    let mut out: Vec<u8> = Vec::new();
    push_u32_le(&mut out, len);
    push_u32_le(&mut out, crc);
    out.extend_from_slice(payload);
    out
}

/// An incomplete append: a record whose claimed length is 64 bytes more than
/// the partial payload that follows it.
pub fn frame_torn(partial: &[u8]) -> (v: Vec<u8>)
    requires
        partial@.len() <= u32::MAX,
    ensures
        v@ == u32_le(
            if partial@.len() + 64 > u32::MAX {
                u32::MAX
            } else {
                (partial@.len() + 64) as u32
            },
        ) + u32_le(crc32_of(partial@)) + partial@,
{
    let claimed = (partial.len() as u32).saturating_add(64);
    frame_custom(partial, Some(crc32(partial)), Some(claimed))
}

/// Reads every frame of `bytes` from `start` on: complete frames are
/// returned in order, an incomplete tail is reported by its position, and a
/// fatal frame is an error at its position.
pub fn scan_frames(bytes: &[u8], start: usize) -> (r: Result<LogScan, KernelError>)
    ensures
        match scan_from(bytes@, start as int) {
            Ok(v) => r matches Ok(s) && s.outcome() == v,
            Err(e) => r matches Err(err) && is_scan_error(err, e),
        },
{
    let ghost b = bytes@;
    let mut frames: Vec<LogFrame> = Vec::new();
    let mut pos: usize = start;
    if pos > bytes.len() {
        assert(frame_at(b, pos as int) == FrameRead::End);
        return Ok(LogScan { frames, torn_tail_at: None });
    }
    assert(frames_view(frames@) =~= Seq::<(int, Seq<u8>)>::empty());
    assert(prepend_frames(frames_view(frames@), scan_from(b, pos as int)) =~= scan_from(b, start as int)) by {
        match scan_from(b, pos as int) {
            Ok(v) => {
                assert(Seq::<(int, Seq<u8>)>::empty() + v.0 =~= v.0);
            },
            Err(_) => {},
        }
    }
    loop
        invariant
            b == bytes@,
            start <= pos <= bytes@.len(),
            scan_from(b, start as int) == prepend_frames(frames_view(frames@), scan_from(b, pos as int)),
        decreases bytes@.len() - pos,
    {
        let rem = bytes.len() - pos;
        if rem == 0 {
            assert(frames_view(frames@) + Seq::<(int, Seq<u8>)>::empty() =~= frames_view(frames@));
            return Ok(LogScan { frames, torn_tail_at: None });
        }
        if rem < 4 {
            assert(frames_view(frames@) + Seq::<(int, Seq<u8>)>::empty() =~= frames_view(frames@));
            return Ok(LogScan { frames, torn_tail_at: Some(pos as u64) });
        }
        let len = read_u32_le(bytes, pos);
        if len == 0 {
            return Err(
                KernelError::log_corrupt(
                    pos as u64,
                    LogCorruptKind::InvalidLength,
                    length_detail_text(len),
                ),
            );
        }
        if len > MAX_RECORD_BYTES {
            return Err(
                KernelError::log_corrupt(
                    pos as u64,
                    LogCorruptKind::RecordTooLarge,
                    length_detail_text(len),
                ),
            );
        }
        if rem < 8 || rem - 8 < len as usize {
            assert(frames_view(frames@) + Seq::<(int, Seq<u8>)>::empty() =~= frames_view(frames@));
            return Ok(LogScan { frames, torn_tail_at: Some(pos as u64) });
        }
        let expected = read_u32_le(bytes, pos + 4);
        let next = pos + 8 + len as usize;
        let payload = &bytes[pos + 8..next];
        let actual = crc32(payload);
        if actual != expected {
            return Err(
                KernelError::log_corrupt(
                    pos as u64,
                    LogCorruptKind::CrcMismatch,
                    crc_detail_text(expected, actual),
                ),
            );
        }
        let ghost before = frames_view(frames@);
        let frame = LogFrame { pos: pos as u64, payload: vstd::slice::slice_to_vec(payload) };
        frames.push(frame);
        proof {
            let item = (pos as int, b.subrange(pos + 8, next as int));
            assert(frames_view(frames@) =~= before.push(item));
            match scan_from(b, next as int) {
                Ok(v) => {
                    assert(before + (seq![item] + v.0) =~= before.push(item) + v.0);
                },
                Err(_) => {},
            }
        }
        pos = next;
    }
}

/// Reads the log bytes of a file: checks the header, then scans the frames.
///
/// A file shorter than the header is an I/O error, a wrong magic is an
/// integrity error naming `path`, and another schema version is refused.
pub fn scan_log(bytes: &[u8], path: &str) -> (r: Result<LogScan, KernelError>)
    ensures
        bytes@.len() < 8 ==> (r matches Err(KernelError::Io(m)) && m@
            == "failed to fill whole buffer"@),
        bytes@.len() >= 8 && bytes@.subrange(0, 4) != magic_bytes() ==> (r matches Err(
            KernelError::LogIntegrity(m),
        ) && m@ == "bad magic in "@ + path@),
        bytes@.len() >= 8 && bytes@.subrange(0, 4) == magic_bytes() && le_u16_at(bytes@, 4)
            != SCHEMA_VERSION ==> r == Err::<LogScan, KernelError>(
            KernelError::UnsupportedSchema { found: le_u16_at(bytes@, 4), expected: SCHEMA_VERSION },
        ),
        bytes@.len() >= 8 && bytes@.subrange(0, 4) == magic_bytes() && le_u16_at(bytes@, 4)
            == SCHEMA_VERSION ==> match scan_from(bytes@, 8) {
            Ok(v) => r matches Ok(s) && s.outcome() == v,
            Err(e) => r matches Err(err) && is_scan_error(err, e),
        },
{
    if bytes.len() < 8 {
        return Err(KernelError::Io(String::from_str("failed to fill whole buffer")));
    }
    if !(bytes[0] == 67u8 && bytes[1] == 65u8 && bytes[2] == 75u8 && bytes[3] == 49u8) {
        proof {
            if bytes@.subrange(0, 4) == magic_bytes() {
                assert(bytes@.subrange(0, 4)[0] == 67u8);
                assert(bytes@.subrange(0, 4)[1] == 65u8);
                assert(bytes@.subrange(0, 4)[2] == 75u8);
                assert(bytes@.subrange(0, 4)[3] == 49u8);
            }
        }
        return Err(KernelError::LogIntegrity(join2("bad magic in ", path)));
    }
    assert(bytes@.subrange(0, 4) =~= magic_bytes());
    let schema: u16 = (bytes[4] as u16) | ((bytes[5] as u16) << 8u16);
    if schema != SCHEMA_VERSION {
        return Err(KernelError::UnsupportedSchema { found: schema, expected: SCHEMA_VERSION });
    }
    scan_frames(bytes, 8)
}

/// Accepts the record parsed from the frame at `pos`: a payload that did not
/// parse is fatal `InvalidJson`, a record whose checksum does not match its
/// canonical bytes is fatal `ChecksumMismatch`.
pub fn accept_frame(pos: u64, parsed: Result<EventRecord, String>, canonical: &[u8]) -> (r: Result<
    EventRecord,
    KernelError,
>)
    ensures
        match parsed {
            Err(msg) => r matches Err(KernelError::LogCorrupt { at_byte, kind, detail })
                && at_byte == pos && kind == LogCorruptKind::InvalidJson && detail@ == msg@,
            Ok(rec) => if rec.checksum@ == crate::event::checksum_text(canonical@) {
                r == Ok::<EventRecord, KernelError>(rec)
            } else {
                r matches Err(KernelError::LogCorrupt { at_byte, kind, detail }) && at_byte == pos
                    && kind == LogCorruptKind::ChecksumMismatch && detail@ == "checksum mismatch"@
            },
        },
{
    match parsed {
        Err(msg) => Err(KernelError::log_corrupt(pos, LogCorruptKind::InvalidJson, msg)),
        Ok(rec) => match rec.verify_checksum(canonical) {
            Ok(()) => Ok(rec),
            Err(_) => Err(
                KernelError::log_corrupt(
                    pos,
                    LogCorruptKind::ChecksumMismatch,
                    String::from_str("checksum mismatch"),
                ),
            ),
        },
    }
}

/// The frames of `ps` laid out from `pos` on, each with its position.
pub open spec fn positioned(pos: int, ps: Seq<Seq<u8>>) -> Seq<(int, Seq<u8>)>
    decreases ps.len(),
{
    if ps.len() == 0 {
        Seq::empty()
    } else {
        seq![(pos, ps[0])] + positioned(pos + 8 + ps[0].len(), ps.drop_first())
    }
}

/// The payloads of scanned frames.
pub open spec fn payloads(fs: Seq<(int, Seq<u8>)>) -> Seq<Seq<u8>> {
    fs.map_values(|f: (int, Seq<u8>)| f.1)
}

/// Every payload is one the log accepts.
pub open spec fn all_valid(ps: Seq<Seq<u8>>) -> bool {
    forall|i: int| 0 <= i < ps.len() ==> valid_payload(#[trigger] ps[i])
}

proof fn lemma_read_le(b: Seq<u8>, i: int, v: u32)
    requires
        0 <= i,
        i + 4 <= b.len(),
        b.subrange(i, i + 4) == u32_le(v),
    ensures
        le_u32_at(b, i) == v,
{
    let b0 = (v & 0xff) as u8;
    let b1 = ((v >> 8u32) & 0xff) as u8;
    let b2 = ((v >> 16u32) & 0xff) as u8;
    let b3 = ((v >> 24u32) & 0xff) as u8;
    assert(b[i] == b.subrange(i, i + 4)[0]);
    assert(b[i + 1] == b.subrange(i, i + 4)[1]);
    assert(b[i + 2] == b.subrange(i, i + 4)[2]);
    assert(b[i + 3] == b.subrange(i, i + 4)[3]);
    assert((b0 as u32) | ((b1 as u32) << 8u32) | ((b2 as u32) << 16u32) | ((b3 as u32) << 24u32)
        == v) by (bit_vector)
        requires
            b0 == (v & 0xff) as u8,
            b1 == ((v >> 8u32) & 0xff) as u8,
            b2 == ((v >> 16u32) & 0xff) as u8,
            b3 == ((v >> 24u32) & 0xff) as u8,
    ;
}

proof fn lemma_frame_complete(b: Seq<u8>, pos: int, p: Seq<u8>)
    requires
        0 <= pos,
        valid_payload(p),
        pos + 8 + p.len() <= b.len(),
        b.subrange(pos, pos + 8 + p.len()) == frame_bytes(p),
    ensures
        frame_at(b, pos) == FrameRead::Complete(p.len()),
        b.subrange(pos + 8, pos + 8 + p.len()) == p,
{
    let f = frame_bytes(p);
    assert(b.subrange(pos, pos + 4) =~= f.subrange(0, 4));
    assert(f.subrange(0, 4) =~= u32_le(p.len() as u32));
    lemma_read_le(b, pos, p.len() as u32);
    assert(b.subrange(pos + 4, pos + 8) =~= f.subrange(4, 8));
    assert(f.subrange(4, 8) =~= u32_le(crc32_of(p)));
    lemma_read_le(b, pos + 4, crc32_of(p));
    assert(b.subrange(pos + 8, pos + 8 + p.len()) =~= f.subrange(8, 8 + p.len() as int));
    assert(f.subrange(8, 8 + p.len() as int) =~= p);
}

proof fn lemma_prepend_assoc(a: Seq<(int, Seq<u8>)>, c: Seq<(int, Seq<u8>)>, r: Result<ScanOk, ScanErr>)
    ensures
        prepend_frames(a, prepend_frames(c, r)) == prepend_frames(a + c, r),
{
    match r {
        Ok(v) => {
            assert(a + (c + v.0) =~= (a + c) + v.0);
        },
        Err(_) => {},
    }
}

proof fn lemma_scan_over_frames(b: Seq<u8>, pos: int, ps: Seq<Seq<u8>>)
    requires
        0 <= pos,
        all_valid(ps),
        pos + frames_bytes(ps).len() <= b.len(),
        b.subrange(pos, pos + frames_bytes(ps).len()) == frames_bytes(ps),
    ensures
        scan_from(b, pos) == prepend_frames(
            positioned(pos, ps),
            scan_from(b, pos + frames_bytes(ps).len()),
        ),
    decreases ps.len(),
{
    if ps.len() == 0 {
        match scan_from(b, pos) {
            Ok(v) => {
                assert(Seq::<(int, Seq<u8>)>::empty() + v.0 =~= v.0);
            },
            Err(_) => {},
        }
    } else {
        let p0 = ps[0];
        let rest = ps.drop_first();
        let f = frame_bytes(p0);
        let next = pos + 8 + p0.len();
        assert(valid_payload(p0));
        assert(all_valid(rest)) by {
            assert forall|i: int| 0 <= i < rest.len() implies valid_payload(#[trigger] rest[i]) by {
                assert(rest[i] == ps[i + 1]);
            }
        }
        assert(frames_bytes(ps) == f + frames_bytes(rest));
        assert(b.subrange(pos, next) =~= frames_bytes(ps).subrange(0, f.len() as int));
        assert(frames_bytes(ps).subrange(0, f.len() as int) =~= f);
        lemma_frame_complete(b, pos, p0);
        assert(b.subrange(next, next + frames_bytes(rest).len()) =~= frames_bytes(ps).subrange(
            f.len() as int,
            frames_bytes(ps).len() as int,
        ));
        assert(frames_bytes(ps).subrange(f.len() as int, frames_bytes(ps).len() as int)
            =~= frames_bytes(rest));
        lemma_scan_over_frames(b, next, rest);
        assert(scan_from(b, pos) == prepend_frames(seq![(pos, p0)], scan_from(b, next)));
        lemma_prepend_assoc(
            seq![(pos, p0)],
            positioned(next, rest),
            scan_from(b, next + frames_bytes(rest).len()),
        );
    }
}

proof fn lemma_positioned_payloads(pos: int, ps: Seq<Seq<u8>>)
    ensures
        payloads(positioned(pos, ps)) == ps,
        positioned(pos, ps).len() == ps.len(),
    decreases ps.len(),
{
    if ps.len() > 0 {
        let tail = positioned(pos + 8 + ps[0].len(), ps.drop_first());
        lemma_positioned_payloads(pos + 8 + ps[0].len(), ps.drop_first());
        assert forall|i: int| 0 <= i < ps.len() implies #[trigger] payloads(positioned(pos, ps))[i]
            == ps[i] by {
            if i > 0 {
                assert(positioned(pos, ps)[i] == tail[i - 1]);
                assert(payloads(tail)[i - 1] == ps.drop_first()[i - 1]);
            }
        }
        assert(payloads(positioned(pos, ps)) =~= ps);
    } else {
        assert(payloads(positioned(pos, ps)) =~= ps);
    }
}

proof fn lemma_log_prefix(ps: Seq<Seq<u8>>, tail: Seq<u8>)
    requires
        all_valid(ps),
    ensures
        scan_from(header_bytes() + frames_bytes(ps) + tail, 8) == prepend_frames(
            positioned(8, ps),
            scan_from(header_bytes() + frames_bytes(ps) + tail, 8 + frames_bytes(ps).len() as int),
        ),
        payloads(positioned(8, ps)) == ps,
{
    let b = header_bytes() + frames_bytes(ps) + tail;
    assert(b.subrange(8, 8 + frames_bytes(ps).len() as int) =~= frames_bytes(ps));
    lemma_scan_over_frames(b, 8, ps);
    lemma_positioned_payloads(8, ps);
}

/// A log written as a header and framed payloads reads back exactly those
/// payloads, in order, with no torn tail.
pub proof fn lemma_written_log_reads_back(ps: Seq<Seq<u8>>)
    requires
        all_valid(ps),
    ensures
        scan_from(header_bytes() + frames_bytes(ps), LOG_HEADER_LEN as int) matches Ok(v) && payloads(
            v.0,
        ) == ps && v.1 is None,
{
    lemma_log_prefix(ps, Seq::empty());
    let b = header_bytes() + frames_bytes(ps) + Seq::<u8>::empty();
    assert(b =~= header_bytes() + frames_bytes(ps));
    assert(frame_at(b, b.len() as int) == FrameRead::End);
    assert(positioned(8, ps) + Seq::<(int, Seq<u8>)>::empty() =~= positioned(8, ps));
}

/// An interrupted append (any proper, non-empty prefix of a framed payload)
/// after complete records is cut off: those records are read and the torn
/// tail is reported where the interrupted record starts.
pub proof fn lemma_torn_append_is_cut(ps: Seq<Seq<u8>>, q: Seq<u8>, k: int)
    requires
        all_valid(ps),
        valid_payload(q),
        0 < k < frame_bytes(q).len(),
    ensures
        scan_from(header_bytes() + frames_bytes(ps) + frame_bytes(q).take(k), LOG_HEADER_LEN as int)
            matches Ok(v) && payloads(v.0) == ps && v.1 == Some(
            LOG_HEADER_LEN + frames_bytes(ps).len(),
        ),
{
    let tail = frame_bytes(q).take(k);
    let b = header_bytes() + frames_bytes(ps) + tail;
    lemma_log_prefix(ps, tail);
    let p: int = 8 + frames_bytes(ps).len() as int;
    assert(b.len() - p == k);
    if k >= 4 {
        assert(b.subrange(p, p + 4) =~= u32_le(q.len() as u32));
        lemma_read_le(b, p, q.len() as u32);
    }
    assert(frame_at(b, p) == FrameRead::Torn);
    assert(positioned(8, ps) + Seq::<(int, Seq<u8>)>::empty() =~= positioned(8, ps));
}

/// A complete framed record whose stored CRC does not match its payload is
/// fatal at its position, whatever follows it, also at the end of the file.
pub proof fn lemma_complete_bad_crc_is_fatal(ps: Seq<Seq<u8>>, q: Seq<u8>, c: u32, rest: Seq<u8>)
    requires
        all_valid(ps),
        valid_payload(q),
        c != crc32_of(q),
    ensures
        scan_from(
            header_bytes() + frames_bytes(ps) + (u32_le(q.len() as u32) + u32_le(c) + q + rest),
            LOG_HEADER_LEN as int,
        ) matches Err(e) && e.0 == LOG_HEADER_LEN + frames_bytes(ps).len() && e.1
            == LogCorruptKind::CrcMismatch,
{
    let tail = u32_le(q.len() as u32) + u32_le(c) + q + rest;
    let b = header_bytes() + frames_bytes(ps) + tail;
    lemma_log_prefix(ps, tail);
    let p: int = 8 + frames_bytes(ps).len() as int;
    assert(b.subrange(p, p + 4) =~= u32_le(q.len() as u32));
    lemma_read_le(b, p, q.len() as u32);
    assert(b.subrange(p + 4, p + 8) =~= u32_le(c));
    lemma_read_le(b, p + 4, c);
    assert(b.subrange(p + 8, p + 8 + q.len()) =~= q);
    assert(frame_at(b, p) matches FrameRead::Corrupt(k, _) && k == LogCorruptKind::CrcMismatch);
}

/// A claimed length of zero, or above the maximum, is fatal at its position
/// whatever follows it, even when fewer bytes follow than it claims.
pub proof fn lemma_bad_length_is_fatal(ps: Seq<Seq<u8>>, l: u32, rest: Seq<u8>)
    requires
        all_valid(ps),
        l == 0 || l > MAX_RECORD_BYTES,
    ensures
        scan_from(header_bytes() + frames_bytes(ps) + (u32_le(l) + rest), LOG_HEADER_LEN as int)
            matches Err(e) && e.0 == LOG_HEADER_LEN + frames_bytes(ps).len() && e.1 == (if l == 0 {
            LogCorruptKind::InvalidLength
        } else {
            LogCorruptKind::RecordTooLarge
        }),
{
    let tail = u32_le(l) + rest;
    let b = header_bytes() + frames_bytes(ps) + tail;
    lemma_log_prefix(ps, tail);
    let p: int = 8 + frames_bytes(ps).len() as int;
    assert(b.subrange(p, p + 4) =~= u32_le(l));
    lemma_read_le(b, p, l);
}

} // verus!
