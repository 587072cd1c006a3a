use codex_agent_kernel::error::{KernelError, LogCorruptKind};
use codex_agent_kernel::event::EventRecord;
use codex_agent_kernel::kernel::{Kernel, LogBackend};
use codex_agent_kernel::log::{
    accept_frame, frame_custom, frame_record, frame_torn, log_header, scan_log, LogScan, MAX_RECORD_BYTES,
};
use codex_agent_kernel::state::ExecutionState;

/// An in-memory log: records serialize to their `Debug` text.
#[derive(Default)]
struct MemLog {
    frames: Vec<Vec<u8>>,
}

impl LogBackend for MemLog {
    fn record_bytes(&self, record: &EventRecord) -> Vec<u8> {
        format!("{:?}", record).into_bytes()
    }

    fn state_bytes(&self, exec: &ExecutionState) -> Result<Vec<u8>, KernelError> {
        Ok(format!("{:?}", exec).into_bytes())
    }

    fn business_bytes(&self, exec: &ExecutionState) -> Result<Vec<u8>, KernelError> {
        Ok(format!("{:?}", exec.goals).into_bytes())
    }

    fn write_frame(&mut self, frame: &[u8]) -> Result<(), KernelError> {
        self.frames.push(frame.to_vec());
        Ok(())
    }
}

/// The bytes of a log holding one record, and that record.
fn seeded_log() -> (Vec<u8>, EventRecord, Vec<u8>) {
    let mut k = Kernel::from_log(MemLog::default(), Vec::new()).unwrap();
    let rec = k.create_execution("seed").unwrap();
    let mut bytes = log_header();
    for f in &k.backend().frames {
        bytes.extend_from_slice(f);
    }
    let mut blank = rec.clone();
    blank.checksum = String::new();
    let canonical = k.backend().record_bytes(&blank);
    (bytes, rec, canonical)
}

fn open(bytes: &[u8]) -> Result<LogScan, KernelError> {
    scan_log(bytes, "e.cak")
}

fn corrupt_kind(err: KernelError) -> LogCorruptKind {
    match err {
        KernelError::LogCorrupt { kind, .. } => kind,
        other => panic!("expected log corruption, got {}", other.to_string()),
    }
}

#[test]
fn torn_payload_at_eof_is_truncated() {
    let (mut bytes, _, _) = seeded_log();
    bytes.extend_from_slice(&frame_torn(b"{\"partial\":true"));
    let scan = open(&bytes).unwrap();
    assert_eq!(scan.frames.len(), 1);
    assert!(scan.torn_tail_at.is_some());
}

#[test]
fn truncated_length_prefix_is_torn() {
    let (mut bytes, _, _) = seeded_log();
    bytes.extend_from_slice(&[1, 2, 3]);
    let scan = open(&bytes).unwrap();
    assert_eq!(scan.frames.len(), 1);
    assert!(scan.torn_tail_at.is_some());
}

#[test]
fn truncated_crc_is_torn() {
    let (mut bytes, _, _) = seeded_log();
    bytes.extend_from_slice(&[10, 0, 0, 0, 1, 2]);
    let scan = open(&bytes).unwrap();
    assert_eq!(scan.frames.len(), 1);
    assert!(scan.torn_tail_at.is_some());
}

#[test]
fn truncated_payload_is_torn() {
    let (mut bytes, _, _) = seeded_log();
    bytes.extend_from_slice(&frame_custom(b"not-enough", None, Some(64)));
    let scan = open(&bytes).unwrap();
    assert_eq!(scan.frames.len(), 1);
    assert!(scan.torn_tail_at.is_some());
}

#[test]
fn complete_crc_mismatch_at_eof_is_fatal() {
    let (mut bytes, _, _) = seeded_log();
    bytes.extend_from_slice(&frame_custom(b"{\"x\":1}", Some(0xdead_beef), None));
    let err = open(&bytes).unwrap_err();
    assert_eq!(corrupt_kind(err), LogCorruptKind::CrcMismatch);
}

#[test]
fn complete_invalid_json_is_fatal() {
    let (mut bytes, _, _) = seeded_log();
    let start = bytes.len() as u64;
    bytes.extend_from_slice(&frame_custom(b"not-json", None, None));
    let scan = open(&bytes).unwrap();
    assert_eq!(scan.frames.len(), 2);
    let frame = &scan.frames[1];
    assert_eq!(frame.pos, start);
    let parsed: Result<EventRecord, String> = match serde_json::from_slice::<serde_json::Value>(&frame.payload) {
        Ok(_) => panic!("payload unexpectedly parsed"),
        Err(e) => Err(e.to_string()),
    };
    let err = accept_frame(frame.pos, parsed, &frame.payload).unwrap_err();
    match err {
        KernelError::LogCorrupt { at_byte, kind, .. } => {
            assert_eq!(at_byte, start);
            assert_eq!(kind, LogCorruptKind::InvalidJson);
        }
        other => panic!("expected invalid json, got {}", other.to_string()),
    }
}

#[test]
fn complete_checksum_mismatch_is_fatal() {
    let (_, rec, canonical) = seeded_log();
    let mut record = rec.clone();
    record.checksum = "00".repeat(32);
    let err = accept_frame(8, Ok(record), &canonical).unwrap_err();
    match err {
        KernelError::LogCorrupt { kind: LogCorruptKind::ChecksumMismatch, detail, .. } => {
            assert_eq!(detail, "checksum mismatch");
        }
        other => panic!("expected checksum mismatch, got {}", other.to_string()),
    }
    let ok = accept_frame(8, Ok(rec.clone()), &canonical).unwrap();
    assert_eq!(ok, rec);
}

#[test]
fn huge_length_is_fatal_without_allocating() {
    let (mut bytes, _, _) = seeded_log();
    let huge = MAX_RECORD_BYTES.saturating_add(1).to_le_bytes();
    bytes.extend_from_slice(&huge);
    bytes.extend_from_slice(&[0, 0, 0, 0]);
    let err = open(&bytes).unwrap_err();
    assert_eq!(corrupt_kind(err), LogCorruptKind::RecordTooLarge);
}

#[test]
fn zero_length_is_fatal() {
    let (mut bytes, _, _) = seeded_log();
    bytes.extend_from_slice(&[0, 0, 0, 0, 0, 0, 0, 0]);
    let err = open(&bytes).unwrap_err();
    assert_eq!(corrupt_kind(err), LogCorruptKind::InvalidLength);
}

#[test]
fn valid_record_followed_by_garbage_incomplete_tail_is_torn() {
    let (mut bytes, _, _) = seeded_log();
    bytes.extend_from_slice(&[7, 7]);
    let scan = open(&bytes).unwrap();
    assert_eq!(scan.frames.len(), 1);
    assert!(scan.torn_tail_at.is_some());
}

#[test]
fn bit_flip_in_complete_payload_is_fatal() {
    let (mut bytes, _, _) = seeded_log();
    let last = bytes.len() - 1;
    bytes[last] ^= 0x01;
    let err = open(&bytes).unwrap_err();
    let kind = corrupt_kind(err);
    assert!(kind == LogCorruptKind::CrcMismatch || kind == LogCorruptKind::InvalidJson);
}

#[test]
fn torn_write_is_discarded_on_open() {
    let (mut bytes, _, _) = seeded_log();
    let clean_len = bytes.len() as u64;
    bytes.extend_from_slice(&frame_torn(b"{\"partial\":true"));
    let scan = open(&bytes).unwrap();
    assert_eq!(scan.frames.len(), 1);
    assert_eq!(scan.torn_tail_at, Some(clean_len));
}

#[test]
fn written_frames_read_back_in_order() {
    let mut bytes = log_header();
    let a = frame_record(b"first").unwrap();
    let b = frame_record(b"second!").unwrap();
    bytes.extend_from_slice(&a);
    bytes.extend_from_slice(&b);
    let scan = open(&bytes).unwrap();
    assert_eq!(scan.torn_tail_at, None);
    assert_eq!(scan.frames.len(), 2);
    assert_eq!(scan.frames[0].pos, 8);
    assert_eq!(scan.frames[0].payload, b"first".to_vec());
    assert_eq!(scan.frames[1].pos, 8 + a.len() as u64);
    assert_eq!(scan.frames[1].payload, b"second!".to_vec());
}

#[test]
fn frame_layout_is_length_crc_payload() {
    let f = frame_record(b"abc").unwrap();
    assert_eq!(&f[0..4], &[3, 0, 0, 0]);
    assert_eq!(&f[4..8], &crc32fast::hash(b"abc").to_le_bytes());
    assert_eq!(&f[8..], b"abc");
    let header = log_header();
    assert_eq!(header, vec![b'C', b'A', b'K', b'1', 1, 0, 0, 0]);
}

#[test]
fn header_errors_are_reported() {
    match open(&[1, 2, 3]) {
        Err(KernelError::Io(m)) => assert_eq!(m, "failed to fill whole buffer"),
        _ => panic!("expected io error"),
    }
    match open(&[b'X', b'A', b'K', b'1', 1, 0, 0, 0]) {
        Err(KernelError::LogIntegrity(m)) => assert_eq!(m, "bad magic in e.cak"),
        _ => panic!("expected bad magic"),
    }
    match open(&[b'C', b'A', b'K', b'1', 9, 0, 0, 0]) {
        Err(KernelError::UnsupportedSchema { found, expected }) => {
            assert_eq!(found, 9);
            assert_eq!(expected, 1);
        }
        _ => panic!("expected unsupported schema"),
    }
}

#[test]
fn empty_payload_cannot_be_framed() {
    assert!(frame_record(b"").is_err());
}
