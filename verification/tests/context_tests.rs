use std::collections::BTreeMap;

use codex_agent_kernel::context::{
    naive_child_storage_bytes, shared_child_storage_bytes, ChunkFiles, ContentStore, Snapshot,
};
use codex_agent_kernel::error::KernelError;
use codex_agent_kernel::ids::ContentHash;

/// Files kept in memory.
#[derive(Default)]
struct MemFiles {
    files: BTreeMap<String, Vec<u8>>,
    refs_written: usize,
    snapshots: Vec<Snapshot>,
}

impl ChunkFiles for MemFiles {
    fn has_file(&self, path: &str) -> bool {
        self.files.contains_key(path)
    }

    fn write_chunk(&mut self, path: &str, bytes: &[u8]) -> Result<(), KernelError> {
        self.files.insert(path.to_string(), bytes.to_vec());
        Ok(())
    }

    fn read(&self, path: &str) -> Result<Vec<u8>, String> {
        self.files.get(path).cloned().ok_or_else(|| "No such file or directory (os error 2)".to_string())
    }

    fn write_refs(&mut self, _refs: &Vec<(ContentHash, u64)>) -> Result<(), KernelError> {
        self.refs_written += 1;
        Ok(())
    }

    fn write_snapshot(&mut self, snapshot: &Snapshot) -> Result<(), KernelError> {
        self.snapshots.push(snapshot.clone());
        Ok(())
    }

    fn chunk_files(&self) -> Result<Vec<(String, String, u64)>, KernelError> {
        Ok(self
            .files
            .iter()
            .map(|(p, b)| (p.clone(), p.rsplit('/').next().unwrap().to_string(), b.len() as u64))
            .collect())
    }

    fn remove(&mut self, path: &str) -> Result<(), KernelError> {
        self.files.remove(path);
        Ok(())
    }
}

fn store() -> ContentStore<MemFiles> {
    ContentStore::open(MemFiles::default(), Vec::new())
}

#[test]
fn context_sharing_beats_naive_copy_at_100_children() {
    let parent = 1_000_000u64;
    let delta = 2_000u64;
    let naive = naive_child_storage_bytes(parent, delta, 100);
    let shared = shared_child_storage_bytes(parent, delta, 100);
    assert!(shared * 10 < naive);
    let mut cas = store();
    let parent_blob = vec![7u8; 64 * 1024];
    let parent_snap = cas.snapshot(None, &parent_blob, 4096).unwrap();
    let mut children = Vec::new();
    for i in 0..10 {
        let mut child = parent_blob.clone();
        child.extend_from_slice(&[i as u8; 128]);
        children.push(cas.snapshot_delta(&parent_snap, &child, 4096).unwrap());
    }
    let unique = cas.unique_bytes().unwrap();
    let duplicated: u64 = children.iter().map(|s| s.byte_len).sum::<u64>() + parent_snap.byte_len;
    assert!(unique < duplicated);
}

#[test]
fn storage_formulas() {
    assert_eq!(naive_child_storage_bytes(1_000_000, 2_000, 100), 101_200_000);
    assert_eq!(shared_child_storage_bytes(1_000_000, 2_000, 100), 1_200_000);
    assert_eq!(naive_child_storage_bytes(5, 1, 0), 5);
}

#[test]
fn blob_round_trips_through_chunks() {
    let mut cas = store();
    let blob: Vec<u8> = (0..10_000u32).map(|i| (i % 251) as u8).collect();
    let hashes = cas.put_blob(&blob, 4096).unwrap();
    assert_eq!(hashes.len(), 3);
    assert_eq!(hashes[0], ContentHash::of_bytes(&blob[0..4096]));
    assert_eq!(hashes[2], ContentHash::of_bytes(&blob[8192..]));
    assert_eq!(cas.reconstruct(&hashes).unwrap(), blob);
    assert!(cas.put_blob(&[], 4096).unwrap().is_empty());
    let one = cas.put_blob(b"abc", 0).unwrap();
    assert_eq!(one.len(), 3);
}

#[test]
fn chunk_path_shards_by_first_byte() {
    let cas = store();
    let h = ContentHash::of_bytes(b"hello");
    let hex = h.to_hex();
    assert_eq!(cas.chunk_path(h), format!("chunks/{}/{}", &hex[..2], hex));
}

#[test]
fn corrupted_chunk_is_detected() {
    let mut cas = store();
    let hashes = cas.put_blob(b"precious", 64).unwrap();
    let path = cas.chunk_path(hashes[0]);
    let mut files = MemFiles::default();
    files.files.insert(path, b"tampered".to_vec());
    let bad = ContentStore::open(files, cas.ref_counts().clone());
    let err = bad.reconstruct(&hashes).unwrap_err();
    assert_eq!(
        err.to_string(),
        format!("context store error: chunk {} failed corruption detection", hashes[0].to_hex())
    );
}

#[test]
fn missing_chunk_is_a_context_error() {
    let cas = store();
    let h = ContentHash::of_bytes(b"never stored");
    let err = cas.get_chunk(h).unwrap_err();
    assert!(err.to_string().starts_with(&format!("context store error: missing chunk {}: ", h.to_hex())));
}

#[test]
fn references_are_counted_and_gc_keeps_live_chunks() {
    let mut cas = store();
    let a = cas.put_chunk(b"a").unwrap();
    let again = cas.put_chunk(b"a").unwrap();
    assert_eq!(a, again);
    assert_eq!(cas.ref_counts(), &vec![(a, 2)]);
    let removed = cas.gc().unwrap();
    assert_eq!(removed, 0);
    assert_eq!(cas.ref_counts(), &vec![(a, 2)]);
    let zero = ContentHash::of_bytes(b"b");
    let mut files = MemFiles::default();
    files.files.insert(cas.chunk_path(zero), b"b".to_vec());
    let mut stale = ContentStore::open(files, vec![(zero, 0)]);
    assert_eq!(stale.gc().unwrap(), 1);
    assert!(stale.ref_counts().is_empty());
}

#[test]
fn referenced_bytes_sums_snapshot_lengths() {
    let mut cas = store();
    let s1 = cas.snapshot(None, b"12345", 2).unwrap();
    let s2 = cas.snapshot(Some(&s1), b"123", 2).unwrap();
    assert_eq!(s2.parent, Some(s1.id));
    assert_eq!(cas.referenced_bytes(&[s1, s2]), 8);
}

#[test]
fn open_keeps_the_last_count_of_a_digest() {
    let h = ContentHash::of_bytes(b"x");
    let cas = ContentStore::open(MemFiles::default(), vec![(h, 3), (h, 5)]);
    assert_eq!(cas.ref_counts(), &vec![(h, 5)]);
}

#[test]
fn benchmark_rows_match_the_formulas() {
    let parent: Vec<u8> = (0..(256 * 1024)).map(|i| (i % 251) as u8).collect();
    let rows = [(1u64, 525_316u64, 263_172u64), (10, 2_893_864, 272_424), (100, 26_579_344, 364_944)];
    for (n, naive, shared) in rows {
        assert_eq!(naive_child_storage_bytes(parent.len() as u64, 1028, n), naive);
        assert_eq!(shared_child_storage_bytes(parent.len() as u64, 1028, n), shared);
        let mut cas = store();
        let p = cas.snapshot(None, &parent, 4096).unwrap();
        for i in 0..n {
            let mut child = parent.clone();
            child.extend_from_slice(&(i as u32).to_le_bytes());
            child.extend_from_slice(&[7u8; 1024]);
            let s = cas.snapshot_delta(&p, &child, 4096).unwrap();
            assert_eq!(s.chunks[..64], p.chunks[..]);
        }
        assert_eq!(cas.unique_bytes().unwrap(), shared);
    }
}

#[test]
fn empty_blob_stores_nothing_and_reconstructs_empty() {
    let mut cas = store();
    let hashes = cas.put_blob(&[], 4096).unwrap();
    assert!(hashes.is_empty());
    assert!(cas.ref_counts().is_empty());
    assert_eq!(cas.files().refs_written, 0);
    assert_eq!(cas.reconstruct(&[]).unwrap(), Vec::<u8>::new());
}

#[test]
fn room_and_checked_put_follow_the_counts() {
    let mut cas = store();
    assert!(cas.has_room(u64::MAX));
    let h = cas.try_put_chunk(b"abc").unwrap();
    assert_eq!(h, ContentHash::of_bytes(b"abc"));
    assert!(cas.has_room(u64::MAX - 1));
    assert!(!cas.has_room(u64::MAX));
    let full = ContentStore::open(MemFiles::default(), vec![(h, u64::MAX)]);
    assert!(!full.has_room(1));
    let mut full = full;
    match full.try_put_chunk(b"abc") {
        Err(KernelError::Context(m)) => assert_eq!(m, "reference count overflow"),
        other => panic!("expected overflow, got {other:?}"),
    }
    assert_eq!(full.ref_counts(), &vec![(h, u64::MAX)]);
    assert!(full.files().files.is_empty());
    let other = full.try_put_chunk(b"xyz").unwrap();
    assert_eq!(other, ContentHash::of_bytes(b"xyz"));
}
