//! Immutable, hash-addressed context store with copy-on-write snapshots.
//!
//! Chunks are stored under `chunks/<first two hex digits>/<hex>`, addressed
//! by their BLAKE3 hash; the store counts the references to each chunk.

use vstd::prelude::*;
use crate::error::KernelError;
use crate::ids::{blake3_digest, hex_lower, is_random_uuid, ContentHash, SnapshotId};

verus! {

/// The files of a store, below its root. Paths are relative to the root.
pub trait ChunkFiles {
    /// Whether a file exists at the path.
    fn has_file(&self, path: &str) -> bool;

    /// Writes a chunk file: to a temporary file first, then renamed.
    fn write_chunk(&mut self, path: &str, bytes: &[u8]) -> Result<(), KernelError>;

    /// Reads a file; the error is the text of the I/O error.
    fn read(&self, path: &str) -> Result<Vec<u8>, String>;

    /// Writes the reference counts (`refs.json`).
    fn write_refs(&mut self, refs: &Vec<(ContentHash, u64)>) -> Result<(), KernelError>;

    /// Writes a snapshot's description (`snapshots/<id>.json`).
    fn write_snapshot(&mut self, snapshot: &Snapshot) -> Result<(), KernelError>;

    /// The chunk files: path, file name and length of each.
    fn chunk_files(&self) -> Result<Vec<(String, String, u64)>, KernelError>;

    /// Removes a file.
    fn remove(&mut self, path: &str) -> Result<(), KernelError>;
}

/// A snapshot: its chunks in order, the snapshot it derives from, and the
/// length of the blob it holds.
#[derive(Clone, Debug, PartialEq, Eq)]
pub struct Snapshot {
    pub id: SnapshotId,
    pub parent: Option<SnapshotId>,
    pub chunks: Vec<ContentHash>,
    pub byte_len: u64,
}

/// The chunks a blob is split into: pieces of `size` bytes, the last one
/// possibly shorter; none for an empty blob.
pub open spec fn chunks_of(b: Seq<u8>, size: nat) -> Seq<Seq<u8>>
    decreases b.len(),
{
    if b.len() == 0 {
        Seq::empty()
    } else if size == 0 || b.len() <= size {
        seq![b]
    } else {
        seq![b.take(size as int)] + chunks_of(b.skip(size as int), size)
    }
}

/// The chunk size actually used: at least one byte.
pub open spec fn effective_size(chunk_size: usize) -> nat {
    if chunk_size == 0 {
        1
    } else {
        chunk_size as nat
    }
}

/// The hashes are the digests of the parts, one for one.
pub open spec fn hashes_of(hashes: Seq<ContentHash>, parts: Seq<Seq<u8>>) -> bool {
    &&& hashes.len() == parts.len()
    &&& forall|i: int| 0 <= i < parts.len() ==> (#[trigger] hashes[i]).0@ == blake3_digest(parts[i])
}

/// How often a digest occurs among the hashes.
pub open spec fn occurrences(hashes: Seq<ContentHash>, k: Seq<u8>) -> nat
    decreases hashes.len(),
{
    if hashes.len() == 0 {
        0
    } else {
        occurrences(hashes.drop_last(), k) + if hashes.last().0@ == k {
            1nat
        } else {
            0nat
        }
    }
}

/// The count kept for a digest in a list of counts (0 when absent).
pub open spec fn count_in(refs: Seq<(ContentHash, u64)>, k: Seq<u8>) -> nat
    decreases refs.len(),
{
    if refs.len() == 0 {
        0
    } else if refs.last().0.0@ == k {
        refs.last().1 as nat
    } else {
        count_in(refs.drop_last(), k)
    }
}

/// No digest occurs twice.
pub open spec fn keys_distinct(refs: Seq<(ContentHash, u64)>) -> bool {
    forall|i: int, j: int| 0 <= i < j < refs.len() ==> (#[trigger] refs[i]).0.0@ != (#[trigger] refs[j]).0.0@
}

/// The counts whose value is positive, in their order.
pub open spec fn live_refs(refs: Seq<(ContentHash, u64)>) -> Seq<(ContentHash, u64)>
    decreases refs.len(),
{
    if refs.len() == 0 {
        Seq::empty()
    } else if refs.last().1 > 0 {
        live_refs(refs.drop_last()).push(refs.last())
    } else {
        live_refs(refs.drop_last())
    }
}

/// The sum of the blob lengths of snapshots.
pub open spec fn byte_total(snapshots: Seq<Snapshot>) -> nat
    decreases snapshots.len(),
{
    if snapshots.len() == 0 {
        0
    } else {
        byte_total(snapshots.drop_last()) + snapshots.last().byte_len as nat
    }
}

/// The path of a chunk below the root.
pub open spec fn chunk_path_text(h: Seq<u8>) -> Seq<char> {
    "chunks/"@ + hex_lower(h).subrange(0, 2) + "/"@ + hex_lower(h)
}

proof fn lemma_count_absent(refs: Seq<(ContentHash, u64)>, k: Seq<u8>)
    requires
        forall|i: int| 0 <= i < refs.len() ==> (#[trigger] refs[i]).0.0@ != k,
    ensures
        count_in(refs, k) == 0,
    decreases refs.len(),
{
    if refs.len() > 0 {
        lemma_count_absent(refs.drop_last(), k);
    }
}

proof fn lemma_count_is_entry(refs: Seq<(ContentHash, u64)>, k: Seq<u8>)
    ensures
        count_in(refs, k) == 0 || exists|j: int|
            0 <= j < refs.len() && count_in(refs, k) == (#[trigger] refs[j]).1,
    decreases refs.len(),
{
    if refs.len() > 0 && refs.last().0.0@ != k {
        lemma_count_is_entry(refs.drop_last(), k);
        if count_in(refs, k) != 0 {
            let j = choose|j: int|
                0 <= j < refs.drop_last().len() && count_in(refs.drop_last(), k) == (#[trigger] refs.drop_last()[j]).1;
            assert(refs[j] == refs.drop_last()[j]);
        }
    } else if refs.len() > 0 {
        assert(refs[refs.len() - 1] == refs.last());
    }
}

proof fn lemma_count_update(refs: Seq<(ContentHash, u64)>, i: int, c: u64, k: Seq<u8>)
    requires
        keys_distinct(refs),
        0 <= i < refs.len(),
    ensures
        keys_distinct(refs.update(i, (refs[i].0, c))),
        count_in(refs.update(i, (refs[i].0, c)), k) == if k == refs[i].0.0@ {
            c as nat
        } else {
            count_in(refs, k)
        },
        k == refs[i].0.0@ ==> count_in(refs, k) == refs[i].1,
    decreases refs.len(),
{
    let u = refs.update(i, (refs[i].0, c));
    assert forall|a: int, b: int| 0 <= a < b < u.len() implies (#[trigger] u[a]).0.0@ != (#[trigger] u[b]).0.0@ by {
        assert(refs[a].0.0@ != refs[b].0.0@);
    }
    if i == refs.len() - 1 {
        assert(u.drop_last() =~= refs.drop_last());
        if k != refs[i].0.0@ {
        } else {
        }
    } else {
        assert(u.drop_last() =~= refs.drop_last().update(i, (refs[i].0, c)));
        assert(keys_distinct(refs.drop_last()));
        lemma_count_update(refs.drop_last(), i, c, k);
        assert(refs.last().0.0@ != refs[i].0.0@);
    }
}

proof fn lemma_count_push(refs: Seq<(ContentHash, u64)>, h: ContentHash, c: u64, k: Seq<u8>)
    requires
        keys_distinct(refs),
        forall|i: int| 0 <= i < refs.len() ==> (#[trigger] refs[i]).0.0@ != h.0@,
    ensures
        keys_distinct(refs.push((h, c))),
        count_in(refs.push((h, c)), k) == if k == h.0@ {
            c as nat
        } else {
            count_in(refs, k)
        },
{
    let u = refs.push((h, c));
    assert(u.drop_last() =~= refs);
    assert forall|a: int, b: int| 0 <= a < b < u.len() implies (#[trigger] u[a]).0.0@ != (#[trigger] u[b]).0.0@ by {
        if b == refs.len() {
            assert(refs[a].0.0@ != h.0@);
        } else {
            assert(refs[a].0.0@ != refs[b].0.0@);
        }
    }
}

proof fn lemma_occurrences_push(hashes: Seq<ContentHash>, h: ContentHash, k: Seq<u8>)
    ensures
        occurrences(hashes.push(h), k) == occurrences(hashes, k) + if h.0@ == k {
            1nat
        } else {
            0nat
        },
{
    assert(hashes.push(h).drop_last() =~= hashes);
}

proof fn lemma_occurrences_bound(hashes: Seq<ContentHash>, k: Seq<u8>)
    ensures
        occurrences(hashes, k) <= hashes.len(),
    decreases hashes.len(),
{
    if hashes.len() > 0 {
        lemma_occurrences_bound(hashes.drop_last(), k);
    }
}

proof fn lemma_live_refs_count(refs: Seq<(ContentHash, u64)>, k: Seq<u8>)
    requires
        keys_distinct(refs),
    ensures
        count_in(live_refs(refs), k) == count_in(refs, k),
        keys_distinct(live_refs(refs)),
        forall|i: int| 0 <= i < live_refs(refs).len() ==> (#[trigger] live_refs(refs)[i]).1 > 0,
        forall|i: int| #![trigger live_refs(refs)[i]] 0 <= i < live_refs(refs).len() ==> exists|j: int| 0 <= j < refs.len() && #[trigger] refs[j] == live_refs(refs)[i],
    decreases refs.len(),
{
    if refs.len() > 0 {
        let d = refs.drop_last();
        assert(keys_distinct(d));
        lemma_live_refs_count(d, k);
        let l = live_refs(d);
        assert forall|i: int| 0 <= i < l.len() implies (#[trigger] l[i]).0.0@ != refs.last().0.0@ by {
            let j = choose|j: int| 0 <= j < d.len() && #[trigger] d[j] == l[i];
            assert(refs[j] == d[j]);
            assert(refs[j].0.0@ != refs[refs.len() - 1].0.0@);
        }
        if refs.last().1 > 0 {
            assert(live_refs(refs) == l.push(refs.last()));
            lemma_count_push(l, refs.last().0, refs.last().1, k);
            assert(l.push(refs.last()) =~= l.push((refs.last().0, refs.last().1)));
            let lr = live_refs(refs);
            assert forall|i: int| #![trigger lr[i]] 0 <= i < lr.len() implies exists|j: int| 0 <= j < refs.len() && #[trigger] refs[j] == lr[i] by {
                if i == l.len() {
                    assert(refs[refs.len() - 1] == lr[i]);
                } else {
                    let j = choose|j: int| 0 <= j < d.len() && #[trigger] d[j] == l[i];
                    assert(refs[j] == lr[i]);
                }
            }
        } else {
            if k == refs.last().0.0@ {
                lemma_count_absent(l, k);
            }
            assert forall|i: int| #![trigger l[i]] 0 <= i < l.len() implies exists|j: int| 0 <= j < refs.len() && #[trigger] refs[j] == l[i] by {
                let j = choose|j: int| 0 <= j < d.len() && #[trigger] d[j] == l[i];
                assert(refs[j] == l[i]);
            }
        }
    }
}

/// A blob split into chunks comes back whole when the chunks are joined.
pub proof fn lemma_chunks_rejoin(b: Seq<u8>, size: nat)
    ensures
        chunks_of(b, size).flatten() == b,
    decreases b.len(),
{
    if b.len() == 0 {
    } else if size == 0 || b.len() <= size {
        seq![b].lemma_flatten_one_element();
    } else {
        lemma_chunks_rejoin(b.skip(size as int), size);
        let c = chunks_of(b, size);
        assert(c.drop_first() =~= chunks_of(b.skip(size as int), size));
        assert(b =~= b.take(size as int) + b.skip(size as int));
    }
}

/// Every chunk of a blob is at most `size` bytes long, and only the last
/// may be shorter.
pub proof fn lemma_chunk_lengths(b: Seq<u8>, size: nat)
    requires
        size > 0,
    ensures
        forall|i: int| 0 <= i < chunks_of(b, size).len() ==> 0 < (#[trigger] chunks_of(b, size)[i]).len() <= size,
        forall|i: int| 0 <= i < chunks_of(b, size).len() - 1 ==> (#[trigger] chunks_of(b, size)[i]).len() == size,
    decreases b.len(),
{
    if b.len() > size {
        lemma_chunk_lengths(b.skip(size as int), size);
        let c = chunks_of(b, size);
        let t = chunks_of(b.skip(size as int), size);
        assert forall|i: int| 1 <= i < c.len() implies #[trigger] c[i] == t[i - 1] by {}
    }
}

/// A hash-addressed chunk store over a set of files, with a reference count
/// per chunk.
pub struct ContentStore<F> {
    files: F,
    refs: Vec<(ContentHash, u64)>,
}

impl<F: ChunkFiles> ContentStore<F> {
    /// The reference counts, in the order they were first made.
    pub closed spec fn refs(&self) -> Seq<(ContentHash, u64)> {
        self.refs@
    }

    /// The reference count of a chunk digest.
    pub open spec fn count(&self, k: Seq<u8>) -> nat {
        count_in(self.refs(), k)
    }

    /// No digest is counted twice.
    pub open spec fn wf(&self) -> bool {
        keys_distinct(self.refs())
    }

    /// Each count can be raised `n` more times.
    pub open spec fn room_for(&self, n: nat) -> bool {
        forall|k: Seq<u8>| #[trigger] self.count(k) + n <= u64::MAX
    }

    /// The counts after `hashes` were each referenced once more.
    pub open spec fn counted(&self, new: &Self, hashes: Seq<ContentHash>) -> bool {
        &&& new.wf()
        &&& forall|k: Seq<u8>| #[trigger] new.count(k) == self.count(k) + occurrences(hashes, k)
    }

    /// A store over `files` with the stored counts; a digest listed twice
    /// keeps its last count.
    pub fn open(files: F, stored: Vec<(ContentHash, u64)>) -> (s: Self)
        ensures
            s.wf(),
            s.file_store() == files,
            forall|k: Seq<u8>| #[trigger] s.count(k) == count_in(stored@, k),
    {
        let mut refs: Vec<(ContentHash, u64)> = Vec::new();
        let mut i: usize = 0;
        while i < stored.len()
            invariant
                i <= stored@.len(),
                keys_distinct(refs@),
                forall|k: Seq<u8>| #[trigger] count_in(refs@, k) == count_in(stored@.take(i as int), k),
            decreases stored@.len() - i,
        {
            let (h, c) = stored[i];
            let ghost before = refs@;
            proof {
                assert(stored@.take(i as int + 1).drop_last() =~= stored@.take(i as int));
            }
            match find_hash(&refs, &h) {
                Some(p) => {
                    proof {
                        lemma_count_update(before, p as int, c, h.0@);
                    }
                    let g = refs[p].0;
                    refs.set(p, (g, c));
                    proof {
                        assert(refs@ == before.update(p as int, (before[p as int].0, c)));
                        assert forall|k: Seq<u8>| #[trigger] count_in(refs@, k) == count_in(stored@.take(i as int + 1), k) by {
                            lemma_count_update(before, p as int, c, k);
                        }
                    }
                },
                None => {
                    refs.push((h, c));
                    proof {
                        assert forall|k: Seq<u8>| #[trigger] count_in(refs@, k) == count_in(stored@.take(i as int + 1), k) by {
                            lemma_count_push(before, h, c, k);
                        }
                        lemma_count_push(before, h, c, h.0@);
                    }
                },
            }
            i = i + 1;
        }
        proof {
            assert(stored@.take(i as int) =~= stored@);
        }
        ContentStore { files, refs }
    }

    /// The files below the root.
    pub closed spec fn file_store(&self) -> F {
        self.files
    }

    /// The files below the root.
    pub fn files(&self) -> (f: &F)
        ensures
            *f == self.file_store(),
    {
        &self.files
    }

    /// The reference counts.
    pub fn ref_counts(&self) -> (r: &Vec<(ContentHash, u64)>)
        ensures
            r@ == self.refs(),
    {
        &self.refs
    }

    /// The path of a chunk below the root: `chunks/<first two hex digits>/<hex>`.
    pub fn chunk_path(&self, hash: ContentHash) -> (p: String)
        ensures
            p@ == chunk_path_text(hash.0@),
    {
        let hex = hash.to_hex();
        let prefix = hash.hex_prefix();
        let mut p = String::from_str("chunks/");
        p.append(prefix.as_str());
        p.append("/");
        p.append(hex.as_str());
        p
    }

    fn persist_refs(&mut self) -> (r: Result<(), KernelError>)
        ensures
            final(self).refs() == old(self).refs(),
            final(self).wf() == old(self).wf(),
            forall|k: Seq<u8>| #[trigger] final(self).count(k) == old(self).count(k),
    {
        self.files.write_refs(&self.refs)
    }

    /// One more reference to a chunk digest.
    fn bump(&mut self, hash: ContentHash)
        requires
            old(self).wf(),
            old(self).count(hash.0@) < u64::MAX,
        ensures
            final(self).wf(),
            forall|k: Seq<u8>| #[trigger] final(self).count(k) == old(self).count(k) + if k == hash.0@ {
                1nat
            } else {
                0nat
            },
    {
        let ghost before = self.refs@;
        match find_hash(&self.refs, &hash) {
            Some(p) => {
                let c = self.refs[p].1;
                proof {
                    lemma_count_update(before, p as int, (c + 1) as u64, hash.0@);
                }
                let h = self.refs[p].0;
                self.refs.set(p, (h, c + 1));
                proof {
                    assert(self.refs@ == before.update(p as int, (before[p as int].0, (c + 1) as u64)));
                    assert forall|k: Seq<u8>| #[trigger] count_in(self.refs@, k) == count_in(before, k)
                        + if k == hash.0@ {
                        1nat
                    } else {
                        0nat
                    } by {
                        lemma_count_update(before, p as int, (c + 1) as u64, k);
                    }
                }
            },
            None => {
                proof {
                    lemma_count_absent(before, hash.0@);
                }
                self.refs.push((hash, 1));
                proof {
                    assert forall|k: Seq<u8>| #[trigger] count_in(self.refs@, k) == count_in(before, k)
                        + if k == hash.0@ {
                        1nat
                    } else {
                        0nat
                    } by {
                        lemma_count_push(before, hash, 1, k);
                    }
                    lemma_count_push(before, hash, 1, hash.0@);
                }
            },
        }
    }

    /// Stores a chunk under its hash, unless a file is already there, and
    /// counts one more reference to it; the counts are then persisted.
    pub fn put_chunk(&mut self, bytes: &[u8]) -> (r: Result<ContentHash, KernelError>)
        requires
            old(self).wf(),
            old(self).count(blake3_digest(bytes@)) < u64::MAX,
        ensures
            final(self).wf(),
            r matches Ok(h) ==> h.0@ == blake3_digest(bytes@) && old(self).counted(final(self), seq![h]),
            r is Err ==> final(self).refs() == old(self).refs() || forall|k: Seq<u8>|
                #[trigger] final(self).count(k) == old(self).count(k) + if k == blake3_digest(bytes@) {
                    1nat
                } else {
                    0nat
                },
    {
        let hash = ContentHash::of_bytes(bytes);
        let path = self.chunk_path(hash);
        if !self.files.has_file(path.as_str()) {
            self.files.write_chunk(path.as_str(), bytes)?;
        }
        self.bump(hash);
        proof {
            assert forall|k: Seq<u8>| #[trigger] self.count(k) == old(self).count(k) + occurrences(seq![hash], k) by {
                lemma_occurrences_push(Seq::empty(), hash, k);
                assert(Seq::<ContentHash>::empty().push(hash) =~= seq![hash]);
            }
        }
        self.persist_refs()?;
        Ok(hash)
    }

    /// Whether every reference count can be raised `n` more times.
    pub fn has_room(&self, n: u64) -> (b: bool)
        requires
            self.wf(),
        ensures
            b == self.room_for(n as nat),
    {
        let mut i: usize = 0;
        while i < self.refs.len()
            invariant
                i <= self.refs@.len(),
                keys_distinct(self.refs@),
                forall|j: int| 0 <= j < i ==> (#[trigger] self.refs@[j]).1 + n <= u64::MAX,
            decreases self.refs@.len() - i,
        {
            if self.refs[i].1 > u64::MAX - n {
                proof {
                    let k = self.refs@[i as int].0.0@;
                    lemma_count_update(self.refs@, i as int, self.refs@[i as int].1, k);
                    assert(self.count(k) + n > u64::MAX);
                }
                return false;
            }
            i = i + 1;
        }
        proof {
            assert forall|k: Seq<u8>| #[trigger] self.count(k) + n <= u64::MAX by {
                lemma_count_is_entry(self.refs@, k);
            }
        }
        true
    }

    /// Stores a chunk as `put_chunk` does, or, when the count of its digest
    /// cannot be raised, leaves the store as it is and reports the overflow.
    pub fn try_put_chunk(&mut self, bytes: &[u8]) -> (r: Result<ContentHash, KernelError>)
        requires
            old(self).wf(),
        ensures
            final(self).wf(),
            old(self).count(blake3_digest(bytes@)) == u64::MAX ==> {
                &&& *final(self) == *old(self)
                &&& r matches Err(KernelError::Context(m)) && m@ == "reference count overflow"@
            },
            old(self).count(blake3_digest(bytes@)) < u64::MAX ==> {
                &&& r matches Ok(h) ==> h.0@ == blake3_digest(bytes@) && old(self).counted(final(self), seq![h])
                &&& r is Err ==> final(self).refs() == old(self).refs() || forall|k: Seq<u8>|
                    #[trigger] final(self).count(k) == old(self).count(k) + if k == blake3_digest(bytes@) {
                        1nat
                    } else {
                        0nat
                    }
            },
    {
        let hash = ContentHash::of_bytes(bytes);
        if count_of(&self.refs, &hash) == u64::MAX {
            let m = String::from_str("reference count overflow");
            proof {
                reveal_strlit("reference count overflow");
            }
            return Err(KernelError::Context(m));
        }
        self.put_chunk(bytes)
    }

    /// Reads the stored bytes of a chunk; a missing file is a context error.
    pub fn get_chunk(&self, hash: ContentHash) -> (r: Result<Vec<u8>, KernelError>)
        ensures
            r matches Err(e) ==> e is Context,
    {
        let path = self.chunk_path(hash);
        match self.files.read(path.as_str()) {
            Ok(bytes) => Ok(bytes),
            Err(err) => {
                let mut msg = String::from_str("missing chunk ");
                let hex = hash.to_hex();
                msg.append(hex.as_str());
                msg.append(": ");
                msg.append(err.as_str());
                Err(KernelError::Context(msg))
            },
        }
    }

    /// Splits a blob into chunks of `chunk_size` bytes (at least one) and
    /// stores each; an empty blob has no chunks.
    pub fn put_blob(&mut self, bytes: &[u8], chunk_size: usize) -> (r: Result<Vec<ContentHash>, KernelError>)
        requires
            old(self).wf(),
            old(self).room_for(bytes@.len()),
        ensures
            final(self).wf(),
            r matches Ok(hs) ==> hashes_of(hs@, chunks_of(bytes@, effective_size(chunk_size)))
                && old(self).counted(final(self), hs@),
            bytes@.len() == 0 ==> (r matches Ok(hs) && hs@.len() == 0 && *final(self) == *old(self)),
    {
        let mut hashes: Vec<ContentHash> = Vec::new();
        if bytes.len() == 0 {
            proof {
                assert forall|k: Seq<u8>| #[trigger] self.count(k) == old(self).count(k) + occurrences(hashes@, k) by {}
            }
            return Ok(hashes);
        }
        let size: usize = if chunk_size == 0 {
            1
        } else {
            chunk_size
        };
        let ghost all = chunks_of(bytes@, size as nat);
        let ghost mut done: Seq<Seq<u8>> = Seq::empty();
        let mut start: usize = 0;
        proof {
            assert(bytes@.skip(0) =~= bytes@);
            assert(done + chunks_of(bytes@.skip(0), size as nat) =~= all);
            assert forall|k: Seq<u8>| #[trigger] self.count(k) == old(self).count(k) + occurrences(hashes@, k) by {}
        }
        while start < bytes.len()
            invariant
                size == effective_size(chunk_size),
                size > 0,
                start <= bytes@.len(),
                all == chunks_of(bytes@, size as nat),
                all == done + chunks_of(bytes@.skip(start as int), size as nat),
                hashes_of(hashes@, done),
                done.len() <= start,
                self.wf(),
                forall|k: Seq<u8>| #[trigger] self.count(k) == old(self).count(k) + occurrences(hashes@, k),
                old(self).room_for(bytes@.len()),
            decreases bytes@.len() - start,
        {
            let rest = bytes.len() - start;
            let end: usize = if rest <= size {
                bytes.len()
            } else {
                start + size
            };
            let part = vstd::slice::slice_subrange(bytes, start, end);
            let ghost tail = bytes@.skip(start as int);
            proof {
                if rest <= size {
                    assert(chunks_of(tail, size as nat) == seq![tail]);
                    assert(part@ =~= tail);
                } else {
                    assert(part@ =~= tail.take(size as int));
                    assert(tail.skip(size as int) =~= bytes@.skip(end as int));
                }
                lemma_occurrences_bound(hashes@, blake3_digest(part@));
                assert(self.count(blake3_digest(part@)) < u64::MAX);
            }
            let h = self.put_chunk(part)?;
            let ghost old_hashes = hashes@;
            hashes.push(h);
            proof {
                let ghost new_done = done.push(part@);
                if rest <= size {
                    assert(all =~= new_done + chunks_of(bytes@.skip(end as int), size as nat));
                } else {
                    assert(chunks_of(tail, size as nat) == seq![tail.take(size as int)] + chunks_of(tail.skip(size as int), size as nat));
                    assert(all =~= new_done + chunks_of(bytes@.skip(end as int), size as nat));
                }
                assert forall|k: Seq<u8>| #[trigger] self.count(k) == old(self).count(k) + occurrences(hashes@, k) by {
                    lemma_occurrences_push(old_hashes, h, k);
                    lemma_occurrences_push(Seq::empty(), h, k);
                    assert(Seq::<ContentHash>::empty().push(h) =~= seq![h]);
                }
                done = new_done;
            }
            start = end;
        }
        proof {
            assert(bytes@.skip(start as int) =~= Seq::<u8>::empty());
            assert(all =~= done);
        }
        Ok(hashes)
    }

    /// Joins the stored bytes of chunks in order; each must hash to its
    /// address, else the store reports it as corrupt.
    pub fn reconstruct(&self, chunks: &[ContentHash]) -> (r: Result<Vec<u8>, KernelError>)
        ensures
            r matches Ok(out) ==> exists|parts: Seq<Seq<u8>>|
                #[trigger] hashes_of(chunks@, parts) && out@ == parts.flatten(),
            r matches Err(e) ==> e is Context,
            chunks@.len() == 0 ==> (r matches Ok(out) && out@.len() == 0),
    {
        let mut out: Vec<u8> = Vec::new();
        let ghost mut parts: Seq<Seq<u8>> = Seq::empty();
        let mut i: usize = 0;
        while i < chunks.len()
            invariant
                i <= chunks@.len(),
                parts.len() == i,
                forall|j: int| 0 <= j < i ==> (#[trigger] chunks@[j]).0@ == blake3_digest(parts[j]),
                out@ == parts.flatten_alt(),
            decreases chunks@.len() - i,
        {
            let hash = chunks[i];
            let mut stored = self.get_chunk(hash)?;
            let check = ContentHash::of_bytes(stored.as_slice());
            if !check.same(&hash) {
                let mut msg = String::from_str("chunk ");
                let hex = hash.to_hex();
                msg.append(hex.as_str());
                msg.append(" failed corruption detection");
                return Err(KernelError::Context(msg));
            }
            let ghost piece = stored@;
            out.append(&mut stored);
            proof {
                let np = parts.push(piece);
                assert(np.drop_last() =~= parts);
                parts = np;
            }
            i = i + 1;
        }
        proof {
            parts.lemma_flatten_and_flatten_alt_are_equivalent();
            assert(hashes_of(chunks@, parts));
        }
        Ok(out)
    }

    fn write_snapshot(&mut self, snap: &Snapshot) -> (r: Result<(), KernelError>)
        ensures
            final(self).refs() == old(self).refs(),
            final(self).wf() == old(self).wf(),
            forall|k: Seq<u8>| #[trigger] final(self).count(k) == old(self).count(k),
    {
        self.files.write_snapshot(snap)
    }

    /// Stores a blob as a new snapshot, derived from `parent` when given.
    pub fn snapshot(&mut self, parent: Option<&Snapshot>, blob: &[u8], chunk_size: usize) -> (r: Result<
        Snapshot,
        KernelError,
    >)
        requires
            old(self).wf(),
            old(self).room_for(blob@.len()),
        ensures
            final(self).wf(),
            r matches Ok(s) ==> {
                &&& is_random_uuid(s.id.0)
                &&& s.parent == match parent {
                    Some(p) => Some(p.id),
                    None => None::<SnapshotId>,
                }
                &&& s.byte_len == blob@.len()
                &&& hashes_of(s.chunks@, chunks_of(blob@, effective_size(chunk_size)))
                &&& old(self).counted(final(self), s.chunks@)
            },
    {
        let chunks = self.put_blob(blob, chunk_size)?;
        let parent_id = match parent {
            Some(p) => Some(p.id),
            None => None,
        };
        let snap = Snapshot { id: SnapshotId::new(), parent: parent_id, chunks, byte_len: blob.len() as u64 };
        self.write_snapshot(&snap)?;
        Ok(snap)
    }

    /// A copy-on-write child of `parent`: a chunk equal to the parent's chunk
    /// at the same position is shared (only its count rises); any other is
    /// stored.
    pub fn snapshot_delta(&mut self, parent: &Snapshot, blob: &[u8], chunk_size: usize) -> (r: Result<
        Snapshot,
        KernelError,
    >)
        requires
            old(self).wf(),
            old(self).room_for(blob@.len()),
        ensures
            final(self).wf(),
            r matches Ok(s) ==> {
                &&& is_random_uuid(s.id.0)
                &&& s.parent == Some(parent.id)
                &&& s.byte_len == blob@.len()
                &&& hashes_of(s.chunks@, chunks_of(blob@, effective_size(chunk_size)))
                &&& old(self).counted(final(self), s.chunks@)
            },
    {
        let size: usize = if chunk_size == 0 {
            1
        } else {
            chunk_size
        };
        let mut chunks: Vec<ContentHash> = Vec::new();
        let ghost all = chunks_of(blob@, size as nat);
        let ghost mut done: Seq<Seq<u8>> = Seq::empty();
        let mut start: usize = 0;
        proof {
            assert(blob@.skip(0) =~= blob@);
            assert(done + chunks_of(blob@.skip(0), size as nat) =~= all);
            assert forall|k: Seq<u8>| #[trigger] self.count(k) == old(self).count(k) + occurrences(chunks@, k) by {}
        }
        let mut i: usize = 0;
        while start < blob.len()
            invariant
                size == effective_size(chunk_size),
                size > 0,
                start <= blob@.len(),
                all == chunks_of(blob@, size as nat),
                all == done + chunks_of(blob@.skip(start as int), size as nat),
                hashes_of(chunks@, done),
                i == chunks@.len(),
                done.len() <= start,
                self.wf(),
                forall|k: Seq<u8>| #[trigger] self.count(k) == old(self).count(k) + occurrences(chunks@, k),
                old(self).room_for(blob@.len()),
            decreases blob@.len() - start,
        {
            let rest = blob.len() - start;
            let end: usize = if rest <= size {
                blob.len()
            } else {
                start + size
            };
            let part = vstd::slice::slice_subrange(blob, start, end);
            let ghost tail = blob@.skip(start as int);
            proof {
                if rest <= size {
                    assert(chunks_of(tail, size as nat) == seq![tail]);
                    assert(part@ =~= tail);
                } else {
                    assert(part@ =~= tail.take(size as int));
                    assert(tail.skip(size as int) =~= blob@.skip(end as int));
                }
                lemma_occurrences_bound(chunks@, blake3_digest(part@));
                assert(self.count(blake3_digest(part@)) < u64::MAX);
            }
            let hash = ContentHash::of_bytes(part);
            let shared = i < parent.chunks.len() && parent.chunks[i].same(&hash);
            let h = if shared {
                self.bump(hash);
                proof {
                    assert forall|k: Seq<u8>| #[trigger] self.count(k) == old(self).count(k) + occurrences(chunks@.push(hash), k) by {
                        lemma_occurrences_push(chunks@, hash, k);
                    }
                }
                hash
            } else {
                let ghost before = chunks@;
                let h = self.put_chunk(part)?;
                proof {
                    assert forall|k: Seq<u8>| #[trigger] self.count(k) == old(self).count(k) + occurrences(before.push(h), k) by {
                        lemma_occurrences_push(before, h, k);
                        lemma_occurrences_push(Seq::empty(), h, k);
                        assert(Seq::<ContentHash>::empty().push(h) =~= seq![h]);
                    }
                }
                h
            };
            chunks.push(h);
            i = i + 1;
            proof {
                let ghost new_done = done.push(part@);
                if rest <= size {
                    assert(all =~= new_done + chunks_of(blob@.skip(end as int), size as nat));
                } else {
                    assert(chunks_of(tail, size as nat) == seq![tail.take(size as int)] + chunks_of(tail.skip(size as int), size as nat));
                    assert(all =~= new_done + chunks_of(blob@.skip(end as int), size as nat));
                }
                done = new_done;
            }
            start = end;
        }
        proof {
            assert(blob@.skip(start as int) =~= Seq::<u8>::empty());
            assert(all =~= done);
        }
        self.persist_refs()?;
        let snap = Snapshot { id: SnapshotId::new(), parent: Some(parent.id), chunks, byte_len: blob.len() as u64 };
        self.write_snapshot(&snap)?;
        Ok(snap)
    }

    /// The total length of the chunk files the file listing reports (see
    /// `total_file_bytes`); what the listing holds is the file system's.
    pub fn unique_bytes(&self) -> (r: Result<u64, KernelError>)
    {
        let files = self.files.chunk_files()?;
        Ok(total_file_bytes(&files))
    }

    /// The sum of the blob lengths of snapshots.
    pub fn referenced_bytes(&self, snapshots: &[Snapshot]) -> (n: u64)
        requires
            byte_total(snapshots@) <= u64::MAX,
        ensures
            n == byte_total(snapshots@),
    {
        let mut total: u64 = 0;
        let mut i: usize = 0;
        while i < snapshots.len()
            invariant
                i <= snapshots@.len(),
                byte_total(snapshots@) <= u64::MAX,
                total == byte_total(snapshots@.take(i as int)),
            decreases snapshots@.len() - i,
        {
            proof {
                assert(snapshots@.take(i as int + 1).drop_last() =~= snapshots@.take(i as int));
                lemma_byte_total_prefix(snapshots@, i as int + 1);
            }
            total = total + snapshots[i].byte_len;
            i = i + 1;
        }
        proof {
            assert(snapshots@.take(i as int) =~= snapshots@);
        }
        total
    }

    /// Whether a chunk file's name is the hex of a digest with no live
    /// reference.
    pub fn is_garbage(&self, name: &str) -> (b: bool)
        requires
            self.wf(),
        ensures
            b == (exists|h: ContentHash| crate::ids::hex_decodable(name@)
                && crate::ids::hex_decoded(name@) == h.0@ && #[trigger] self.count(h.0@) == 0),
    {
        match ContentHash::from_hex(name) {
            Err(_) => {
                proof {
                    assert forall|g: ContentHash| #[trigger] self.count(g.0@) == 0 implies !(crate::ids::hex_decodable(name@)
                        && crate::ids::hex_decoded(name@) == g.0@) by {
                        assert(g.0@.len() == 32);
                    }
                }
                false
            },
            Ok(h) => {
                let c = count_of(&self.refs, &h);
                proof {
                    if c != 0 {
                        assert forall|g: ContentHash| crate::ids::hex_decodable(name@) && crate::ids::hex_decoded(
                            name@,
                        ) == g.0@ implies #[trigger] self.count(g.0@) != 0 by {
                            assert(g.0@ == h.0@);
                        }
                    }
                }
                proof {
                    if c == 0 {
                        assert(self.count(h.0@) == 0);
                    }
                }
                c == 0
            },
        }
    }

    /// Removes the chunk files with no live reference, forgets the counts
    /// that reached zero, persists the rest, and returns the bytes removed
    /// (a sum past `u64::MAX` stays there).
    pub fn gc(&mut self) -> (r: Result<u64, KernelError>)
        requires
            old(self).wf(),
        ensures
            final(self).wf(),
            r is Ok ==> final(self).refs() == live_refs(old(self).refs()),
            forall|k: Seq<u8>| #[trigger] final(self).count(k) == old(self).count(k),
            r matches Ok(n) ==> exists|fs: Vec<(String, String, u64)>|
                #[trigger] call_ensures(F::chunk_files, (&old(self).file_store(),), Ok::<Vec<(String, String, u64)>, KernelError>(fs))
                    && n == capped_total(garbage_bytes(old(self).refs(), fs@)),
    {
        proof {
            assert forall|k: Seq<u8>| #[trigger] count_in(live_refs(self.refs@), k) == count_in(self.refs@, k) by {
                lemma_live_refs_count(self.refs@, k);
            }
        }
        let list = F::chunk_files;
        let files = match list(&self.files) {
            Ok(f) => f,
            Err(e) => {
                return Err(e);
            },
        };
        assert(call_ensures(F::chunk_files, (&old(self).file_store(),), Ok::<Vec<(String, String, u64)>, KernelError>(files)));
        let mut removed: u64 = 0;
        let mut i: usize = 0;
        let ghost refs0 = self.refs@;
        while i < files.len()
            invariant
                i <= files@.len(),
                self.refs@ == refs0,
                refs0 == old(self).refs@,
                self.wf(),
                removed == capped_total(garbage_bytes(refs0, files@.take(i as int))),
            decreases files@.len() - i,
        {
            proof {
                assert(files@.take(i as int + 1).drop_last() =~= files@.take(i as int));
                assert(files@.take(i as int + 1).last() == files@[i as int]);
            }
            let (path, name, len) = &files[i];
            let g = self.is_garbage(name.as_str());
            proof {
                if g {
                    let h = choose|h: ContentHash| crate::ids::hex_decodable(name@)
                        && crate::ids::hex_decoded(name@) == h.0@ && #[trigger] self.count(h.0@) == 0;
                    assert(count_in(refs0, h.0@) == 0);
                    assert(garbage_name(refs0, name@));
                } else {
                    assert forall|h: ContentHash| crate::ids::hex_decodable(name@)
                        && crate::ids::hex_decoded(name@) == h.0@ implies #[trigger] count_in(refs0, h.0@) != 0 by {
                        assert(self.count(h.0@) == count_in(refs0, h.0@));
                    }
                    assert(!garbage_name(refs0, name@));
                }
            }
            if g {
                self.files.remove(path.as_str())?;
                removed = removed.saturating_add(*len);
            }
            i = i + 1;
        }
        proof {
            assert(files@.take(i as int) =~= files@);
        }
        let mut live: Vec<(ContentHash, u64)> = Vec::new();
        let mut j: usize = 0;
        while j < self.refs.len()
            invariant
                j <= self.refs@.len(),
                self.refs@ == refs0,
                live@ == live_refs(self.refs@.take(j as int)),
            decreases self.refs@.len() - j,
        {
            proof {
                assert(self.refs@.take(j as int + 1).drop_last() =~= self.refs@.take(j as int));
            }
            if self.refs[j].1 > 0 {
                live.push(self.refs[j]);
            }
            j = j + 1;
        }
        proof {
            assert(self.refs@.take(j as int) =~= self.refs@);
            lemma_live_refs_count(refs0, Seq::empty());
        }
        self.refs = live;
        self.persist_refs()?;
        Ok(removed)
    }
}

proof fn lemma_byte_total_prefix(s: Seq<Snapshot>, n: int)
    requires
        0 < n <= s.len(),
    ensures
        byte_total(s.take(n)) == byte_total(s.take(n - 1)) + s[n - 1].byte_len,
        byte_total(s.take(n)) <= byte_total(s),
    decreases s.len() - n,
{
    assert(s.take(n).drop_last() =~= s.take(n - 1));
    if n < s.len() {
        lemma_byte_total_prefix(s, n + 1);
    } else {
        assert(s.take(n) =~= s);
    }
}

/// Whether a chunk file's name is the hex of a digest that `refs` counts as
/// zero (or does not count).
pub open spec fn garbage_name(refs: Seq<(ContentHash, u64)>, name: Seq<char>) -> bool {
    exists|h: ContentHash|
        crate::ids::hex_decodable(name) && crate::ids::hex_decoded(name) == h.0@ && #[trigger] count_in(refs, h.0@) == 0
}

/// The sum of the listed lengths of the files whose names are garbage under
/// `refs`.
pub open spec fn garbage_bytes(refs: Seq<(ContentHash, u64)>, fs: Seq<(String, String, u64)>) -> nat
    decreases fs.len(),
{
    if fs.len() == 0 {
        0
    } else {
        garbage_bytes(refs, fs.drop_last()) + if garbage_name(refs, fs.last().1@) {
            fs.last().2 as nat
        } else {
            0
        }
    }
}

/// What garbage collection reports, against the listing: never more than the
/// listed bytes; all of them when every listed file is garbage; nothing when
/// none is; and a listing's parts add up.
pub proof fn lemma_gc_bytes_are_the_removed_files(
    refs: Seq<(ContentHash, u64)>,
    fs: Seq<(String, String, u64)>,
    gs: Seq<(String, String, u64)>,
)
    ensures
        garbage_bytes(refs, fs) <= listed_total(fs),
        (forall|i: int| 0 <= i < fs.len() ==> garbage_name(refs, #[trigger] fs[i].1@)) ==> garbage_bytes(refs, fs)
            == listed_total(fs),
        (forall|i: int| 0 <= i < fs.len() ==> !garbage_name(refs, #[trigger] fs[i].1@)) ==> garbage_bytes(refs, fs)
            == 0,
        garbage_bytes(refs, fs + gs) == garbage_bytes(refs, fs) + garbage_bytes(refs, gs),
    decreases fs.len() + gs.len(),
{
    if fs.len() > 0 {
        lemma_gc_bytes_are_the_removed_files(refs, fs.drop_last(), Seq::empty());
        assert forall|i: int| 0 <= i < fs.drop_last().len() implies fs.drop_last()[i] == fs[i] by {}
    }
    if gs.len() > 0 {
        lemma_gc_bytes_are_the_removed_files(refs, fs, gs.drop_last());
        assert((fs + gs).drop_last() =~= fs + gs.drop_last());
        assert((fs + gs).last() == gs.last());
    } else {
        assert(fs + gs =~= fs);
    }
}

/// The sum of the lengths in a file listing.
pub open spec fn listed_total(fs: Seq<(String, String, u64)>) -> nat
    decreases fs.len(),
{
    if fs.len() == 0 {
        0
    } else {
        listed_total(fs.drop_last()) + fs.last().2 as nat
    }
}

/// A total, or `u64::MAX` when it does not fit.
pub open spec fn capped_total(n: nat) -> u64 {
    if n <= u64::MAX {
        n as u64
    } else {
        u64::MAX
    }
}

/// The total length of listed files: (path, name, length) entries; a sum
/// past `u64::MAX` stays there.
pub fn total_file_bytes(files: &Vec<(String, String, u64)>) -> (n: u64)
    ensures
        n == capped_total(listed_total(files@)),
{
    let mut total: u64 = 0;
    let mut i: usize = 0;
    while i < files.len()
        invariant
            i <= files@.len(),
            total == capped_total(listed_total(files@.take(i as int))),
        decreases files@.len() - i,
    {
        proof {
            assert(files@.take(i as int + 1).drop_last() =~= files@.take(i as int));
        }
        total = total.saturating_add(files[i].2);
        i = i + 1;
    }
    proof {
        assert(files@.take(i as int) =~= files@);
    }
    total
}

/// The position of a digest in a list of counts.
fn find_hash(refs: &Vec<(ContentHash, u64)>, h: &ContentHash) -> (r: Option<usize>)
    ensures
        match r {
            Some(p) => p < refs@.len() && refs@[p as int].0.0@ == h.0@,
            None => forall|i: int| 0 <= i < refs@.len() ==> (#[trigger] refs@[i]).0.0@ != h.0@,
        },
{
    let mut i: usize = 0;
    while i < refs.len()
        invariant
            i <= refs@.len(),
            forall|j: int| 0 <= j < i ==> (#[trigger] refs@[j]).0.0@ != h.0@,
        decreases refs@.len() - i,
    {
        if refs[i].0.same(h) {
            return Some(i);
        }
        i = i + 1;
    }
    None
}

/// The count kept for a digest.
fn count_of(refs: &Vec<(ContentHash, u64)>, h: &ContentHash) -> (c: u64)
    requires
        keys_distinct(refs@),
    ensures
        c == count_in(refs@, h.0@),
{
    match find_hash(refs, h) {
        Some(p) => {
            proof {
                lemma_count_update(refs@, p as int, refs@[p as int].1, h.0@);
            }
            refs[p].1
        },
        None => {
            proof {
                lemma_count_absent(refs@, h.0@);
            }
            0
        },
    }
}

/// Naive child context duplication: each child stores a full copy of the
/// parent plus its own delta.
pub fn naive_child_storage_bytes(parent_bytes: u64, child_delta_bytes: u64, n_children: u64) -> (n: u64)
    requires
        parent_bytes + child_delta_bytes <= u64::MAX,
        n_children * (parent_bytes + child_delta_bytes) <= u64::MAX,
        parent_bytes + n_children * (parent_bytes + child_delta_bytes) <= u64::MAX,
    ensures
        n == parent_bytes + n_children * (parent_bytes + child_delta_bytes),
{
    parent_bytes + n_children * (parent_bytes + child_delta_bytes)
}

/// A shared parent snapshot plus one delta per child.
pub fn shared_child_storage_bytes(parent_bytes: u64, child_delta_bytes: u64, n_children: u64) -> (n: u64)
    requires
        n_children * child_delta_bytes <= u64::MAX,
        parent_bytes + n_children * child_delta_bytes <= u64::MAX,
    ensures
        n == parent_bytes + n_children * child_delta_bytes,
{
    parent_bytes + n_children * child_delta_bytes
}

} // verus!
