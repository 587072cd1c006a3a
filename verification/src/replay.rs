//! Replaying a log: prefix hashes, reports up to an event, and forks.
use vstd::prelude::*;
use vstd::string::StringExecFns;

use crate::error::{rejected, KernelError, Rejection};
use crate::event::{same_event, same_record, Event, EventRecord, SCHEMA_VERSION};
use crate::ids::{
    hex_lower, blake3_digest, is_random_uuid, uuid_text_spec, CorrelationId, EventId, ExecutionId,
    IdempotencyKey, StateHash,
};
use crate::kernel::{
    is_blank_of, lemma_reduce_all_push, business_bytes_of, business_serialized, canonical_all, canonical_by, canonical_bytes, find_event,
    key_text, state_bytes_of, state_serialized, Kernel, LogBackend,
};
use crate::log::frame_record;
use crate::model::{reduce_all_spec_from, reduce_spec, same_error};
use crate::reducer::{byte_seqs, reduce, reduce_all};
use crate::state::{empty_kernel_view, ExecutionState, ExecutionView, KernelState, KernelView};
use crate::text::{decimal_text, u64_text};
use crate::viewer::{render_trace, render_tree, trace_text, tree_text};

verus! {

/// Replaying records one at a time from the empty state, with the given
/// canonical bytes: the state reached, and, for each record after which the
/// execution it addresses exists, its event id and that execution's state.
pub open spec fn replay_ids(records: Seq<EventRecord>, cs: Seq<Seq<u8>>) -> Option<
    (KernelView, Seq<(EventId, ExecutionView)>),
>
    decreases records.len(),
{
    if records.len() == 0 {
        Some((empty_kernel_view(), Seq::empty()))
    } else {
        match replay_ids(records.drop_last(), cs.drop_last()) {
            None => None,
            Some(p) => match reduce_spec(p.0, records.last(), cs.last()) {
                Err(_) => None,
                Ok(t) => Some(
                    (
                        t,
                        if t.executions.contains_key(records.last().execution_id.0) {
                            p.1.push((records.last().event_id, t.executions[records.last().execution_id.0]))
                        } else {
                            p.1
                        },
                    ),
                ),
            },
        }
    }
}


/// `v` lists, for each record after which the execution it addresses exists,
/// its event id and the hashes of the backend's serializations of that
/// execution's state then, replaying with the backend's canonical bytes.
pub open spec fn hashes_replayed<B: LogBackend>(
    b: &B,
    records: Seq<EventRecord>,
    v: Seq<(EventId, StateHash, StateHash)>,
) -> bool {
    exists|cs: Seq<Seq<u8>>|
        {
            &&& #[trigger] canonical_all(b, records, cs)
            &&& replay_ids(records, cs) matches Some(p) && p.1.len() == v.len() && forall|j: int|
                0 <= j < v.len() ==> #[trigger] entry_hashed(b, v[j], p.1[j])
        }
}

/// Hashing the steps of a replay of `records` fails with `e` at some record:
/// the reducer refused it, or a serialization of the state after it failed.
pub open spec fn hashing_failed<B: LogBackend>(b: &B, records: Seq<EventRecord>, e: KernelError) -> bool {
    exists|n: int, cs: Seq<Seq<u8>>|
        {
            &&& 0 <= n < records.len()
            &&& #[trigger] canonical_all(b, records.take(n + 1), cs)
            &&& replay_ids(records.take(n), cs.take(n)) matches Some(p) && step_failed(
                b,
                p.0,
                records[n],
                cs[n],
                e,
            )
        }
}

/// An entry of the prefix hashes: the event id, and the hashes of the
/// backend's state and business serializations of the execution state `e`.
pub open spec fn entry_hashed<B: LogBackend>(
    b: &B,
    t: (EventId, StateHash, StateHash),
    p: (EventId, ExecutionView),
) -> bool {
    &&& t.0 == p.0
    &&& exists|sb: Vec<u8>|
        #[trigger] state_serialized(b, p.1, Ok(sb)) && t.1.0@ == blake3_digest(sb@)
    &&& exists|bb: Vec<u8>|
        #[trigger] business_serialized(b, p.1, Ok(bb)) && t.2.0@ == blake3_digest(bb@)
}

proof fn lemma_hashing_failed<B: LogBackend>(
    b: &B,
    records: Seq<EventRecord>,
    cs_old: Seq<Seq<u8>>,
    i: int,
    c: Seq<u8>,
    e: KernelError,
)
    requires
        0 <= i < records.len(),
        cs_old.len() == i,
        forall|j: int| 0 <= j < i ==> #[trigger] canonical_by(b, records[j], cs_old[j]),
        canonical_by(b, records[i], c),
        replay_ids(records.take(i), cs_old) matches Some(p) && step_failed(b, p.0, records[i], c, e),
    ensures
        hashing_failed(b, records, e),
{
    let cs = cs_old.push(c);
    assert(cs.take(i) =~= cs_old);
    assert forall|j: int| 0 <= j < records.take(i + 1).len() implies #[trigger] canonical_by(
        b,
        records.take(i + 1)[j],
        cs[j],
    ) by {
        assert(records.take(i + 1)[j] == records[j]);
    }
    assert(canonical_all(b, records.take(i + 1), cs));
}

proof fn lemma_hashes_replayed<B: LogBackend>(
    b: &B,
    records: Seq<EventRecord>,
    cs: Seq<Seq<u8>>,
    v: Seq<(EventId, StateHash, StateHash)>,
)
    requires
        cs.len() == records.len(),
        forall|j: int| 0 <= j < records.len() ==> #[trigger] canonical_by(b, records[j], cs[j]),
        replay_ids(records, cs) matches Some(p) && p.1.len() == v.len() && forall|j: int|
            0 <= j < v.len() ==> #[trigger] entry_hashed(b, v[j], p.1[j]),
    ensures
        hashes_replayed(b, records, v),
{
    assert(canonical_all(b, records, cs));
}

/// After each record, the state hash and business hash of the execution it
/// addresses, when that execution exists: BLAKE3 hashes of the backend's
/// serializations of that execution's state after the record. It fails with
/// the reducer's refusal of a record, or with the error a serialization gave.
pub fn prefix_hashes<B: LogBackend>(records: &[EventRecord], backend: &B) -> (r: Result<
    Vec<(EventId, StateHash, StateHash)>,
    KernelError,
>)
    ensures
        r matches Ok(v) ==> hashes_replayed(backend, records@, v@),
        r matches Err(e) ==> hashing_failed(backend, records@, e),
        (forall|e: KernelError| !#[trigger] hashing_failed(backend, records@, e)) ==> r is Ok,
        records@.len() == 0 ==> (r matches Ok(v) && v@.len() == 0),
{
    let mut state = KernelState::new();
    let mut out: Vec<(EventId, StateHash, StateHash)> = Vec::new();
    let ghost mut cs: Seq<Seq<u8>> = Seq::empty();
    let mut i: usize = 0;
    assert(records@.take(0) =~= Seq::<EventRecord>::empty());
    assert(state@.last_seq =~= Map::<u128, u64>::empty());
    while i < records.len()
        invariant
            i <= records@.len(),
            cs.len() == i,
            out@.len() <= i,
            forall|j: int| 0 <= j < i ==> #[trigger] canonical_by(backend, records@[j], cs[j]),
            replay_ids(records@.take(i as int), cs) matches Some(p) && p.0 == state@ && p.1.len()
                == out@.len() && forall|j: int| 0 <= j < out@.len() ==> #[trigger] entry_hashed(backend, out@[j], p.1[j]),
        decreases records@.len() - i,
    {
        let record = &records[i];
        let canonical = canonical_bytes(backend, record);
        let ghost before = state@;
        let ghost cs_old = cs;
        let ghost p_old = replay_ids(records@.take(i as int), cs)->0;
        let ghost cs_new = cs.push(canonical@);
        proof {
            assert(records@.take(i + 1).drop_last() =~= records@.take(i as int));
            assert(records@.take(i + 1).last() == *record);
            assert(cs_new.drop_last() =~= cs_old);
            assert(cs_new.take(i as int) =~= cs_old);
            assert(forall|j: int| 0 <= j <= i ==> #[trigger] canonical_by(backend, records@[j], cs_new[j]));
        }
        match reduce(&mut state, record, canonical.as_slice()) {
            Ok(()) => {},
            Err(e) => {
                proof {
                    assert(step_failed(backend, before, *record, canonical@, e));
                    assert(records@[i as int] == *record);
                    lemma_hashing_failed(backend, records@, cs_old, i as int, canonical@, e);
                }
                return Err(e);
            },
        }
        proof {
            cs = cs_new;
            assert(reduce_spec(before, *record, canonical@) == Ok::<KernelView, KernelError>(state@));
        }
        match state.execution(record.execution_id) {
            Some(exec) => {
                let sb = match state_bytes_of(backend, exec) {
                    Ok(b) => b,
                    Err(e) => {
                        proof {
                            assert(step_failed(backend, before, *record, canonical@, e));
                            assert(records@[i as int] == *record);
                            lemma_hashing_failed(backend, records@, cs_old, i as int, canonical@, e);
                        }
                        return Err(e);
                    },
                };
                let bb = match business_bytes_of(backend, exec) {
                    Ok(b) => b,
                    Err(e) => {
                        proof {
                            assert(state_serialized(backend, exec@, Ok::<Vec<u8>, KernelError>(sb)));
                            assert(step_failed(backend, before, *record, canonical@, e));
                            assert(records@[i as int] == *record);
                            lemma_hashing_failed(backend, records@, cs_old, i as int, canonical@, e);
                        }
                        return Err(e);
                    },
                };
                let ghost out_old = out@;
                let sh = StateHash::of_bytes(sb.as_slice());
                let bh = StateHash::of_bytes(bb.as_slice());
                let ghost t = (record.event_id, sh, bh);
                let ghost ev = (record.event_id, state@.executions[record.execution_id.0]);
                proof {
                    assert(exec@ == ev.1);
                    assert(state_serialized(backend, ev.1, Ok::<Vec<u8>, KernelError>(sb)));
                    assert(business_serialized(backend, ev.1, Ok::<Vec<u8>, KernelError>(bb)));
                    assert(t.1.0@ == blake3_digest(sb@));
                    assert(t.2.0@ == blake3_digest(bb@));
                    assert(entry_hashed(backend, t, ev));
                }
                out.push((record.event_id, sh, bh));
                proof {
                    let pn = replay_ids(records@.take(i + 1), cs)->0;
                    assert(pn.1 == p_old.1.push(ev));
                    assert(out@[out_old.len() as int] == t);
                    assert(pn.1[out_old.len() as int] == ev);
                    assert forall|j: int| 0 <= j < out@.len() implies #[trigger] entry_hashed(backend, out@[j], pn.1[j]) by {
                        if j < out_old.len() {
                            assert(out@[j] == out_old[j]);
                            assert(pn.1[j] == p_old.1[j]);
                        }
                    }
                }
            },
            None => {},
        }
        i = i + 1;
    }
    assert(records@.take(records@.len() as int) =~= records@);
    proof {
        lemma_hashes_replayed(backend, records@, cs, out@);
    }
    Ok(out)
}

/// What refuses a record in a replay that hashes each step: the reducer, or,
/// after the reducer accepted it, one of the backend's serializations of the
/// execution the record addresses.
pub open spec fn step_failed<B: LogBackend>(b: &B, s: KernelView, r: EventRecord, c: Seq<u8>, e: KernelError) -> bool {
    match reduce_spec(s, r, c) {
        Err(e2) => same_error(e, e2),
        Ok(t) => {
            let x = r.execution_id.0;
            &&& t.executions.contains_key(x)
            &&& (state_serialized(b, t.executions[x], Err(e)) || exists|sb: Vec<u8>|
                #[trigger] state_serialized(b, t.executions[x], Ok(sb)) && business_serialized(
                    b,
                    t.executions[x],
                    Err(e),
                ))
        },
    }
}

/// The backend's serializations are functions of what they serialize: two
/// records cleared of their checksums from the same record give the same
/// bytes, and two executions with the same state give the same results.
pub open spec fn serialization_deterministic<B: LogBackend>(b: &B) -> bool {
    &&& forall|r: EventRecord, x1: &EventRecord, x2: &EventRecord, v1: Vec<u8>, v2: Vec<u8>|
        #![trigger is_blank_of(*x1, r), is_blank_of(*x2, r), call_ensures(B::record_bytes, (b, x1), v1), call_ensures(B::record_bytes, (b, x2), v2)]
        is_blank_of(*x1, r) && is_blank_of(*x2, r) && call_ensures(B::record_bytes, (b, x1), v1)
            && call_ensures(B::record_bytes, (b, x2), v2) ==> v1@ == v2@
    &&& forall|x1: &ExecutionState, x2: &ExecutionState, a: Vec<u8>, c: Vec<u8>|
        x1@ == x2@ && #[trigger] call_ensures(B::state_bytes, (b, x1), Ok::<Vec<u8>, KernelError>(a))
            && #[trigger] call_ensures(B::state_bytes, (b, x2), Ok::<Vec<u8>, KernelError>(c)) ==> a@ == c@
}

proof fn lemma_replay_ids_state(records: Seq<EventRecord>, cs: Seq<Seq<u8>>)
    requires
        cs.len() == records.len(),
    ensures
        match replay_ids(records, cs) {
            Some(p) => reduce_all_spec_from(empty_kernel_view(), records, cs) == Ok::<KernelView, KernelError>(p.0),
            None => reduce_all_spec_from(empty_kernel_view(), records, cs) is Err,
        },
    decreases records.len(),
{
    if records.len() > 0 {
        lemma_replay_ids_state(records.drop_last(), cs.drop_last());
        lemma_reduce_all_push(
            empty_kernel_view(),
            records.drop_last(),
            cs.drop_last(),
            records.last(),
            cs.last(),
        );
        assert(records.drop_last().push(records.last()) =~= records);
        assert(cs.drop_last().push(cs.last()) =~= cs);
    }
}

/// With serializations that are functions of what they serialize, the state
/// hash of a replay is the state hash of its last prefix-hash entry whenever
/// the last record addresses the replayed execution: the prefix hashes end
/// at the replay's final state.
pub proof fn lemma_replay_hash_is_last_prefix_hash<B: LogBackend>(
    b: &B,
    prefix: Seq<EventRecord>,
    cs: Seq<Seq<u8>>,
    s: KernelView,
    v: Seq<(EventId, StateHash, StateHash)>,
    sb: Vec<u8>,
)
    requires
        serialization_deterministic(b),
        prefix.len() > 0,
        canonical_all(b, prefix, cs),
        reduce_all_spec_from(empty_kernel_view(), prefix, cs) == Ok::<KernelView, KernelError>(s),
        s.executions.contains_key(prefix.last().execution_id.0),
        state_serialized(b, s.executions[prefix.last().execution_id.0], Ok(sb)),
        hashes_replayed(b, prefix, v),
    ensures
        v.len() > 0,
        v.last().0 == prefix.last().event_id,
        v.last().1.0@ == blake3_digest(sb@),
{
    let cs2 = choose|cs2: Seq<Seq<u8>>|
        #[trigger] canonical_all(b, prefix, cs2) && (replay_ids(prefix, cs2) matches Some(p) && p.1.len()
            == v.len() && forall|j: int| 0 <= j < v.len() ==> #[trigger] entry_hashed(b, v[j], p.1[j]));
    assert forall|i: int| 0 <= i < prefix.len() implies cs2[i] == cs[i] by {
        assert(canonical_by(b, prefix[i], cs[i]));
        assert(canonical_by(b, prefix[i], cs2[i]));
    }
    assert(cs2 =~= cs);
    lemma_replay_ids_state(prefix, cs);
    let p = replay_ids(prefix, cs)->0;
    assert(p.0 == s);
    let x = prefix.last().execution_id.0;
    let pl = replay_ids(prefix.drop_last(), cs.drop_last())->0;
    assert(p.1 == pl.1.push((prefix.last().event_id, s.executions[x])));
    let j = v.len() - 1;
    assert(entry_hashed(b, v[j], p.1[j]));
}

/// The records through the first one with event id `until`, or all of them.
pub open spec fn replay_prefix(records: Seq<EventRecord>, until: Option<EventId>) -> Seq<EventRecord> {
    match until {
        None => records,
        Some(u) => match find_event(records, u, 0) {
            Some(k) => records.take(k + 1),
            None => records,
        },
    }
}

/// What `replay_until` reports of a log.
pub struct ReplayReport {
    pub execution_id: ExecutionId,
    pub events: usize,
    pub state_hash: String,
    pub business_hash: String,
    pub prefix_hashes: Vec<(String, String)>,
    pub tree: String,
    pub trace: String,
}

proof fn lemma_find_event_in(log: Seq<EventRecord>, id: EventId, i: int)
    requires
        0 <= i,
    ensures
        find_event(log, id, i) matches Some(j) ==> i <= j < log.len() && log[j].event_id == id,
        find_event(log, id, i) is None ==> forall|j: int| i <= j < log.len() ==> #[trigger] log[j].event_id != id,
    decreases log.len() - i,
{
    if i < log.len() && log[i].event_id != id {
        lemma_find_event_in(log, id, i + 1);
    }
}

/// The position of the first record with event id `id`.
fn position_of(records: &[EventRecord], id: EventId) -> (r: Option<usize>)
    ensures
        match find_event(records@, id, 0) {
            None => r is None,
            Some(k) => r matches Some(i) && i == k,
        },
{
    let mut i: usize = 0;
    while i < records.len()
        invariant
            i <= records@.len(),
            find_event(records@, id, 0) == find_event(records@, id, i as int),
        decreases records@.len() - i,
    {
        if records[i].event_id == id {
            return Some(i);
        }
        i = i + 1;
    }
    None
}

fn canonicals_of<B: LogBackend>(backend: &B, records: &[EventRecord]) -> (cs: Vec<Vec<u8>>)
    ensures
        cs@.len() == records@.len(),
        canonical_all(backend, records@, byte_seqs(cs@)),
{
    let mut cs: Vec<Vec<u8>> = Vec::new();
    let mut i: usize = 0;
    while i < records.len()
        invariant
            i <= records@.len(),
            cs@.len() == i,
            forall|j: int| 0 <= j < i ==> #[trigger] canonical_by(backend, records@[j], cs@[j]@),
        decreases records@.len() - i,
    {
        cs.push(canonical_bytes(backend, &records[i]));
        i = i + 1;
    }
    assert forall|j: int| 0 <= j < records@.len() implies #[trigger] canonical_by(
        backend,
        records@[j],
        byte_seqs(cs@)[j],
    ) by {
        assert(byte_seqs(cs@)[j] == cs@[j]@);
    }
    cs
}

fn hash_hex(bytes: &Vec<u8>) -> (s: String)
    ensures
        s@ == hex_lower(blake3_digest(bytes@)),
{
    StateHash::of_bytes(bytes.as_slice()).to_hex()
}

/// The state of a replay of `records` from the empty state with the backend's
/// canonical bytes, when it succeeds.
pub open spec fn replayed_to<B: LogBackend>(b: &B, records: Seq<EventRecord>, s: KernelView) -> bool {
    exists|cs: Seq<Seq<u8>>|
        #[trigger] canonical_all(b, records, cs) && reduce_all_spec_from(empty_kernel_view(), records, cs)
            == Ok::<KernelView, KernelError>(s)
}

/// How a replay through a cut-off can fail with `e`: the cut-off event is
/// missing; the reducer refuses a record of the prefix; the prefix is empty;
/// its first record's execution is missing after it; hashing its steps fails;
/// or a serialization of the final state of that execution fails.
pub open spec fn replay_failed<B: LogBackend>(
    b: &B,
    records: Seq<EventRecord>,
    until: Option<EventId>,
    e: KernelError,
) -> bool {
    let prefix = replay_prefix(records, until);
    ||| (until matches Some(u) && (find_event(records, u, 0) is None && e == KernelError::EventNotFound(u)))
    ||| exists|cs: Seq<Seq<u8>>|
        #[trigger] canonical_all(b, prefix, cs) && (reduce_all_spec_from(empty_kernel_view(), prefix, cs)
            matches Err(e2) && same_error(e, e2))
    ||| prefix.len() == 0 && e == KernelError::InvalidTransition(Rejection::EmptyLog)
    ||| prefix.len() > 0 && exists|s: KernelView|
        #[trigger] replayed_to(b, prefix, s) && {
            let x = prefix[0].execution_id;
            ||| !s.executions.contains_key(x.0) && e == KernelError::ExecutionNotFound(x)
            ||| s.executions.contains_key(x.0) && hashing_failed(b, prefix, e)
            ||| s.executions.contains_key(x.0) && state_serialized(b, s.executions[x.0], Err(e))
            ||| s.executions.contains_key(x.0) && exists|sb: Vec<u8>|
                #[trigger] state_serialized(b, s.executions[x.0], Ok(sb)) && business_serialized(
                    b,
                    s.executions[x.0],
                    Err(e),
                )
        }
}

/// Replays the log through the event `until` (all of it when none is given)
/// and reports the execution of its first record: the number of records, the
/// hashes of the backend's state and business serializations of its final
/// state, the prefix hashes (event id and state hash) after each record, its
/// tree and the trace of those records.
pub fn replay_until<B: LogBackend>(records: &[EventRecord], until: Option<EventId>, backend: &B) -> (r: Result<
    ReplayReport,
    KernelError,
>)
    ensures
        match until {
            Some(u) => find_event(records@, u, 0) is None ==> (r matches Err(e) && e
                == KernelError::EventNotFound(u)),
            None => records@.len() == 0 ==> (r matches Err(e) && e == KernelError::InvalidTransition(
                Rejection::EmptyLog,
            )),
        },
        r matches Ok(rep) ==> {
            let prefix = replay_prefix(records@, until);
            let x = prefix[0].execution_id;
            &&& prefix.len() > 0
            &&& rep.events == prefix.len()
            &&& rep.execution_id == x
            &&& rep.trace@ == trace_text(prefix, until)
            &&& exists|cs: Seq<Seq<u8>>, s: KernelState|
                {
                    &&& #[trigger] canonical_all(backend, prefix, cs)
                    &&& reduce_all_spec_from(empty_kernel_view(), prefix, cs) == Ok::<KernelView, KernelError>(s@)
                    &&& s.executions@.contains_key(x.0)
                    &&& rep.tree@ == #[trigger] tree_text(s.executions@[x.0])
                    &&& exists|sb: Vec<u8>|
                        #[trigger] state_serialized(backend, s@.executions[x.0], Ok(sb)) && rep.state_hash@
                            == hex_lower(blake3_digest(sb@))
                    &&& exists|bb: Vec<u8>|
                        #[trigger] business_serialized(backend, s@.executions[x.0], Ok(bb))
                            && rep.business_hash@ == hex_lower(blake3_digest(bb@))
                }
            &&& exists|v: Seq<(EventId, StateHash, StateHash)>|
                {
                    &&& #[trigger] hashes_replayed(backend, prefix, v)
                    &&& rep.prefix_hashes@.len() == v.len()
                    &&& forall|j: int|
                        0 <= j < v.len() ==> (#[trigger] rep.prefix_hashes@[j]).0@ == uuid_text_spec(v[j].0.0)
                            && rep.prefix_hashes@[j].1@ == hex_lower(v[j].1.0@)
                }
        },
        r matches Err(e) ==> replay_failed(backend, records@, until, e),
        (forall|e: KernelError| !#[trigger] replay_failed(backend, records@, until, e)) ==> r is Ok,
        r matches Ok(rep) ==> (serialization_deterministic(backend) && replay_prefix(records@, until).last().execution_id
            == rep.execution_id ==> rep.prefix_hashes@.len() > 0 && rep.prefix_hashes@.last().1@
            == rep.state_hash@),
{
    let n = records.len();
    let end: usize = match until {
        None => n,
        Some(u) => {
            let p = position_of(records, u);
            proof {
                lemma_find_event_in(records@, u, 0);
            }
            match p {
                Some(k) => {
                    assert(k < records@.len());
                    k + 1
                },
                None => {
                    let e = KernelError::EventNotFound(u);
                    assert(replay_failed(backend, records@, until, e));
                    return Err(e);
                },
            }
        },
    };
    let prefix = &records[0..end];
    proof {
        match until {
            None => {
                assert(prefix@ =~= records@);
            },
            Some(u) => {
                assert(find_event(records@, u, 0) == Some((end - 1) as int));
                assert(prefix@ =~= records@.take(end as int));
            },
        }
        assert(prefix@ == replay_prefix(records@, until));
    }
    let cs = canonicals_of(backend, prefix);
    let state = match crate::reducer::reduce_all(prefix, cs.as_slice()) {
        Ok(st) => st,
        Err(e) => {
            assert(canonical_all(backend, prefix@, byte_seqs(cs@)));
            assert(replay_failed(backend, records@, until, e));
            return Err(e);
        },
    };
    let ghost sv = state@;
    proof {
        assert(canonical_all(backend, prefix@, byte_seqs(cs@)));
        assert(replayed_to(backend, prefix@, sv));
    }
    if prefix.len() == 0 {
        let e = KernelError::invalid(Rejection::EmptyLog);
        assert(replay_failed(backend, records@, until, e));
        return Err(e);
    }
    let execution_id = prefix[0].execution_id;
    let exec = match state.require_execution(execution_id) {
        Ok(x) => x,
        Err(e) => {
            assert(replay_failed(backend, records@, until, e));
            return Err(e);
        },
    };
    let hashes = match prefix_hashes(prefix, backend) {
        Ok(h) => h,
        Err(e) => {
            assert(replay_failed(backend, records@, until, e));
            return Err(e);
        },
    };
    let sb = match state_bytes_of(backend, exec) {
        Ok(b) => b,
        Err(e) => {
            assert(replay_failed(backend, records@, until, e));
            return Err(e);
        },
    };
    let bb = match business_bytes_of(backend, exec) {
        Ok(b) => b,
        Err(e) => {
            assert(state_serialized(backend, sv.executions[execution_id.0], Ok::<Vec<u8>, KernelError>(sb)));
            assert(replay_failed(backend, records@, until, e));
            return Err(e);
        },
    };
    let mut listed: Vec<(String, String)> = Vec::new();
    let mut i: usize = 0;
    while i < hashes.len()
        invariant
            i <= hashes@.len(),
            listed@.len() == i,
            forall|j: int|
                0 <= j < i ==> (#[trigger] listed@[j]).0@ == uuid_text_spec(hashes@[j].0.0)
                    && listed@[j].1@ == hex_lower(hashes@[j].1.0@),
        decreases hashes@.len() - i,
    {
        let (id, sh, _) = hashes[i];
        listed.push((id.to_string(), sh.to_hex()));
        i = i + 1;
    }
    let tree = render_tree(exec);
    let trace = render_trace(prefix, until)?;
    assert(reduce_all_spec_from(empty_kernel_view(), prefix@, byte_seqs(cs@)) == Ok::<
        KernelView,
        KernelError,
    >(state@));
    assert(tree@ == tree_text(state.executions@[execution_id.0]));
    let rep = ReplayReport {
        execution_id,
        events: prefix.len(),
        state_hash: hash_hex(&sb),
        business_hash: hash_hex(&bb),
        prefix_hashes: listed,
        tree,
        trace,
    };
    proof {
        assert(state_serialized(backend, state@.executions[execution_id.0], Ok::<Vec<u8>, KernelError>(sb)));
        assert(business_serialized(backend, state@.executions[execution_id.0], Ok::<Vec<u8>, KernelError>(bb)));
        assert(rep.tree@ == tree_text(state.executions@[rep.execution_id.0]));
        assert(hashes_replayed(backend, prefix@, hashes@));
        if serialization_deterministic(backend) && prefix@.last().execution_id == execution_id {
            lemma_replay_hash_is_last_prefix_hash(backend, prefix@, byte_seqs(cs@), state@, hashes@, sb);
            let j = hashes@.len() - 1;
            assert(rep.prefix_hashes@[j].1@ == hex_lower(hashes@[j].1.0@));
        }
    }
    Ok(rep)
}

/// A fork: the new execution, the business hashes of the source and of the
/// rewritten prefix, the ancestry note, and a kernel over the new log.
pub struct ForkOutcome<B> {
    pub execution_id: ExecutionId,
    pub source_business_hash: String,
    pub prefix_business_hash: String,
    pub ancestry: String,
    pub kernel: Kernel<B>,
}

/// `b` is `a` moved to execution `x`: the same record but for its execution,
/// its correlation and its checksum.
pub open spec fn moved_record(a: EventRecord, b: EventRecord, x: ExecutionId) -> bool {
    &&& b.schema_version == a.schema_version
    &&& b.execution_id == x
    &&& b.event_id == a.event_id
    &&& b.seq == a.seq
    &&& b.idempotency_key.0@ == a.idempotency_key.0@
    &&& b.causation_id == a.causation_id
    &&& b.correlation_id == Some(CorrelationId(x.0))
    &&& b.parent_event_id == a.parent_event_id
    &&& b.occurred_at_ms == a.occurred_at_ms
    &&& same_event(b.payload, a.payload)
}

/// The ancestry note of a fork.
pub open spec fn ancestry_text(source: ExecutionId, from: EventId, from_seq: u64) -> Seq<char> {
    "source="@ + uuid_text_spec(source.0) + "\nfrom_event="@ + uuid_text_spec(from.0)
        + "\nfrom_seq="@ + decimal_text(from_seq as nat) + "\n"@
}

/// The record that starts a fork, after the moved prefix.
pub open spec fn is_fork_record(
    r: EventRecord,
    x: ExecutionId,
    source: ExecutionId,
    from: EventId,
    last: EventRecord,
    business: Seq<char>,
) -> bool {
    &&& r.schema_version == SCHEMA_VERSION
    &&& r.execution_id == x
    &&& is_random_uuid(r.event_id.0)
    &&& r.seq == last.seq + 1
    &&& r.idempotency_key.0@ == key_text("fork"@, uuid_text_spec(x.0))
    &&& r.causation_id == Some(from)
    &&& r.correlation_id == Some(CorrelationId(x.0))
    &&& r.parent_event_id == Some(last.event_id)
    &&& r.occurred_at_ms == 0
    &&& r.payload matches Event::ExecutionForked {
        source_execution_id,
        from_event_id,
        from_seq,
        source_business_hash,
    } && source_execution_id == source && from_event_id == from && from_seq == last.seq
        && source_business_hash@ == business
}

fn write_record<B: LogBackend>(dest: &mut B, record: &EventRecord) -> (r: Result<(), KernelError>) {
    let bytes = dest.record_bytes(record);
    let frame = frame_record(bytes.as_slice())?;
    dest.write_frame(frame.as_slice())
}

/// Forks a log at an event: the records through `from_event_id` are moved
/// to a fresh execution and written to `dest` with new checksums, followed
/// by a record of the fork. The new log is replayed, and the business hash of
/// its moved prefix must equal the source's at that event, else the fork is
/// refused as divergent.
#[verifier::rlimit(40)]
pub fn fork_from<B: LogBackend>(
    source: &[EventRecord],
    source_backend: &B,
    dest: B,
    from_event_id: EventId,
) -> (r: Result<ForkOutcome<B>, KernelError>)
    requires
        find_event(source@, from_event_id, 0) matches Some(k) ==> source@[k].seq < u64::MAX,
    ensures
        find_event(source@, from_event_id, 0) is None ==> (r matches Err(e) && e
            == KernelError::EventNotFound(from_event_id)),
        r matches Ok(out) ==> {
            let k = find_event(source@, from_event_id, 0)->0;
            &&& find_event(source@, from_event_id, 0) is Some
            &&& is_random_uuid(out.execution_id.0)
            &&& out.source_business_hash@ == out.prefix_business_hash@
            &&& out.kernel.wf()
            &&& out.kernel.log().len() == k + 2
            &&& forall|i: int|
                0 <= i <= k ==> moved_record(source@[i], #[trigger] out.kernel.log()[i], out.execution_id)
            &&& is_fork_record(
                out.kernel.log()[k + 1],
                out.execution_id,
                source@[0].execution_id,
                from_event_id,
                out.kernel.log()[k],
                out.source_business_hash@,
            )
            &&& out.ancestry@ == ancestry_text(source@[0].execution_id, from_event_id, source@[k].seq)
            &&& exists|s: KernelView, bb: Vec<u8>|
                {
                    &&& #[trigger] replayed_to(source_backend, source@.take(k + 1), s)
                    &&& s.executions.contains_key(source@[0].execution_id.0)
                    &&& #[trigger] business_serialized(
                        source_backend,
                        s.executions[source@[0].execution_id.0],
                        Ok(bb),
                    )
                    &&& out.source_business_hash@ == hex_lower(blake3_digest(bb@))
                }
            &&& exists|s: KernelView, bb: Vec<u8>|
                {
                    &&& #[trigger] replayed_to(&out.kernel.backend_of(), out.kernel.log().take(k + 1), s)
                    &&& s.executions.contains_key(out.execution_id.0)
                    &&& #[trigger] business_serialized(
                        &out.kernel.backend_of(),
                        s.executions[out.execution_id.0],
                        Ok(bb),
                    )
                    &&& out.prefix_business_hash@ == hex_lower(blake3_digest(bb@))
                }
        },
{
    let k = match position_of(source, from_event_id) {
        Some(k) => k,
        None => {
            return Err(KernelError::EventNotFound(from_event_id));
        },
    };
    proof {
        lemma_find_event_in(source@, from_event_id, 0);
    }
    let from_seq = source[k].seq;
    let prefix = &source[0..k + 1];
    assert(prefix@ =~= source@.take(k + 1));
    let source_cs = canonicals_of(source_backend, prefix);
    let source_state = reduce_all(prefix, source_cs.as_slice())?;
    let ghost source_view = source_state@;
    assert(replayed_to(source_backend, prefix@, source_view));
    let source_id = source[0].execution_id;
    let source_exec = source_state.require_execution(source_id)?;
    let source_bytes = business_bytes_of(source_backend, source_exec)?;
    let source_business = hash_hex(&source_bytes);
    assert(business_serialized(source_backend, source_view.executions[source_id.0], Ok::<Vec<u8>, KernelError>(source_bytes)));

    let mut dest = dest;
    let new_id = ExecutionId::new();
    let mut records: Vec<EventRecord> = Vec::new();
    let mut i: usize = 0;
    while i <= k
        invariant
            k < source@.len(),
            find_event(source@, from_event_id, 0) is Some,
            i <= k + 1,
            records@.len() == i,
            forall|j: int| 0 <= j < i ==> moved_record(source@[j], #[trigger] records@[j], new_id),
            source@[k as int].seq < u64::MAX,
        decreases k + 1 - i,
    {
        let moved = EventRecord {
            execution_id: new_id,
            correlation_id: Some(CorrelationId::from_u128(new_id.as_u128())),
            checksum: String::new(),
            ..source[i].clone()
        };
        let canonical = dest.record_bytes(&moved);
        let moved = moved.with_checksum(canonical.as_slice());
        write_record(&mut dest, &moved)?;
        records.push(moved);
        i = i + 1;
    }
    let last = k;
    let fork_record = EventRecord {
        schema_version: SCHEMA_VERSION,
        execution_id: new_id,
        event_id: EventId::new(),
        seq: records[last].seq + 1,
        idempotency_key: IdempotencyKey::new("fork", new_id.to_string().as_str()),
        causation_id: Some(from_event_id),
        correlation_id: Some(CorrelationId::from_u128(new_id.as_u128())),
        parent_event_id: Some(records[last].event_id),
        occurred_at_ms: 0,
        checksum: String::new(),
        payload: Event::ExecutionForked {
            source_execution_id: source_id,
            from_event_id,
            from_seq,
            source_business_hash: source_business.clone(),
        },
    };
    let canonical = dest.record_bytes(&fork_record);
    let fork_record = fork_record.with_checksum(canonical.as_slice());
    write_record(&mut dest, &fork_record)?;
    records.push(fork_record);
    let ghost all = records@;

    let forked = Kernel::from_log(dest, records)?;
    let forked_exec = forked.execution()?;
    let _ = forked.backend().business_bytes(forked_exec)?;
    let log = forked.records();
    let n = log.len();
    let moved_prefix = &log.as_slice()[0..n - 1];
    let prefix_cs = canonicals_of(forked.backend(), moved_prefix);
    let prefix_only = reduce_all(moved_prefix, prefix_cs.as_slice())?;
    let ghost prefix_view = prefix_only@;
    assert(replayed_to(&forked.backend_of(), moved_prefix@, prefix_view));
    let prefix_exec = prefix_only.require_execution(new_id)?;
    let prefix_bytes = business_bytes_of(forked.backend(), prefix_exec)?;
    let prefix_business = hash_hex(&prefix_bytes);
    assert(business_serialized(&forked.backend_of(), prefix_view.executions[new_id.0], Ok::<Vec<u8>, KernelError>(prefix_bytes)));
    if prefix_business != source_business {
        return Err(KernelError::ForkDivergence { source: source_business, prefix: prefix_business });
    }
    let mut ancestry = crate::text::join2("source=", source_id.to_string().as_str());
    ancestry.append("\nfrom_event=");
    ancestry.append(from_event_id.to_string().as_str());
    ancestry.append("\nfrom_seq=");
    ancestry.append(u64_text(from_seq).as_str());
    ancestry.append("\n");
    let out = ForkOutcome {
        execution_id: new_id,
        source_business_hash: source_business,
        prefix_business_hash: prefix_business,
        ancestry,
        kernel: forked,
    };
    proof {
        assert(moved_prefix@ =~= out.kernel.log().take(k + 1));
        assert(replayed_to(&out.kernel.backend_of(), out.kernel.log().take(k + 1), prefix_view));
        assert(business_serialized(
            &out.kernel.backend_of(),
            prefix_view.executions[out.execution_id.0],
            Ok::<Vec<u8>, KernelError>(prefix_bytes),
        ));
        assert(replayed_to(source_backend, source@.take(k + 1), source_view));
    }
    Ok(out)
}

} // verus!
