//! Processes: what the supervisor reports, and how a persisted start key is
//! reconciled with what the operating system shows.
use vstd::prelude::*;
use vstd::string::StringExecFns;

use crate::error::KernelError;
use crate::event::StreamKind;
use crate::ids::{AttemptId, OperationId};
use crate::text::{chars_of, decimal_text, i64_text, signed_text, u64_text};

verus! {

/// What to launch for an operation's attempt.
#[derive(Debug)]
pub struct LaunchSpec {
    pub operation_id: OperationId,
    pub attempt_id: AttemptId,
    pub argv: Vec<String>,
    pub cwd: String,
}

/// What the supervisor observed of a process.
#[derive(Debug)]
pub enum ProcessReport {
    Started { operation_id: OperationId, attempt_id: AttemptId, pid: u32, start_key: String },
    Output {
        operation_id: OperationId,
        attempt_id: AttemptId,
        stream: StreamKind,
        offset: u64,
        bytes: Vec<u8>,
    },
    Exited {
        operation_id: OperationId,
        attempt_id: AttemptId,
        exit_code: i32,
        signal: Option<String>,
        killed_externally: bool,
    },
    Failed { operation_id: OperationId, attempt_id: AttemptId, reason: String },
    /// Liveness could not be proven after restart. Not an exit code.
    Unresolved { operation_id: OperationId, attempt_id: AttemptId, reason: String },
}

/// Result of reconciling a persisted `start_key` against the OS.
///
/// `Alive` is returned only when process identity is proven. Existence of a
/// PID without identity is `Unknown`. Callers must not invent an exit code for
/// `Unknown` or `Dead`.
#[derive(Clone, Copy, Debug, PartialEq, Eq, Structural)]
pub enum ProcessLiveness {
    Alive,
    Dead,
    Unknown,
}

/// The value of a string of decimal digits.
pub open spec fn digits_value(d: Seq<char>) -> nat
    decreases d.len(),
{
    if d.len() == 0 {
        0
    } else {
        digits_value(d.drop_last()) * 10 + ((d.last() as u32) - 48) as nat
    }
}

/// A decimal digit.
pub open spec fn is_digit(c: char) -> bool {
    '0' <= c && c <= '9'
}

/// The text after an optional leading `+`.
pub open spec fn unsigned_digits(s: Seq<char>) -> Seq<char> {
    if s.len() > 0 && s[0] == '+' {
        s.drop_first()
    } else {
        s
    }
}

/// Every character is a decimal digit.
pub open spec fn all_digits(d: Seq<char>) -> bool {
    forall|i: int| 0 <= i < d.len() ==> is_digit(#[trigger] d[i])
}

/// What `str::parse::<u32>` gives: an optional `+`, then one or more decimal
/// digits whose value fits in a `u32`.
pub open spec fn parse_u32_spec(s: Seq<char>) -> Option<u32> {
    let d = unsigned_digits(s);
    if d.len() == 0 || !all_digits(d) {
        None
    } else if digits_value(d) > u32::MAX {
        None
    } else {
        Some(digits_value(d) as u32)
    }
}

/// Parses an unsigned decimal number as `str::parse::<u32>` does.
pub fn parse_u32(s: &str) -> (r: Option<u32>)
    ensures
        r == parse_u32_spec(s@),
{
    let c = chars_of(s);
    let start: usize = if c.len() > 0 && c[0] == '+' {
        1
    } else {
        0
    };
    let ghost d = unsigned_digits(s@);
    assert(d =~= c@.subrange(start as int, c@.len() as int));
    if start == c.len() {
        return None;
    }
    let mut value: u64 = 0;
    let mut i: usize = start;
    while i < c.len()
        invariant
            c@ == s@,
            d == unsigned_digits(s@),
            start <= i <= c@.len(),
            d =~= c@.subrange(start as int, c@.len() as int),
            forall|j: int| start <= j < i ==> is_digit(#[trigger] c@[j]),
            value == digits_value(c@.subrange(start as int, i as int)),
            value <= u32::MAX,
        decreases c@.len() - i,
    {
        let ch = c[i];
        assert(d[i - start] == c@[i as int]);
        if !('0' <= ch && ch <= '9') {
            assert(!is_digit(d[i - start]));
            return None;
        }
        let ghost pre = c@.subrange(start as int, i + 1);
        assert(pre.drop_last() =~= c@.subrange(start as int, i as int));
        assert(pre.last() == ch);
        let digit = (ch as u32 - 48) as u64;
        value = value * 10 + digit;
        assert(value == digits_value(pre));
        if value > 4294967295u64 {
            proof {
                assert(pre =~= d.take(i + 1 - start));
                assert forall|j: int| 0 <= j < i + 1 - start implies is_digit(#[trigger] d[j]) by {
                    assert(d[j] == c@[start + j]);
                }
                lemma_digits_grow(d, i + 1 - start);

            }
            return None;
        }
        i = i + 1;
    }
    assert(c@.subrange(start as int, c@.len() as int) =~= d);
    assert forall|j: int| 0 <= j < d.len() implies is_digit(#[trigger] d[j]) by {
        assert(d[j] == c@[start + j]);
    }
    assert(all_digits(d));
    Some(value as u32)
}

proof fn lemma_digits_grow(d: Seq<char>, k: int)
    requires
        0 < k <= d.len(),
        forall|i: int| 0 <= i < k ==> is_digit(#[trigger] d[i]),
    ensures
        all_digits(d) ==> digits_value(d.take(k)) <= digits_value(d),
    decreases d.len(),
{
    if k < d.len() {
        if all_digits(d) {
            let t = d.drop_last();
            assert(t.take(k) =~= d.take(k));
            assert(all_digits(t)) by {
                assert forall|i: int| 0 <= i < t.len() implies is_digit(#[trigger] t[i]) by {
                    assert(t[i] == d[i]);
                }
            }
            lemma_digits_grow(t, k);
            assert(is_digit(d.last()));
        }
    } else {
        assert(d.take(k) =~= d);
    }
}

/// The position of the first `c` in `s` at or after `i`, or the length.
pub open spec fn find_char(s: Seq<char>, c: char, i: int) -> int
    decreases s.len() - i,
{
    if i < 0 || i >= s.len() {
        s.len() as int
    } else if s[i] == c {
        i
    } else {
        find_char(s, c, i + 1)
    }
}

/// The fields of a start key: the text before the first `:`, and the text
/// between the first and the second `:` when there is a first one.
pub open spec fn key_fields(key: Seq<char>) -> (Seq<char>, Option<Seq<char>>) {
    let i = find_char(key, ':', 0);
    if i == key.len() {
        (key, None)
    } else {
        let rest = key.subrange(i + 1, key.len() as int);
        (key.subrange(0, i), Some(rest.subrange(0, find_char(rest, ':', 0))))
    }
}

proof fn lemma_find_char_bounds(s: Seq<char>, c: char, i: int)
    requires
        0 <= i <= s.len(),
    ensures
        i <= find_char(s, c, i) <= s.len(),
    decreases s.len() - i,
{
    if i < s.len() && s[i] != c {
        lemma_find_char_bounds(s, c, i + 1);
    }
}

fn find_char_from(s: &Vec<char>, c: char, from: usize) -> (r: usize)
    requires
        from <= s@.len(),
    ensures
        r == find_char(s@, c, from as int),
{
    let mut i = from;
    while i < s.len()
        invariant
            from <= i <= s@.len(),
            find_char(s@, c, from as int) == find_char(s@, c, i as int),
        decreases s@.len() - i,
    {
        if s[i] == c {
            return i;
        }
        i = i + 1;
    }
    i
}

fn chars_text(c: &Vec<char>, from: usize, to: usize) -> (s: String)
    requires
        from <= to <= c@.len(),
    ensures
        s@ == c@.subrange(from as int, to as int),
{
    let mut s = String::new();
    let mut i = from;
    while i < to
        invariant
            from <= i <= to <= c@.len(),
            s@ == c@.subrange(from as int, i as int),
        decreases to - i,
    {
        let one = char_text(c[i]);
        s.append(one.as_str());
        assert(s@ =~= c@.subrange(from as int, i + 1));
        i = i + 1;
    }
    s
}

/// Text of one character.
#[verifier::external_body]
fn char_text(c: char) -> (s: String)
    ensures
        s@ == seq![c],
{
    c.to_string()
}

/// A start key split into its PID and the start time it records, when its
/// first field is a PID (see `key_fields` and `parse_u32_spec`).
pub fn start_key_parts(key: &str) -> (r: Option<(u32, Option<String>)>)
    ensures
        match parse_u32_spec(key_fields(key@).0) {
            None => r is None,
            Some(pid) => r matches Some((p, start)) && p == pid && crate::state::opt_text(start)
                == key_fields(key@).1,
        },
{
    let c = chars_of(key);
    let i = find_char_from(&c, ':', 0);
    proof {
        lemma_find_char_bounds(c@, ':', 0);
    }
    if i == c.len() {
        assert(c@.subrange(0, i as int) =~= c@);
        return match parse_u32(key) {
            None => None,
            Some(pid) => Some((pid, None)),
        };
    }
    let head = chars_text(&c, 0, i);
    let pid = match parse_u32(head.as_str()) {
        None => {
            return None;
        },
        Some(p) => p,
    };
    let ghost rest = c@.subrange(i + 1, c@.len() as int);
    let k = find_char_from(&c, ':', i + 1);
    proof {
        lemma_find_char_bounds(c@, ':', i + 1);
        lemma_find_char_shift(c@, ':', i + 1, 0);
    }
    let second = chars_text(&c, i + 1, k);
    assert(second@ =~= rest.subrange(0, find_char(rest, ':', 0)));
    Some((pid, Some(second)))
}

proof fn lemma_find_char_shift(s: Seq<char>, c: char, base: int, j: int)
    requires
        0 <= base <= s.len(),
        0 <= j <= s.len() - base,
    ensures
        find_char(s, c, base + j) == base + find_char(s.subrange(base, s.len() as int), c, j),
    decreases s.len() - base - j,
{
    let t = s.subrange(base, s.len() as int);
    if j < t.len() {
        assert(t[j] == s[base + j]);
        if s[base + j] != c {
            lemma_find_char_shift(s, c, base, j + 1);
        }
    }
}

/// The position of the last `c` in `s[..end]`, or -1.
pub open spec fn rfind_char(s: Seq<char>, c: char, end: int) -> int
    decreases end,
{
    if end <= 0 {
        -1
    } else if s[end - 1] == c {
        end - 1
    } else {
        rfind_char(s, c, end - 1)
    }
}

/// The `n`-th field of `s[start..]` split on spaces (fields may be empty),
/// as `str::split(' ').nth(n)` gives it.
pub open spec fn field_from_left(s: Seq<char>, start: int, n: nat) -> Option<Seq<char>>
    decreases n,
{
    let k = find_char(s, ' ', start);
    if n == 0 {
        Some(s.subrange(start, k))
    } else if k >= s.len() {
        None
    } else {
        field_from_left(s, k + 1, (n - 1) as nat)
    }
}

/// The start time of a `/proc/<pid>/stat` line: field 22, counted after the
/// command name in parentheses (which may itself hold spaces and
/// parentheses), so the twentieth field after the last `)`.
pub open spec fn stat_starttime_spec(s: Seq<char>) -> Option<Seq<char>> {
    let p = rfind_char(s, ')', s.len() as int);
    if p < 0 {
        None
    } else {
        field_from_left(s, p + 1, 20)
    }
}

proof fn lemma_rfind_bounds(s: Seq<char>, c: char, end: int)
    requires
        0 <= end <= s.len(),
    ensures
        -1 <= rfind_char(s, c, end) < end,
        rfind_char(s, c, end) >= 0 ==> s[rfind_char(s, c, end)] == c,
    decreases end,
{
    if end > 0 && s[end - 1] != c {
        lemma_rfind_bounds(s, c, end - 1);
    }
}

/// The start time field of a `/proc/<pid>/stat` line (see
/// `stat_starttime_spec`).
pub fn stat_starttime(stat: &str) -> (r: Option<String>)
    ensures
        match stat_starttime_spec(stat@) {
            None => r is None,
            Some(f) => r matches Some(t) && t@ == f,
        },
{
    let c = chars_of(stat);
    let mut p: usize = c.len();
    while p > 0 && c[p - 1] != ')'
        invariant
            c@ == stat@,
            p <= c@.len(),
            rfind_char(c@, ')', c@.len() as int) == rfind_char(c@, ')', p as int),
        decreases p,
    {
        p = p - 1;
    }
    proof {
        lemma_rfind_bounds(c@, ')', p as int);
    }
    if p == 0 {
        return None;
    }
    let mut start: usize = p;
    let mut n: usize = 20;
    loop
        invariant
            c@ == stat@,
            start <= c@.len(),
            n <= 20,
            stat_starttime_spec(stat@) == field_from_left(c@, start as int, n as nat),
        decreases n,
    {
        let k = find_char_from(&c, ' ', start);
        proof {
            lemma_find_char_bounds(c@, ' ', start as int);
        }
        if n == 0 {
            return Some(chars_text(&c, start, k));
        }
        if k >= c.len() {
            return None;
        }
        start = k + 1;
        n = n - 1;
    }
}

/// The liveness of a process from what the OS shows: whether its PID
/// exists, the start time recorded in its key, and the start time the OS
/// reports for that PID now.
pub open spec fn liveness_spec(pid_exists: bool, expected: Option<Seq<char>>, actual: Option<Seq<char>>) -> ProcessLiveness {
    if !pid_exists {
        ProcessLiveness::Dead
    } else {
        match expected {
            None => ProcessLiveness::Unknown,
            Some(e) => match actual {
                Some(a) => if a == e {
                    ProcessLiveness::Alive
                } else {
                    ProcessLiveness::Dead
                },
                None => ProcessLiveness::Unknown,
            },
        }
    }
}

/// Decides liveness from what the OS shows (see `liveness_spec`). A PID-only
/// key cannot tell a reused PID from the process it was recorded for.
pub fn liveness_from(pid_exists: bool, expected: Option<&str>, actual: Option<&str>) -> (l: ProcessLiveness)
    ensures
        l == liveness_spec(
            pid_exists,
            match expected {
                Some(e) => Some(e@),
                None => None,
            },
            match actual {
                Some(a) => Some(a@),
                None => None,
            },
        ),
{
    if !pid_exists {
        return ProcessLiveness::Dead;
    }
    match expected {
        None => ProcessLiveness::Unknown,
        Some(e) => match actual {
            Some(a) => {
                let ec = chars_of(e);
                let ac = chars_of(a);
                if same_chars(&ec, &ac) {
                    ProcessLiveness::Alive
                } else {
                    ProcessLiveness::Dead
                }
            },
            None => ProcessLiveness::Unknown,
        },
    }
}

/// What the OS shows of a process: on Linux, whether `/proc/<pid>` exists
/// and the start time its stat line reports; elsewhere, whether the PID
/// exists, when that can be told at all.
pub enum OsView {
    Linux { proc_exists: bool, start: Option<String> },
    Other { pid_exists: Option<bool> },
}

/// The liveness of the process a start key records, from what the OS shows.
/// A key whose first field is no PID is `Unknown`. Outside Linux, PID
/// existence is not identity: a missing PID is `Dead`, anything else
/// `Unknown`, and no start time is consulted.
pub open spec fn key_liveness_spec(key: Seq<char>, view: OsView) -> ProcessLiveness {
    match parse_u32_spec(key_fields(key).0) {
        None => ProcessLiveness::Unknown,
        Some(_) => match view {
            OsView::Linux { proc_exists, start } => liveness_spec(
                proc_exists,
                key_fields(key).1,
                crate::state::opt_text(start),
            ),
            OsView::Other { pid_exists } => if pid_exists == Some(false) {
                ProcessLiveness::Dead
            } else {
                ProcessLiveness::Unknown
            },
        },
    }
}

/// Decides the liveness of the process a start key records (see
/// `key_liveness_spec`).
pub fn key_liveness(key: &str, view: &OsView) -> (l: ProcessLiveness)
    ensures
        l == key_liveness_spec(key@, *view),
{
    match start_key_parts(key) {
        None => ProcessLiveness::Unknown,
        Some((_, expected)) => match view {
            OsView::Linux { proc_exists, start } => liveness_from(
                *proc_exists,
                match &expected {
                    Some(e) => Some(e.as_str()),
                    None => None,
                },
                match start {
                    Some(a) => Some(a.as_str()),
                    None => None,
                },
            ),
            OsView::Other { pid_exists } => match pid_exists {
                Some(false) => ProcessLiveness::Dead,
                _ => ProcessLiveness::Unknown,
            },
        },
    }
}

fn same_chars(a: &Vec<char>, b: &Vec<char>) -> (r: bool)
    ensures
        r == (a@ == b@),
{
    if a.len() != b.len() {
        return false;
    }
    let mut i: usize = 0;
    while i < a.len()
        invariant
            a@.len() == b@.len(),
            i <= a@.len(),
            forall|j: int| 0 <= j < i ==> a@[j] == b@[j],
        decreases a@.len() - i,
    {
        if a[i] != b[i] {
            return false;
        }
        i = i + 1;
    }
    assert(a@ =~= b@);
    true
}

/// A persisted identity of a process: `pid:starttime` when the start time is
/// known, else the PID alone.
pub open spec fn start_key_spec(pid: u32, start: Option<Seq<char>>) -> Seq<char> {
    match start {
        Some(s) => decimal_text(pid as nat) + ":"@ + s,
        None => decimal_text(pid as nat),
    }
}

/// Formats a start key (see `start_key_spec`).
pub fn start_key_text(pid: u32, start: Option<&str>) -> (s: String)
    ensures
        s@ == start_key_spec(
            pid,
            match start {
                Some(x) => Some(x@),
                None => None,
            },
        ),
{
    let mut s = u64_text(pid as u64);
    match start {
        Some(x) => {
            s.append(":");
            s.append(x);
        },
        None => {},
    }
    s
}

/// Exit code and signal of a finished process: a signal `n` is reported as
/// code `128 + n` with the signal's number as text; otherwise the exit code,
/// or -1 when there is none.
pub open spec fn exit_spec(code: Option<i32>, signal: Option<i32>) -> (i32, Option<Seq<char>>) {
    match signal {
        Some(sig) => ((128 + sig) as i32, Some(signed_text(sig as int))),
        None => (
            match code {
                Some(c) => c,
                None => -1i32,
            },
            None,
        ),
    }
}

/// Decodes a wait status (see `exit_spec`).
pub fn decode_exit(code: Option<i32>, signal: Option<i32>) -> (r: (i32, Option<String>))
    requires
        signal matches Some(s) ==> s <= i32::MAX - 128,
    ensures
        r.0 == exit_spec(code, signal).0,
        crate::state::opt_text(r.1) == exit_spec(code, signal).1,
{
    match signal {
        Some(sig) => (128 + sig, Some(i64_text(sig as i64))),
        None => (
            match code {
                Some(c) => c,
                None => -1,
            },
            None,
        ),
    }
}

/// Writing to a running process's stdin is not attached; it always fails.
pub fn write_stdin_pid(_pid: u32, _bytes: &[u8]) -> (r: Result<(), KernelError>)
    ensures
        r matches Err(KernelError::Process(m)) && m@
            == "write_stdin is not attached in the first slice; use a single-shot argv"@,
{
    Err(
        KernelError::Process(
            String::from_str("write_stdin is not attached in the first slice; use a single-shot argv"),
        ),
    )
}

} // verus!
