//! Typed identifiers, idempotency keys and content hashes.
use vstd::prelude::*;
use vstd::string::StringExecFns;

use crate::error::KernelError;
use crate::text::hex_char;

verus! {

/// Whether a 128-bit value carries the version and variant bits of a random (v4) UUID.
pub open spec fn is_random_uuid(v: u128) -> bool {
    &&& (v >> 76u128) & 15u128 == 4u128
    &&& (v >> 62u128) & 3u128 == 2u128
}

/// Hex digit `i` (0 = most significant) of the 32-digit form of a UUID value.
pub open spec fn uuid_nibble(v: u128, i: int) -> nat {
    ((v >> ((4 * (31 - i)) as u128)) & 15u128) as nat
}

/// The 32 lowercase hex digits of a UUID value, most significant first.
pub open spec fn uuid_simple_text(v: u128) -> Seq<char> {
    Seq::new(32, |i: int| hex_char(uuid_nibble(v, i)))
}

/// Hyphenated lowercase UUID text: groups of 8-4-4-4-12 hex digits.
pub open spec fn uuid_text_spec(v: u128) -> Seq<char> {
    let s = uuid_simple_text(v);
    s.subrange(0, 8) + seq!['-'] + s.subrange(8, 12) + seq!['-'] + s.subrange(12, 16) + seq!['-']
        + s.subrange(16, 20) + seq!['-'] + s.subrange(20, 32)
}

/// Lowercase hex text of a byte sequence, two digits per byte, high digit first.
pub open spec fn hex_lower(b: Seq<u8>) -> Seq<char> {
    Seq::new(
        2 * b.len(),
        |i: int|
            if i % 2 == 0 {
                hex_char((b[i / 2] / 16) as nat)
            } else {
                hex_char((b[i / 2] % 16) as nat)
            },
    )
}

/// Whether `c` is a hexadecimal digit of either case.
pub open spec fn is_hex_digit(c: char) -> bool {
    ('0' <= c && c <= '9') || ('a' <= c && c <= 'f') || ('A' <= c && c <= 'F')
}

/// The value of a hexadecimal digit.
pub open spec fn hex_digit_value(c: char) -> int {
    if '0' <= c && c <= '9' {
        c as int - 48
    } else if 'a' <= c && c <= 'f' {
        c as int - 87
    } else {
        c as int - 55
    }
}

/// Whether text decodes as hexadecimal: an even number of hex digits.
pub open spec fn hex_decodable(s: Seq<char>) -> bool {
    s.len() % 2 == 0 && forall|i: int| 0 <= i < s.len() ==> is_hex_digit(#[trigger] s[i])
}

/// The bytes that decodable hexadecimal text denotes.
pub open spec fn hex_decoded(s: Seq<char>) -> Seq<u8> {
    Seq::new(
        s.len() / 2,
        |i: int| (hex_digit_value(s[2 * i]) * 16 + hex_digit_value(s[2 * i + 1])) as u8,
    )
}

/// The BLAKE3 digest of a byte sequence.
pub uninterp spec fn blake3_digest(bytes: Seq<u8>) -> Seq<u8>;

/// Draws a random version 4 UUID from `uuid::Uuid::new_v4` and returns its 128-bit value.
/// The crate sets the version nibble to 4 and the variant bits to `10`; the
/// remaining bits are random, so nothing else is claimed.
#[verifier::external_body]
fn random_uuid_value() -> (v: u128)
    ensures
        is_random_uuid(v),
{
    uuid::Uuid::new_v4().as_u128()
}

/// Formats a UUID value with `uuid::Uuid::from_u128` and its `Display`
/// (lowercase hyphenated) form; the contract states that layout exactly.
#[verifier::external_body]
pub(crate) fn uuid_text(v: u128) -> (s: String)
    ensures
        s@ == uuid_text_spec(v),
{
    uuid::Uuid::from_u128(v).hyphenated().to_string()
}

/// Hashes bytes with `blake3::hash`; the digest is named, not described.
#[verifier::external_body]
fn blake3_hash(bytes: &[u8]) -> (h: [u8; 32])
    ensures
        h@ == blake3_digest(bytes@),
{
    *blake3::hash(bytes).as_bytes()
}

/// Encodes bytes with `hex::encode`, which emits two lowercase digits per byte.
#[verifier::external_body]
fn hex_encode(bytes: &[u8]) -> (s: String)
    ensures
        s@ == hex_lower(bytes@),
{
    hex::encode(bytes)
}

/// Decodes text with `hex::decode`: it accepts an even number of hex digits of
/// either case and fails otherwise. The error text is not described.
#[verifier::external_body]
fn hex_decode(s: &str) -> (r: Result<Vec<u8>, String>)
    ensures
        r is Ok <==> hex_decodable(s@),
        r matches Ok(v) ==> v@ == hex_decoded(s@),
{
    hex::decode(s).map_err(|err| err.to_string())
}

/// Command-level deduplication key: `kind:unique`.
#[derive(Clone, Debug, PartialEq, Eq, PartialOrd, Ord, Hash)]
pub struct IdempotencyKey(pub String);

impl IdempotencyKey {
    pub fn new(kind: &str, unique: &str) -> (key: Self)
        ensures
            key.0@ == kind@ + ":"@ + unique@,
    {
        let mut s = String::from_str(kind);
        s.append(":");
        s.append(unique);
        IdempotencyKey(s)
    }

    /// Whether two keys hold the same text.
    pub fn same(&self, other: &IdempotencyKey) -> (b: bool)
        ensures
            b == (self.0@ == other.0@),
    {
        self.0 == other.0
    }

    pub fn to_string(&self) -> (s: String)
        ensures
            s@ == self.0@,
    {
        self.0.clone()
    }
}

/// BLAKE3 digest of a content chunk.
#[derive(Clone, Copy, Debug, PartialEq, Eq, PartialOrd, Ord, Hash)]
pub struct ContentHash(pub [u8; 32]);

impl ContentHash {
    pub fn of_bytes(bytes: &[u8]) -> (h: Self)
        ensures
            h.0@ == blake3_digest(bytes@),
    {
        ContentHash(blake3_hash(bytes))
    }

    /// Parses 64 hex digits.
    pub fn from_hex(s: &str) -> (r: Result<Self, KernelError>)
        ensures
            match r {
                Ok(h) => hex_decodable(s@) && hex_decoded(s@).len() == 32 && h.0@ == hex_decoded(s@),
                Err(KernelError::InvalidHash(_)) => !hex_decodable(s@) || hex_decoded(s@).len()
                    != 32,
                Err(_) => false,
            },
    {
        match hex_decode(s) {
            Err(msg) => Err(KernelError::InvalidHash(msg)),
            Ok(raw) => {
                if raw.len() != 32 {
                    let mut msg = String::from_str("expected 32 bytes, got ");
                    let n = crate::text::u64_text(raw.len() as u64);
                    msg.append(n.as_str());
                    return Err(KernelError::InvalidHash(msg));
                }
                let mut bytes = [0u8; 32];
                let mut i: usize = 0;
                while i < 32
                    invariant
                        raw@.len() == 32,
                        0 <= i <= 32,
                        forall|j: int| 0 <= j < i ==> bytes@[j] == raw@[j],
                    decreases 32 - i,
                {
                    bytes[i] = raw[i];
                    i = i + 1;
                }
                assert(bytes@ =~= raw@);
                Ok(ContentHash(bytes))
            },
        }
    }

    pub fn to_hex(self) -> (s: String)
        ensures
            s@ == hex_lower(self.0@),
    {
        hex_encode(&self.0)
    }

    /// The first two hex digits: the hex text of the first byte.
    pub fn hex_prefix(&self) -> (s: String)
        ensures
            s@ == hex_lower(self.0@).subrange(0, 2),
    {
        let first: [u8; 1] = [self.0[0]];
        let s = hex_encode(&first);
        proof {
            assert(first@ =~= seq![self.0@[0]]);
            assert(hex_lower(first@) =~= hex_lower(self.0@).subrange(0, 2));
        }
        s
    }

    pub fn as_bytes(&self) -> (b: &[u8; 32])
        ensures
            *b == self.0,
    {
        &self.0
    }

    /// Whether two hashes are the same digest.
    pub fn same(&self, other: &ContentHash) -> (b: bool)
        ensures
            b == (self.0@ == other.0@),
    {
        let mut i: usize = 0;
        while i < 32
            invariant
                0 <= i <= 32,
                forall|j: int| 0 <= j < i ==> self.0@[j] == other.0@[j],
            decreases 32 - i,
        {
            if self.0[i] != other.0[i] {
                return false;
            }
            i = i + 1;
        }
        assert(self.0@ =~= other.0@);
        true
    }
}

/// BLAKE3 digest of a serialized state.
#[derive(Clone, Copy, Debug, PartialEq, Eq, PartialOrd, Ord, Hash)]
pub struct StateHash(pub [u8; 32]);

impl StateHash {
    pub fn of_bytes(bytes: &[u8]) -> (h: Self)
        ensures
            h.0@ == blake3_digest(bytes@),
    {
        StateHash(blake3_hash(bytes))
    }

    pub fn to_hex(self) -> (s: String)
        ensures
            s@ == hex_lower(self.0@),
    {
        hex_encode(&self.0)
    }
}

/// What `uuid::Uuid::parse_str` gives for a text: the 128-bit value of the
/// UUID it reads, or the text of its error.
pub uninterp spec fn uuid_parse_result(s: Seq<char>) -> Result<u128, Seq<char>>;

/// Parses a UUID with `uuid::Uuid::parse_str`, which reads hex digits with
/// optional hyphens (the simple, hyphenated, URN and braced forms). The
/// result, the value or the text of the error, is named, not described: it
/// is a function of the text alone.
#[verifier::external_body]
fn parse_uuid(s: &str) -> (r: Result<u128, String>)
    ensures
        match r {
            Ok(v) => uuid_parse_result(s@) == Ok::<u128, Seq<char>>(v),
            Err(c) => uuid_parse_result(s@) == Err::<u128, Seq<char>>(c@),
        },
{
    match uuid::Uuid::parse_str(s) {
        Ok(u) => Ok(u.as_u128()),
        Err(e) => Err(e.to_string()),
    }
}

/// An invalid identifier of kind `kind`.
fn invalid_id(kind: &str, value: &str, cause: String) -> (e: KernelError)
    ensures
        e matches KernelError::InvalidId { kind: k, value: v, cause: c } && k@ == kind@ && v@ == value@
            && c@ == cause@,
{
    KernelError::InvalidId { kind: kind.to_string(), value: value.to_string(), cause }
}

/// Typed identifier; holds the 128-bit value of a UUID.
#[derive(Clone, Copy, Debug, PartialEq, Eq, Structural, PartialOrd, Ord, Hash)]
pub struct ExecutionId(pub u128);

impl ExecutionId {
    /// A fresh random identifier (a version 4 UUID).
    pub fn new() -> (id: Self)
        ensures
            is_random_uuid(id.0),
    {
        ExecutionId(random_uuid_value())
    }

    pub fn from_u128(value: u128) -> (id: Self)
        ensures
            id.0 == value,
    {
        ExecutionId(value)
    }

    pub fn as_u128(self) -> (value: u128)
        ensures
            value == self.0,
    {
        self.0
    }

    /// The hyphenated lowercase UUID text.
    pub fn to_string(&self) -> (s: String)
        ensures
            s@ == uuid_text_spec(self.0),
    {
        uuid_text(self.0)
    }
    /// Parses UUID text (see `parse_uuid`); text it refuses is an invalid
    /// `ExecutionId` naming the text and the parser's reason.
    pub fn parse(s: &str) -> (r: Result<Self, KernelError>)
        ensures
            match uuid_parse_result(s@) {
                Ok(v) => r == Ok::<Self, KernelError>(ExecutionId(v)),
                Err(cause) => r matches Err(KernelError::InvalidId { kind, value, cause: c }) && kind@
                    == "ExecutionId"@ && value@ == s@ && c@ == cause,
            },
    {
        match parse_uuid(s) {
            Ok(v) => Ok(ExecutionId(v)),
            Err(cause) => Err(invalid_id("ExecutionId", s, cause)),
        }
    }
}

/// Typed identifier; holds the 128-bit value of a UUID.
#[derive(Clone, Copy, Debug, PartialEq, Eq, Structural, PartialOrd, Ord, Hash)]
pub struct EventId(pub u128);

impl EventId {
    /// A fresh random identifier (a version 4 UUID).
    pub fn new() -> (id: Self)
        ensures
            is_random_uuid(id.0),
    {
        EventId(random_uuid_value())
    }

    pub fn from_u128(value: u128) -> (id: Self)
        ensures
            id.0 == value,
    {
        EventId(value)
    }

    pub fn as_u128(self) -> (value: u128)
        ensures
            value == self.0,
    {
        self.0
    }

    /// The hyphenated lowercase UUID text.
    pub fn to_string(&self) -> (s: String)
        ensures
            s@ == uuid_text_spec(self.0),
    {
        uuid_text(self.0)
    }
    /// Parses UUID text (see `parse_uuid`); text it refuses is an invalid
    /// `EventId` naming the text and the parser's reason.
    pub fn parse(s: &str) -> (r: Result<Self, KernelError>)
        ensures
            match uuid_parse_result(s@) {
                Ok(v) => r == Ok::<Self, KernelError>(EventId(v)),
                Err(cause) => r matches Err(KernelError::InvalidId { kind, value, cause: c }) && kind@
                    == "EventId"@ && value@ == s@ && c@ == cause,
            },
    {
        match parse_uuid(s) {
            Ok(v) => Ok(EventId(v)),
            Err(cause) => Err(invalid_id("EventId", s, cause)),
        }
    }
}

/// Typed identifier; holds the 128-bit value of a UUID.
#[derive(Clone, Copy, Debug, PartialEq, Eq, Structural, PartialOrd, Ord, Hash)]
pub struct GoalId(pub u128);

impl GoalId {
    /// A fresh random identifier (a version 4 UUID).
    pub fn new() -> (id: Self)
        ensures
            is_random_uuid(id.0),
    {
        GoalId(random_uuid_value())
    }

    pub fn from_u128(value: u128) -> (id: Self)
        ensures
            id.0 == value,
    {
        GoalId(value)
    }

    pub fn as_u128(self) -> (value: u128)
        ensures
            value == self.0,
    {
        self.0
    }

    /// The hyphenated lowercase UUID text.
    pub fn to_string(&self) -> (s: String)
        ensures
            s@ == uuid_text_spec(self.0),
    {
        uuid_text(self.0)
    }
    /// Parses UUID text (see `parse_uuid`); text it refuses is an invalid
    /// `GoalId` naming the text and the parser's reason.
    pub fn parse(s: &str) -> (r: Result<Self, KernelError>)
        ensures
            match uuid_parse_result(s@) {
                Ok(v) => r == Ok::<Self, KernelError>(GoalId(v)),
                Err(cause) => r matches Err(KernelError::InvalidId { kind, value, cause: c }) && kind@
                    == "GoalId"@ && value@ == s@ && c@ == cause,
            },
    {
        match parse_uuid(s) {
            Ok(v) => Ok(GoalId(v)),
            Err(cause) => Err(invalid_id("GoalId", s, cause)),
        }
    }
}

/// Typed identifier; holds the 128-bit value of a UUID.
#[derive(Clone, Copy, Debug, PartialEq, Eq, Structural, PartialOrd, Ord, Hash)]
pub struct AgentId(pub u128);

impl AgentId {
    /// A fresh random identifier (a version 4 UUID).
    pub fn new() -> (id: Self)
        ensures
            is_random_uuid(id.0),
    {
        AgentId(random_uuid_value())
    }

    pub fn from_u128(value: u128) -> (id: Self)
        ensures
            id.0 == value,
    {
        AgentId(value)
    }

    pub fn as_u128(self) -> (value: u128)
        ensures
            value == self.0,
    {
        self.0
    }

    /// The hyphenated lowercase UUID text.
    pub fn to_string(&self) -> (s: String)
        ensures
            s@ == uuid_text_spec(self.0),
    {
        uuid_text(self.0)
    }
    /// Parses UUID text (see `parse_uuid`); text it refuses is an invalid
    /// `AgentId` naming the text and the parser's reason.
    pub fn parse(s: &str) -> (r: Result<Self, KernelError>)
        ensures
            match uuid_parse_result(s@) {
                Ok(v) => r == Ok::<Self, KernelError>(AgentId(v)),
                Err(cause) => r matches Err(KernelError::InvalidId { kind, value, cause: c }) && kind@
                    == "AgentId"@ && value@ == s@ && c@ == cause,
            },
    {
        match parse_uuid(s) {
            Ok(v) => Ok(AgentId(v)),
            Err(cause) => Err(invalid_id("AgentId", s, cause)),
        }
    }
}

/// Typed identifier; holds the 128-bit value of a UUID.
#[derive(Clone, Copy, Debug, PartialEq, Eq, Structural, PartialOrd, Ord, Hash)]
pub struct TaskId(pub u128);

impl TaskId {
    /// A fresh random identifier (a version 4 UUID).
    pub fn new() -> (id: Self)
        ensures
            is_random_uuid(id.0),
    {
        TaskId(random_uuid_value())
    }

    pub fn from_u128(value: u128) -> (id: Self)
        ensures
            id.0 == value,
    {
        TaskId(value)
    }

    pub fn as_u128(self) -> (value: u128)
        ensures
            value == self.0,
    {
        self.0
    }

    /// The hyphenated lowercase UUID text.
    pub fn to_string(&self) -> (s: String)
        ensures
            s@ == uuid_text_spec(self.0),
    {
        uuid_text(self.0)
    }
    /// Parses UUID text (see `parse_uuid`); text it refuses is an invalid
    /// `TaskId` naming the text and the parser's reason.
    pub fn parse(s: &str) -> (r: Result<Self, KernelError>)
        ensures
            match uuid_parse_result(s@) {
                Ok(v) => r == Ok::<Self, KernelError>(TaskId(v)),
                Err(cause) => r matches Err(KernelError::InvalidId { kind, value, cause: c }) && kind@
                    == "TaskId"@ && value@ == s@ && c@ == cause,
            },
    {
        match parse_uuid(s) {
            Ok(v) => Ok(TaskId(v)),
            Err(cause) => Err(invalid_id("TaskId", s, cause)),
        }
    }
}

/// Typed identifier; holds the 128-bit value of a UUID.
#[derive(Clone, Copy, Debug, PartialEq, Eq, Structural, PartialOrd, Ord, Hash)]
pub struct OperationId(pub u128);

impl OperationId {
    /// A fresh random identifier (a version 4 UUID).
    pub fn new() -> (id: Self)
        ensures
            is_random_uuid(id.0),
    {
        OperationId(random_uuid_value())
    }

    pub fn from_u128(value: u128) -> (id: Self)
        ensures
            id.0 == value,
    {
        OperationId(value)
    }

    pub fn as_u128(self) -> (value: u128)
        ensures
            value == self.0,
    {
        self.0
    }

    /// The hyphenated lowercase UUID text.
    pub fn to_string(&self) -> (s: String)
        ensures
            s@ == uuid_text_spec(self.0),
    {
        uuid_text(self.0)
    }
    /// Parses UUID text (see `parse_uuid`); text it refuses is an invalid
    /// `OperationId` naming the text and the parser's reason.
    pub fn parse(s: &str) -> (r: Result<Self, KernelError>)
        ensures
            match uuid_parse_result(s@) {
                Ok(v) => r == Ok::<Self, KernelError>(OperationId(v)),
                Err(cause) => r matches Err(KernelError::InvalidId { kind, value, cause: c }) && kind@
                    == "OperationId"@ && value@ == s@ && c@ == cause,
            },
    {
        match parse_uuid(s) {
            Ok(v) => Ok(OperationId(v)),
            Err(cause) => Err(invalid_id("OperationId", s, cause)),
        }
    }
}

/// Typed identifier; holds the 128-bit value of a UUID.
#[derive(Clone, Copy, Debug, PartialEq, Eq, Structural, PartialOrd, Ord, Hash)]
pub struct AttemptId(pub u128);

impl AttemptId {
    /// A fresh random identifier (a version 4 UUID).
    pub fn new() -> (id: Self)
        ensures
            is_random_uuid(id.0),
    {
        AttemptId(random_uuid_value())
    }

    pub fn from_u128(value: u128) -> (id: Self)
        ensures
            id.0 == value,
    {
        AttemptId(value)
    }

    pub fn as_u128(self) -> (value: u128)
        ensures
            value == self.0,
    {
        self.0
    }

    /// The hyphenated lowercase UUID text.
    pub fn to_string(&self) -> (s: String)
        ensures
            s@ == uuid_text_spec(self.0),
    {
        uuid_text(self.0)
    }
    /// Parses UUID text (see `parse_uuid`); text it refuses is an invalid
    /// `AttemptId` naming the text and the parser's reason.
    pub fn parse(s: &str) -> (r: Result<Self, KernelError>)
        ensures
            match uuid_parse_result(s@) {
                Ok(v) => r == Ok::<Self, KernelError>(AttemptId(v)),
                Err(cause) => r matches Err(KernelError::InvalidId { kind, value, cause: c }) && kind@
                    == "AttemptId"@ && value@ == s@ && c@ == cause,
            },
    {
        match parse_uuid(s) {
            Ok(v) => Ok(AttemptId(v)),
            Err(cause) => Err(invalid_id("AttemptId", s, cause)),
        }
    }
}

/// Typed identifier; holds the 128-bit value of a UUID.
#[derive(Clone, Copy, Debug, PartialEq, Eq, Structural, PartialOrd, Ord, Hash)]
pub struct JoinId(pub u128);

impl JoinId {
    /// A fresh random identifier (a version 4 UUID).
    pub fn new() -> (id: Self)
        ensures
            is_random_uuid(id.0),
    {
        JoinId(random_uuid_value())
    }

    pub fn from_u128(value: u128) -> (id: Self)
        ensures
            id.0 == value,
    {
        JoinId(value)
    }

    pub fn as_u128(self) -> (value: u128)
        ensures
            value == self.0,
    {
        self.0
    }

    /// The hyphenated lowercase UUID text.
    pub fn to_string(&self) -> (s: String)
        ensures
            s@ == uuid_text_spec(self.0),
    {
        uuid_text(self.0)
    }
    /// Parses UUID text (see `parse_uuid`); text it refuses is an invalid
    /// `JoinId` naming the text and the parser's reason.
    pub fn parse(s: &str) -> (r: Result<Self, KernelError>)
        ensures
            match uuid_parse_result(s@) {
                Ok(v) => r == Ok::<Self, KernelError>(JoinId(v)),
                Err(cause) => r matches Err(KernelError::InvalidId { kind, value, cause: c }) && kind@
                    == "JoinId"@ && value@ == s@ && c@ == cause,
            },
    {
        match parse_uuid(s) {
            Ok(v) => Ok(JoinId(v)),
            Err(cause) => Err(invalid_id("JoinId", s, cause)),
        }
    }
}

/// Typed identifier; holds the 128-bit value of a UUID.
#[derive(Clone, Copy, Debug, PartialEq, Eq, Structural, PartialOrd, Ord, Hash)]
pub struct BarrierId(pub u128);

impl BarrierId {
    /// A fresh random identifier (a version 4 UUID).
    pub fn new() -> (id: Self)
        ensures
            is_random_uuid(id.0),
    {
        BarrierId(random_uuid_value())
    }

    pub fn from_u128(value: u128) -> (id: Self)
        ensures
            id.0 == value,
    {
        BarrierId(value)
    }

    pub fn as_u128(self) -> (value: u128)
        ensures
            value == self.0,
    {
        self.0
    }

    /// The hyphenated lowercase UUID text.
    pub fn to_string(&self) -> (s: String)
        ensures
            s@ == uuid_text_spec(self.0),
    {
        uuid_text(self.0)
    }
    /// Parses UUID text (see `parse_uuid`); text it refuses is an invalid
    /// `BarrierId` naming the text and the parser's reason.
    pub fn parse(s: &str) -> (r: Result<Self, KernelError>)
        ensures
            match uuid_parse_result(s@) {
                Ok(v) => r == Ok::<Self, KernelError>(BarrierId(v)),
                Err(cause) => r matches Err(KernelError::InvalidId { kind, value, cause: c }) && kind@
                    == "BarrierId"@ && value@ == s@ && c@ == cause,
            },
    {
        match parse_uuid(s) {
            Ok(v) => Ok(BarrierId(v)),
            Err(cause) => Err(invalid_id("BarrierId", s, cause)),
        }
    }
}

/// Typed identifier; holds the 128-bit value of a UUID.
#[derive(Clone, Copy, Debug, PartialEq, Eq, Structural, PartialOrd, Ord, Hash)]
pub struct CapabilityId(pub u128);

impl CapabilityId {
    /// A fresh random identifier (a version 4 UUID).
    pub fn new() -> (id: Self)
        ensures
            is_random_uuid(id.0),
    {
        CapabilityId(random_uuid_value())
    }

    pub fn from_u128(value: u128) -> (id: Self)
        ensures
            id.0 == value,
    {
        CapabilityId(value)
    }

    pub fn as_u128(self) -> (value: u128)
        ensures
            value == self.0,
    {
        self.0
    }

    /// The hyphenated lowercase UUID text.
    pub fn to_string(&self) -> (s: String)
        ensures
            s@ == uuid_text_spec(self.0),
    {
        uuid_text(self.0)
    }
    /// Parses UUID text (see `parse_uuid`); text it refuses is an invalid
    /// `CapabilityId` naming the text and the parser's reason.
    pub fn parse(s: &str) -> (r: Result<Self, KernelError>)
        ensures
            match uuid_parse_result(s@) {
                Ok(v) => r == Ok::<Self, KernelError>(CapabilityId(v)),
                Err(cause) => r matches Err(KernelError::InvalidId { kind, value, cause: c }) && kind@
                    == "CapabilityId"@ && value@ == s@ && c@ == cause,
            },
    {
        match parse_uuid(s) {
            Ok(v) => Ok(CapabilityId(v)),
            Err(cause) => Err(invalid_id("CapabilityId", s, cause)),
        }
    }
}

/// Typed identifier; holds the 128-bit value of a UUID.
#[derive(Clone, Copy, Debug, PartialEq, Eq, Structural, PartialOrd, Ord, Hash)]
pub struct SnapshotId(pub u128);

impl SnapshotId {
    /// A fresh random identifier (a version 4 UUID).
    pub fn new() -> (id: Self)
        ensures
            is_random_uuid(id.0),
    {
        SnapshotId(random_uuid_value())
    }

    pub fn from_u128(value: u128) -> (id: Self)
        ensures
            id.0 == value,
    {
        SnapshotId(value)
    }

    pub fn as_u128(self) -> (value: u128)
        ensures
            value == self.0,
    {
        self.0
    }

    /// The hyphenated lowercase UUID text.
    pub fn to_string(&self) -> (s: String)
        ensures
            s@ == uuid_text_spec(self.0),
    {
        uuid_text(self.0)
    }
    /// Parses UUID text (see `parse_uuid`); text it refuses is an invalid
    /// `SnapshotId` naming the text and the parser's reason.
    pub fn parse(s: &str) -> (r: Result<Self, KernelError>)
        ensures
            match uuid_parse_result(s@) {
                Ok(v) => r == Ok::<Self, KernelError>(SnapshotId(v)),
                Err(cause) => r matches Err(KernelError::InvalidId { kind, value, cause: c }) && kind@
                    == "SnapshotId"@ && value@ == s@ && c@ == cause,
            },
    {
        match parse_uuid(s) {
            Ok(v) => Ok(SnapshotId(v)),
            Err(cause) => Err(invalid_id("SnapshotId", s, cause)),
        }
    }
}

/// Typed identifier; holds the 128-bit value of a UUID.
#[derive(Clone, Copy, Debug, PartialEq, Eq, Structural, PartialOrd, Ord, Hash)]
pub struct TurnId(pub u128);

impl TurnId {
    /// A fresh random identifier (a version 4 UUID).
    pub fn new() -> (id: Self)
        ensures
            is_random_uuid(id.0),
    {
        TurnId(random_uuid_value())
    }

    pub fn from_u128(value: u128) -> (id: Self)
        ensures
            id.0 == value,
    {
        TurnId(value)
    }

    pub fn as_u128(self) -> (value: u128)
        ensures
            value == self.0,
    {
        self.0
    }

    /// The hyphenated lowercase UUID text.
    pub fn to_string(&self) -> (s: String)
        ensures
            s@ == uuid_text_spec(self.0),
    {
        uuid_text(self.0)
    }
    /// Parses UUID text (see `parse_uuid`); text it refuses is an invalid
    /// `TurnId` naming the text and the parser's reason.
    pub fn parse(s: &str) -> (r: Result<Self, KernelError>)
        ensures
            match uuid_parse_result(s@) {
                Ok(v) => r == Ok::<Self, KernelError>(TurnId(v)),
                Err(cause) => r matches Err(KernelError::InvalidId { kind, value, cause: c }) && kind@
                    == "TurnId"@ && value@ == s@ && c@ == cause,
            },
    {
        match parse_uuid(s) {
            Ok(v) => Ok(TurnId(v)),
            Err(cause) => Err(invalid_id("TurnId", s, cause)),
        }
    }
}

/// Typed identifier; holds the 128-bit value of a UUID.
#[derive(Clone, Copy, Debug, PartialEq, Eq, Structural, PartialOrd, Ord, Hash)]
pub struct CorrelationId(pub u128);

impl CorrelationId {
    /// A fresh random identifier (a version 4 UUID).
    pub fn new() -> (id: Self)
        ensures
            is_random_uuid(id.0),
    {
        CorrelationId(random_uuid_value())
    }

    pub fn from_u128(value: u128) -> (id: Self)
        ensures
            id.0 == value,
    {
        CorrelationId(value)
    }

    pub fn as_u128(self) -> (value: u128)
        ensures
            value == self.0,
    {
        self.0
    }

    /// The hyphenated lowercase UUID text.
    pub fn to_string(&self) -> (s: String)
        ensures
            s@ == uuid_text_spec(self.0),
    {
        uuid_text(self.0)
    }
    /// Parses UUID text (see `parse_uuid`); text it refuses is an invalid
    /// `CorrelationId` naming the text and the parser's reason.
    pub fn parse(s: &str) -> (r: Result<Self, KernelError>)
        ensures
            match uuid_parse_result(s@) {
                Ok(v) => r == Ok::<Self, KernelError>(CorrelationId(v)),
                Err(cause) => r matches Err(KernelError::InvalidId { kind, value, cause: c }) && kind@
                    == "CorrelationId"@ && value@ == s@ && c@ == cause,
            },
    {
        match parse_uuid(s) {
            Ok(v) => Ok(CorrelationId(v)),
            Err(cause) => Err(invalid_id("CorrelationId", s, cause)),
        }
    }
}

/// Typed identifier; holds the 128-bit value of a UUID.
#[derive(Clone, Copy, Debug, PartialEq, Eq, Structural, PartialOrd, Ord, Hash)]
pub struct LeaseOwnerId(pub u128);

impl LeaseOwnerId {
    /// A fresh random identifier (a version 4 UUID).
    pub fn new() -> (id: Self)
        ensures
            is_random_uuid(id.0),
    {
        LeaseOwnerId(random_uuid_value())
    }

    pub fn from_u128(value: u128) -> (id: Self)
        ensures
            id.0 == value,
    {
        LeaseOwnerId(value)
    }

    pub fn as_u128(self) -> (value: u128)
        ensures
            value == self.0,
    {
        self.0
    }

    /// The hyphenated lowercase UUID text.
    pub fn to_string(&self) -> (s: String)
        ensures
            s@ == uuid_text_spec(self.0),
    {
        uuid_text(self.0)
    }
    /// Parses UUID text (see `parse_uuid`); text it refuses is an invalid
    /// `LeaseOwnerId` naming the text and the parser's reason.
    pub fn parse(s: &str) -> (r: Result<Self, KernelError>)
        ensures
            match uuid_parse_result(s@) {
                Ok(v) => r == Ok::<Self, KernelError>(LeaseOwnerId(v)),
                Err(cause) => r matches Err(KernelError::InvalidId { kind, value, cause: c }) && kind@
                    == "LeaseOwnerId"@ && value@ == s@ && c@ == cause,
            },
    {
        match parse_uuid(s) {
            Ok(v) => Ok(LeaseOwnerId(v)),
            Err(cause) => Err(invalid_id("LeaseOwnerId", s, cause)),
        }
    }
}

/// Typed identifier; holds the 128-bit value of a UUID.
#[derive(Clone, Copy, Debug, PartialEq, Eq, Structural, PartialOrd, Ord, Hash)]
pub struct ExecutorId(pub u128);

impl ExecutorId {
    /// A fresh random identifier (a version 4 UUID).
    pub fn new() -> (id: Self)
        ensures
            is_random_uuid(id.0),
    {
        ExecutorId(random_uuid_value())
    }

    pub fn from_u128(value: u128) -> (id: Self)
        ensures
            id.0 == value,
    {
        ExecutorId(value)
    }

    pub fn as_u128(self) -> (value: u128)
        ensures
            value == self.0,
    {
        self.0
    }

    /// The hyphenated lowercase UUID text.
    pub fn to_string(&self) -> (s: String)
        ensures
            s@ == uuid_text_spec(self.0),
    {
        uuid_text(self.0)
    }
    /// Parses UUID text (see `parse_uuid`); text it refuses is an invalid
    /// `ExecutorId` naming the text and the parser's reason.
    pub fn parse(s: &str) -> (r: Result<Self, KernelError>)
        ensures
            match uuid_parse_result(s@) {
                Ok(v) => r == Ok::<Self, KernelError>(ExecutorId(v)),
                Err(cause) => r matches Err(KernelError::InvalidId { kind, value, cause: c }) && kind@
                    == "ExecutorId"@ && value@ == s@ && c@ == cause,
            },
    {
        match parse_uuid(s) {
            Ok(v) => Ok(ExecutorId(v)),
            Err(cause) => Err(invalid_id("ExecutorId", s, cause)),
        }
    }
}

impl std::str::FromStr for ExecutionId {
    type Err = KernelError;

    fn from_str(s: &str) -> Result<Self, KernelError> {
        Self::parse(s)
    }
}

impl std::str::FromStr for EventId {
    type Err = KernelError;

    fn from_str(s: &str) -> Result<Self, KernelError> {
        Self::parse(s)
    }
}

impl std::str::FromStr for GoalId {
    type Err = KernelError;

    fn from_str(s: &str) -> Result<Self, KernelError> {
        Self::parse(s)
    }
}

impl std::str::FromStr for AgentId {
    type Err = KernelError;

    fn from_str(s: &str) -> Result<Self, KernelError> {
        Self::parse(s)
    }
}

impl std::str::FromStr for TaskId {
    type Err = KernelError;

    fn from_str(s: &str) -> Result<Self, KernelError> {
        Self::parse(s)
    }
}

impl std::str::FromStr for OperationId {
    type Err = KernelError;

    fn from_str(s: &str) -> Result<Self, KernelError> {
        Self::parse(s)
    }
}

impl std::str::FromStr for AttemptId {
    type Err = KernelError;

    fn from_str(s: &str) -> Result<Self, KernelError> {
        Self::parse(s)
    }
}

impl std::str::FromStr for JoinId {
    type Err = KernelError;

    fn from_str(s: &str) -> Result<Self, KernelError> {
        Self::parse(s)
    }
}

impl std::str::FromStr for BarrierId {
    type Err = KernelError;

    fn from_str(s: &str) -> Result<Self, KernelError> {
        Self::parse(s)
    }
}

impl std::str::FromStr for CapabilityId {
    type Err = KernelError;

    fn from_str(s: &str) -> Result<Self, KernelError> {
        Self::parse(s)
    }
}

impl std::str::FromStr for SnapshotId {
    type Err = KernelError;

    fn from_str(s: &str) -> Result<Self, KernelError> {
        Self::parse(s)
    }
}

impl std::str::FromStr for TurnId {
    type Err = KernelError;

    fn from_str(s: &str) -> Result<Self, KernelError> {
        Self::parse(s)
    }
}

impl std::str::FromStr for CorrelationId {
    type Err = KernelError;

    fn from_str(s: &str) -> Result<Self, KernelError> {
        Self::parse(s)
    }
}

impl std::str::FromStr for LeaseOwnerId {
    type Err = KernelError;

    fn from_str(s: &str) -> Result<Self, KernelError> {
        Self::parse(s)
    }
}

impl std::str::FromStr for ExecutorId {
    type Err = KernelError;

    fn from_str(s: &str) -> Result<Self, KernelError> {
        Self::parse(s)
    }
}

} // verus!
