use codex_agent_kernel::error::KernelError;
use codex_agent_kernel::ids::{ContentHash, EventId, ExecutionId, GoalId, IdempotencyKey, OperationId, StateHash};

#[test]
fn ids_print_as_hyphenated_lowercase_uuids() {
    let id = ExecutionId::from_u128(0x123e4567_e89b_12d3_a456_426614174000);
    assert_eq!(id.to_string(), "123e4567-e89b-12d3-a456-426614174000");
    assert_eq!(id.as_u128(), 0x123e4567_e89b_12d3_a456_426614174000);
}

#[test]
fn fresh_ids_are_random_v4_uuids() {
    let a = ExecutionId::new();
    let b = ExecutionId::new();
    assert_ne!(a, b);
    let text = a.to_string();
    assert_eq!(text.len(), 36);
    assert_eq!(&text[14..15], "4");
    assert!(matches!(&text[19..20], "8" | "9" | "a" | "b"));
}

#[test]
fn content_hashes_are_blake3_in_lowercase_hex() {
    let h = ContentHash::of_bytes(b"abc");
    assert_eq!(h.to_hex(), blake3::hash(b"abc").to_hex().to_string());
    assert_eq!(h.to_hex(), hex::encode(h.as_bytes()));
    assert_eq!(h.hex_prefix(), h.to_hex()[..2].to_string());
    assert_eq!(StateHash::of_bytes(b"abc").to_hex(), h.to_hex());
    assert!(h.same(&ContentHash::of_bytes(b"abc")));
    assert!(!h.same(&ContentHash::of_bytes(b"abd")));
}

#[test]
fn content_hash_hex_round_trips() {
    let h = ContentHash::of_bytes(b"round trip");
    let back = ContentHash::from_hex(&h.to_hex()).unwrap();
    assert_eq!(back, h);
    let upper = ContentHash::from_hex(&h.to_hex().to_uppercase()).unwrap();
    assert_eq!(upper, h);
    match ContentHash::from_hex("abcd") {
        Err(KernelError::InvalidHash(m)) => assert_eq!(m, "expected 32 bytes, got 2"),
        _ => panic!("expected a length error"),
    }
    assert!(matches!(ContentHash::from_hex("zz"), Err(KernelError::InvalidHash(_))));
}

#[test]
fn idempotency_keys_join_kind_and_unique() {
    let k = IdempotencyKey::new("proc_started", "a:b");
    assert_eq!(k.0, "proc_started:a:b");
    assert_eq!(k.to_string(), "proc_started:a:b");
    assert!(k.same(&IdempotencyKey::new("proc_started", "a:b")));
}

#[test]
fn ids_parse_their_uuid_text() {
    let id = EventId::parse("550e8400-e29b-41d4-a716-446655440000").unwrap();
    assert_eq!(id.0, 0x550e8400_e29b_41d4_a716_446655440000u128);
    assert_eq!(id.to_string(), "550e8400-e29b-41d4-a716-446655440000");
    let simple: EventId = "550E8400E29B41D4A716446655440000".parse().unwrap();
    assert_eq!(simple, id);
    let fresh = GoalId::new();
    assert_eq!(GoalId::parse(&fresh.to_string()).unwrap(), fresh);
    match OperationId::parse("not-a-uuid") {
        Err(KernelError::InvalidId { kind, value, cause }) => {
            assert_eq!(kind, "OperationId");
            assert_eq!(value, "not-a-uuid");
            assert!(!cause.is_empty());
        }
        other => panic!("expected an invalid id, got {:?}", other.map(|o| o.0)),
    }
}
