use codex_agent_kernel::compat::{mappings, MappingQuality, MAPPING_COUNT};

#[test]
fn mapping_table_is_nonempty() {
    assert!(mappings().len() >= 10);
    assert!(mappings()
        .iter()
        .any(|m| m.codex.contains("wait_agent") && m.quality == MappingQuality::Unmapped));
}

#[test]
fn mapping_table_has_every_row() {
    let rows = mappings();
    assert_eq!(rows.len(), MAPPING_COUNT);
    assert_eq!(rows[0].codex, "thread / SessionId");
    assert_eq!(rows[0].kernel, "Execution");
    assert_eq!(rows[0].quality, MappingQuality::Approximate);
}
