use screenshot::labels::LabelResolver;

fn sample_entries() -> Vec<(String, u16)> {
    vec![
        ("@mainLoop".to_string(), 0x81F0u16),
        ("gameMode".to_string(), 0x00C0u16),
        ("gameType".to_string(), 0x00C1u16),
        ("player1_startLevel".to_string(), 0x00C2u16),
        ("player1_startHeight".to_string(), 0x00C3u16),
    ]
}

fn sample_resolver() -> LabelResolver {
    LabelResolver::load(sample_entries()).unwrap()
}

#[test]
fn get_returns_loaded_address() {
    let resolver = sample_resolver();
    assert_eq!(resolver.get("@mainLoop").unwrap(), 0x81F0);
    assert_eq!(resolver.get("gameMode").unwrap(), 0x00C0);
    assert_eq!(resolver.get("player1_startHeight").unwrap(), 0x00C3);
}

#[test]
fn get_is_idempotent() {
    let resolver = sample_resolver();
    let first = resolver.get("gameMode").unwrap();
    let second = resolver.get("gameMode").unwrap();
    assert_eq!(first, second);
    // Interleaved lookups of other names do not disturb the result either.
    let _ = resolver.get("gameType").unwrap();
    let _ = resolver.get("@doesNotExist");
    let third = resolver.get("gameMode").unwrap();
    assert_eq!(first, third);
}

#[test]
fn get_missing_label_reports_name() {
    let resolver = sample_resolver();
    let err = resolver.get("@doesNotExist").unwrap_err();
    assert_eq!(err.name, "@doesNotExist");
}

#[test]
fn load_rejects_duplicate_names() {
    let entries = vec![
        ("gameMode".to_string(), 0x00C0u16),
        ("gameType".to_string(), 0x00C1u16),
        ("gameMode".to_string(), 0x00D0u16),
    ];
    let err = LabelResolver::load(entries).unwrap_err();
    assert_eq!(err.name, "gameMode");
}

#[test]
fn load_accepts_empty_map() {
    let resolver = LabelResolver::load(Vec::new()).unwrap();
    assert!(resolver.get("anything").is_err());
}
