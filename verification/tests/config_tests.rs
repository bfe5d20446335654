use sharder::config::{
    normalize_token, parse_u16, parse_u64, shard_count, shard_ids, validate_shards, ConfigError,
};

#[test]
fn parse_u64_accepts_digits() {
    assert_eq!(parse_u64(b"0"), Some(0));
    assert_eq!(parse_u64(b"7"), Some(7));
    assert_eq!(parse_u64(b"1024"), Some(1024));
    assert_eq!(parse_u64(b"18446744073709551615"), Some(u64::MAX));
}

#[test]
fn parse_u64_refuses_junk() {
    assert_eq!(parse_u64(b""), None);
    assert_eq!(parse_u64(b"12a"), None);
    assert_eq!(parse_u64(b"-3"), None);
    assert_eq!(parse_u64(b" 3"), None);
    assert_eq!(parse_u64(b"18446744073709551616"), None);
    assert_eq!(parse_u64(b"99999999999999999999999"), None);
}

#[test]
fn parse_u16_bounds() {
    assert_eq!(parse_u16(b"0"), Some(0));
    assert_eq!(parse_u16(b"65535"), Some(65535));
    assert_eq!(parse_u16(b"65536"), None);
    assert_eq!(parse_u16(b"007"), Some(7));
}

#[test]
fn token_without_prefix_is_normalised() {
    let token = normalize_token(b"abc123".to_vec());
    assert_eq!(token, b"Bot abc123".to_vec());
}

#[test]
fn token_with_prefix_is_unchanged() {
    let token = normalize_token(b"Bot abc123".to_vec());
    assert_eq!(token, b"Bot abc123".to_vec());
}

#[test]
fn short_token_is_prefixed() {
    assert_eq!(normalize_token(b"Bot".to_vec()), b"Bot Bot".to_vec());
    assert_eq!(normalize_token(Vec::new()), b"Bot ".to_vec());
}

#[test]
fn valid_range_is_accepted() {
    let cfg = validate_shards(0, 1, 4).unwrap();
    assert_eq!(cfg.start, 0);
    assert_eq!(cfg.until, 1);
    assert_eq!(cfg.total, 4);
    assert!(validate_shards(0, 65535, 65536).is_ok());
}

#[test]
fn invalid_ranges_name_the_constraint() {
    assert!(matches!(validate_shards(5, 4, 10), Err(ConfigError::StartAboveUntil)));
    assert!(matches!(validate_shards(0, 4, 4), Err(ConfigError::TotalNotAboveUntil)));
    assert!(matches!(validate_shards(0, 4, 0), Err(ConfigError::TotalNotAboveUntil)));
    assert!(matches!(validate_shards(0, 65535, 65537), Err(ConfigError::TotalTooLarge)));
}

#[test]
fn equal_ends_run_a_single_shard() {
    let cfg = validate_shards(5, 5, 16).unwrap();
    assert_eq!(shard_count(&cfg), 1);
    assert_eq!(shard_ids(&cfg), vec![5]);
}

#[test]
fn ids_cover_the_range_in_order() {
    let cfg = validate_shards(3, 7, 16).unwrap();
    assert_eq!(shard_count(&cfg), 5);
    assert_eq!(shard_ids(&cfg), vec![3, 4, 5, 6, 7]);
}
