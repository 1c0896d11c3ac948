use decrypt_files::config::build_config;
use decrypt_files::config::parse_usize;
use decrypt_files::config::ConfigError;

#[test]
fn parse_usize_accepts_plain_and_signed_decimals() {
    assert_eq!(parse_usize("0"), Some(0));
    assert_eq!(parse_usize("8"), Some(8));
    assert_eq!(parse_usize("128"), Some(128));
    assert_eq!(parse_usize("+42"), Some(42));
    assert_eq!(parse_usize("18446744073709551615"), Some(usize::MAX));
}

#[test]
fn parse_usize_rejects_malformed_and_oversized_input() {
    assert_eq!(parse_usize(""), None);
    assert_eq!(parse_usize("+"), None);
    assert_eq!(parse_usize("-1"), None);
    assert_eq!(parse_usize("12a"), None);
    assert_eq!(parse_usize(" 3"), None);
    assert_eq!(parse_usize("4.0"), None);
    assert_eq!(parse_usize("18446744073709551616"), None);
    assert_eq!(parse_usize("999999999999999999999999999999"), None);
}

#[test]
fn build_config_requires_both_directories_in_order() {
    let r = build_config(None, Some("out".into()), None, None, None);
    assert_eq!(r.err(), Some(ConfigError::MissingInputDir));

    let r = build_config(Some("in".into()), None, None, None, None);
    assert_eq!(r.err(), Some(ConfigError::MissingOutputDir));

    let r = build_config(None, None, None, None, None);
    assert_eq!(r.err(), Some(ConfigError::MissingInputDir));
}

#[test]
fn build_config_defaults_the_worker_count_to_zero() {
    let cfg = build_config(Some("in".into()), Some("out".into()), None, None, None).unwrap();
    assert_eq!(cfg.input_dir, "in");
    assert_eq!(cfg.output_dir, "out");
    assert!(cfg.passphrase_file.is_none());
    assert!(cfg.identity_file.is_none());
    assert_eq!(cfg.threads, 0);
}

#[test]
fn build_config_parses_the_worker_count_override() {
    let cfg = build_config(
        Some("in".into()),
        Some("out".into()),
        Some("pass.txt".into()),
        Some("id.txt".into()),
        Some("6".into()),
    )
    .unwrap();
    assert_eq!(cfg.passphrase_file.as_deref(), Some("pass.txt"));
    assert_eq!(cfg.identity_file.as_deref(), Some("id.txt"));
    assert_eq!(cfg.threads, 6);
}

#[test]
fn build_config_rejects_a_malformed_worker_count() {
    let r = build_config(Some("in".into()), Some("out".into()), None, None, Some("many".into()));
    assert_eq!(r.err(), Some(ConfigError::InvalidThreads));
}
