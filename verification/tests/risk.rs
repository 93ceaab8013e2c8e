use ksud::risk::{
    build_risk_block_message, fold_composed_text, build_risk_pause_prompt_message, build_risk_timeout_block_message,
    contains_risk, load_risk_json, normalize_risk_text, risk_rules, should_update_risk_cache,
    RiskCatalog, RiskGroup, RiskSeverity, RiskSource,
};

fn catalog(hash: &str, reason: &str, severity: RiskSeverity, patterns: &[&str]) -> RiskCatalog {
    RiskCatalog {
        hash: hash.to_string(),
        rules: vec![group(reason, severity, patterns)],
    }
}

fn group(reason: &str, severity: RiskSeverity, patterns: &[&str]) -> RiskGroup {
    RiskGroup {
        reason: reason.to_string(),
        severity,
        patterns: patterns.iter().map(|p| p.to_string()).collect(),
    }
}

/// Reads a catalog out of JSON the way ksud does, or `None` when it does not parse.
fn parse_catalog(json: &[u8]) -> Option<RiskCatalog> {
    let v: serde_json::Value = serde_json::from_slice(json).ok()?;
    let hash = v.get("hash")?.as_str()?.to_string();
    let mut rules = Vec::new();
    for g in v.get("rules")?.as_array()? {
        let severity = match g.get("severity")?.as_str()? {
            "low" => RiskSeverity::Low,
            "medium" => RiskSeverity::Medium,
            "high" => RiskSeverity::High,
            "extreme" => RiskSeverity::Extreme,
            _ => return None,
        };
        let mut patterns = Vec::new();
        for p in g.get("patterns")?.as_array()? {
            patterns.push(p.as_str()?.to_string());
        }
        rules.push(RiskGroup { reason: g.get("reason")?.as_str()?.to_string(), severity, patterns });
    }
    Some(RiskCatalog { hash, rules })
}

#[test]
fn risk_cache_diff_detects_change() {
    let local = br#"{"hash":"abc","rules":[{"reason":"demo","severity":"low","patterns":["alpha"]}]}"#;
    let remote_same = br#"{"hash":"abc","rules":[{"reason":"demo","severity":"low","patterns":["alpha"]}]}"#;
    let remote_diff = br#"{"hash":"def","rules":[{"reason":"demo","severity":"low","patterns":["beta"]}]}"#;

    let local = parse_catalog(local);
    assert!(!should_update_risk_cache(local.as_ref(), parse_catalog(remote_same).as_ref()));
    assert!(should_update_risk_cache(local.as_ref(), parse_catalog(remote_diff).as_ref()));
}

#[test]
fn timeout_block_omits_duplicate_risk_details() {
    let message = build_risk_timeout_block_message();

    assert!(message.contains("Installation Blocked"));
    assert!(!message.contains("Severity:"));
    assert!(!message.contains("Reason:"));
}

#[test]
fn cache_is_replaced_when_a_catalog_does_not_parse() {
    let local = catalog("abc", "demo", RiskSeverity::Low, &["alpha"]);
    assert!(parse_catalog(b"{\"hash\":\"abc\"").is_none());
    assert!(should_update_risk_cache(None, Some(&local)));
    assert!(should_update_risk_cache(Some(&local), None));
    assert!(should_update_risk_cache(None, None));
}

fn parse_hash_only(bytes: &Vec<u8>) -> Option<RiskCatalog> {
    // A catalog is written here as "hash" alone; anything empty does not parse.
    if bytes.is_empty() {
        None
    } else {
        Some(RiskCatalog { hash: String::from_utf8(bytes.clone()).unwrap(), rules: vec![] })
    }
}

#[test]
fn load_prefers_fresh_remote_catalog() {
    let same = load_risk_json(&Some(b"abc".to_vec()), &Some(b"abc".to_vec()), &parse_hash_only);
    assert_eq!(same, RiskSource::Cache);
    let newer = load_risk_json(&Some(b"abc".to_vec()), &Some(b"def".to_vec()), &parse_hash_only);
    assert_eq!(newer, RiskSource::Remote);
    let broken_cache = load_risk_json(&Some(vec![]), &Some(b"def".to_vec()), &parse_hash_only);
    assert_eq!(broken_cache, RiskSource::Remote);
    assert_eq!(load_risk_json(&Some(b"abc".to_vec()), &None, &parse_hash_only), RiskSource::Cache);
    assert_eq!(load_risk_json(&None, &Some(b"abc".to_vec()), &parse_hash_only), RiskSource::Remote);
    assert_eq!(load_risk_json(&None, &None, &parse_hash_only), RiskSource::Bundled);
}

#[test]
fn rules_fall_back_on_bundled_catalog() {
    let cached = catalog("abc", "cached", RiskSeverity::High, &["x"]);
    let rules = risk_rules(Some(cached), &|| Some(catalog("b", "bundled", RiskSeverity::Low, &["y"])));
    assert_eq!(rules.len(), 1);
    assert_eq!(rules[0].reason, "cached");
    let rules = risk_rules(None, &|| Some(catalog("b", "bundled", RiskSeverity::Low, &["y"])));
    assert_eq!(rules[0].reason, "bundled");
    let rules = risk_rules(None, &|| None);
    assert!(rules.is_empty());
}

#[test]
fn normalization_folds_case_width_and_punctuation() {
    assert_eq!(normalize_risk_text("Hello, World!"), "hello  world ");
    // Full-width letters fold to ASCII under NFKC.
    assert_eq!(normalize_risk_text("\u{ff21}\u{ff22}"), "ab");
    assert_eq!(normalize_risk_text("a_b-c"), "a b c");
}

#[test]
fn pattern_matches_a_run_of_words() {
    let rules = vec![
        group("first", RiskSeverity::Medium, &["never here"]),
        group("second", RiskSeverity::Extreme, &["", "hide root"]),
        group("third", RiskSeverity::Low, &["root"]),
    ];
    let m = contains_risk("name=Magic: HIDE-ROOT tool", &rules).unwrap();
    assert_eq!(m.reason, "second");
    assert_eq!(m.severity, RiskSeverity::Extreme);
    // A run must be unbroken and in order.
    assert_eq!(contains_risk("root hide", &rules).unwrap().reason, "third");
    assert!(contains_risk("nothing to see", &rules).is_none());
    // An empty pattern never matches.
    let empty_only = vec![group("empty", RiskSeverity::Low, &["", " ,. "])];
    assert!(contains_risk("anything", &empty_only).is_none());
    // Words are whole words.
    assert!(contains_risk("rooted", &vec![group("r", RiskSeverity::Low, &["root"])]).is_none());
}

#[test]
fn block_and_pause_messages_show_severity_and_reason() {
    let block = build_risk_block_message(RiskSeverity::High, "steals tokens");
    assert!(block.contains("Installation Blocked"));
    assert!(block.contains("│ Severity: High\n│ Reason: steals tokens\n"));
    assert!(block.starts_with("\n❌ Installation Blocked\n┌"));
    assert!(block.ends_with("└─────────────────────────────────\n"));
    let pause = build_risk_pause_prompt_message(RiskSeverity::Low, "demo");
    assert!(pause.contains("Installation Paused"));
    assert!(pause.contains("│ Severity: Low\n│ Reason: demo\n│\n│ Press the volume-down key within 5 seconds to continue.\n"));
}

#[test]
fn composed_text_is_folded() {
    assert_eq!(fold_composed_text("Root-Hide v2.0"), "root hide v2 0");
    // Folding alone leaves compatibility forms: a full-width letter only lowers.
    assert_eq!(fold_composed_text("\u{ff21}"), "\u{ff41}");
    assert_eq!(fold_composed_text(""), "");
}
