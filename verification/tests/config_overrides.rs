use sv_mint::config::normalize::infer_rule_stages;
use sv_mint::config::overrides::apply_rule_overrides;
use sv_mint::config::types::RuleConfig;
use sv_mint::errors::ConfigError;
use sv_mint::types::Stage;

fn make_rules() -> Vec<RuleConfig> {
    vec![
        RuleConfig {
            id: "a".to_string(),
            script: "a.py".to_string(),
            stage: Some(Stage::RawText),
            enabled: true,
            severity: None,
        },
        RuleConfig {
            id: "b".to_string(),
            script: "b.py".to_string(),
            stage: Some(Stage::RawText),
            enabled: true,
            severity: None,
        },
        RuleConfig {
            id: "c".to_string(),
            script: "c.py".to_string(),
            stage: Some(Stage::RawText),
            enabled: true,
            severity: None,
        },
    ]
}

fn is_enabled(rules: &[RuleConfig], id: &str) -> bool {
    rules.iter().find(|r| r.id == id).unwrap().enabled
}

#[test]
fn config_disable_rules() {
    let mut rules = make_rules();
    let disable = vec!["b".to_string()];
    apply_rule_overrides(&mut rules, &[], &disable).unwrap();
    assert!(is_enabled(&rules, "a"));
    assert!(!is_enabled(&rules, "b"));
    assert!(is_enabled(&rules, "c"));
}

#[test]
fn config_only_rules() {
    let mut rules = make_rules();
    let only = vec!["c".to_string()];
    apply_rule_overrides(&mut rules, &only, &[]).unwrap();
    assert!(!is_enabled(&rules, "a"));
    assert!(!is_enabled(&rules, "b"));
    assert!(is_enabled(&rules, "c"));
}

#[test]
fn config_combined_only_and_disable() {
    let mut rules = make_rules();
    let only = vec!["a".to_string(), "b".to_string()];
    let disable = vec!["b".to_string()];
    apply_rule_overrides(&mut rules, &only, &disable).unwrap();
    assert!(is_enabled(&rules, "a"));
    assert!(!is_enabled(&rules, "b"));
    assert!(!is_enabled(&rules, "c"));
}

#[test]
fn config_invalid_rule_name_errors() {
    let mut rules = make_rules();
    let only = vec!["missing".to_string()];
    let err = apply_rule_overrides(&mut rules, &only, &[]);
    assert!(matches!(err, Err(ConfigError::InvalidValue { .. })));
}

#[test]
fn config_infers_stage_from_script_suffix() {
    let mut rules = vec![RuleConfig {
        id: "flow.wait_macro_required".to_string(),
        script: "plugins/flow.wait_macro_required.raw.py".to_string(),
        stage: None,
        enabled: true,
        severity: None,
    }];
    infer_rule_stages(&mut rules).unwrap();
    assert!(matches!(rules[0].stage(), Stage::RawText));
}

#[test]
fn config_errors_when_stage_suffix_missing() {
    let mut rules = vec![RuleConfig {
        id: "example".to_string(),
        script: "plugins/example.py".to_string(),
        stage: None,
        enabled: true,
        severity: None,
    }];
    let err = infer_rule_stages(&mut rules);
    assert!(matches!(err, Err(ConfigError::InvalidValue { .. })));
}

#[test]
fn tests_disable_rules() {
    let mut rules = make_rules();
    let disable = vec!["b".to_string()];
    apply_rule_overrides(&mut rules, &[], &disable).unwrap();
    assert!(is_enabled(&rules, "a"));
    assert!(!is_enabled(&rules, "b"));
    assert!(is_enabled(&rules, "c"));
}

#[test]
fn tests_only_rules() {
    let mut rules = make_rules();
    let only = vec!["c".to_string()];
    apply_rule_overrides(&mut rules, &only, &[]).unwrap();
    assert!(!is_enabled(&rules, "a"));
    assert!(!is_enabled(&rules, "b"));
    assert!(is_enabled(&rules, "c"));
}

#[test]
fn tests_combined_only_and_disable() {
    let mut rules = make_rules();
    let only = vec!["a".to_string(), "b".to_string()];
    let disable = vec!["b".to_string()];
    apply_rule_overrides(&mut rules, &only, &disable).unwrap();
    assert!(is_enabled(&rules, "a"));
    assert!(!is_enabled(&rules, "b"));
    assert!(!is_enabled(&rules, "c"));
}

#[test]
fn tests_invalid_rule_name_errors() {
    let mut rules = make_rules();
    let only = vec!["missing".to_string()];
    let err = apply_rule_overrides(&mut rules, &only, &[]);
    assert!(matches!(err, Err(ConfigError::InvalidValue { .. })));
}

#[test]
fn tests_infers_stage_from_script_suffix() {
    let mut rules = vec![RuleConfig {
        id: "flow.wait_macro_required".to_string(),
        script: "plugins/flow.wait_macro_required.raw.py".to_string(),
        stage: None,
        enabled: true,
        severity: None,
    }];
    infer_rule_stages(&mut rules).unwrap();
    assert!(matches!(rules[0].stage(), Stage::RawText));
}

#[test]
fn tests_errors_when_stage_suffix_missing() {
    let mut rules = vec![RuleConfig {
        id: "example".to_string(),
        script: "plugins/example.py".to_string(),
        stage: None,
        enabled: true,
        severity: None,
    }];
    let err = infer_rule_stages(&mut rules);
    assert!(matches!(err, Err(ConfigError::InvalidValue { .. })));
}
