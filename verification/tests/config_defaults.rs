use sv_mint::config::keys::{classify_top_key, is_known_rule_key, unknown_nested_keys, TopKey};
use sv_mint::config::types::{
    Config, Defaults, LoggingConfig, Plugin, RuleConfig, Stages, TransportConfig,
};
use sv_mint::config::validate::validate_config;
use sv_mint::errors::ConfigError;
use sv_mint::sv::model::SvParserCfg;
use sv_mint::types::Stage;

/// A configuration with every section at its defaults and the given rules.
fn config_with_rules(rules: Vec<RuleConfig>) -> Config {
    Config {
        logging: LoggingConfig::default(),
        defaults: Defaults::default(),
        plugin: Plugin::default(),
        stages: Stages::default(),
        svparser: SvParserCfg::default(),
        rule: rules,
        transport: TransportConfig::default(),
    }
}

fn raw_rule(id: &str, script: &str) -> RuleConfig {
    RuleConfig {
        id: id.to_string(),
        script: script.to_string(),
        stage: Some(Stage::RawText),
        enabled: true,
        severity: None,
    }
}

fn one_rule_config(id: &str) -> Config {
    config_with_rules(vec![raw_rule(id, &format!("{id}.raw.py"))])
}

fn check_sections_use_defaults(cfg: &Config) {
    assert_eq!(cfg.defaults.timeout_ms_per_file, 6000);
    assert_eq!(cfg.plugin.cmd, "python3");
    assert_eq!(cfg.plugin.args, vec!["-u", "-B"]);
    assert_eq!(cfg.stages.enabled, vec![Stage::RawText, Stage::PpText, Stage::Cst, Stage::Ast]);
    assert_eq!(cfg.stages.required, vec![Stage::RawText, Stage::PpText]);
}

#[test]
fn config_config_sections_use_defaults() {
    check_sections_use_defaults(&one_rule_config("dv.dpi.import_prefix"));
}

#[test]
fn tests_config_sections_use_defaults() {
    check_sections_use_defaults(&one_rule_config("dv_dpi_import_prefix"));
}

fn check_logging_partial_overrides(cfg: &Config) {
    assert_eq!(cfg.logging.stderr_snippet_bytes, 512);
    assert!(!cfg.logging.show_stage_events);
    assert!(!cfg.logging.show_plugin_events);
    assert!(!cfg.logging.show_parse_events);
    assert_eq!(cfg.logging.level, "info");
}

#[test]
fn config_logging_partial_overrides_apply_defaults() {
    let mut cfg = config_with_rules(vec![]);
    cfg.logging = LoggingConfig { stderr_snippet_bytes: 512, ..LoggingConfig::default() };
    check_logging_partial_overrides(&cfg);
}

#[test]
fn tests_logging_partial_overrides_apply_defaults() {
    let cfg = config_with_rules(vec![]);
    let cfg = Config { logging: LoggingConfig { stderr_snippet_bytes: 512, ..cfg.logging.clone() }, ..cfg };
    check_logging_partial_overrides(&cfg);
}

fn check_plugin_args_can_be_empty(id: &str) {
    let mut cfg = one_rule_config(id);
    cfg.plugin.args = vec![];
    assert!(cfg.plugin.args.is_empty());
    assert!(validate_config(&cfg).is_ok());
}

#[test]
fn config_plugin_args_can_be_empty() {
    check_plugin_args_can_be_empty("dv.dpi.import_prefix");
}

#[test]
fn tests_plugin_args_can_be_empty() {
    check_plugin_args_can_be_empty("dv_dpi_import_prefix");
}

fn check_stages_enabled_empty_errors(id: &str) {
    let mut cfg = one_rule_config(id);
    cfg.stages.enabled = vec![];
    let err = validate_config(&cfg).unwrap_err();
    assert!(matches!(err, ConfigError::InvalidValue { .. }));
}

#[test]
fn config_stages_enabled_empty_errors() {
    check_stages_enabled_empty_errors("dv.dpi.import_prefix");
}

#[test]
fn tests_stages_enabled_empty_errors() {
    check_stages_enabled_empty_errors("dv_dpi_import_prefix");
}

#[test]
fn config_svparser_defaults_fill_in() {
    let cfg = one_rule_config("dv.dpi.import_prefix");
    assert!(cfg.svparser.include_paths.is_empty());
    assert!(cfg.svparser.defines.is_empty());
    assert!(cfg.svparser.strip_comments);
    assert!(cfg.svparser.ignore_include);
    assert!(cfg.svparser.allow_incomplete);
}

fn check_transport_invalid_values(id: &str) {
    let mut cfg = one_rule_config(id);
    cfg.transport.max_request_bytes = 0;
    let err = validate_config(&cfg).unwrap_err();
    assert!(matches!(err, ConfigError::InvalidValue { .. }));

    let mut cfg = one_rule_config(id);
    cfg.transport.max_request_bytes = 100;
    cfg.transport.warn_margin_bytes = 200;
    cfg.transport.max_response_bytes = 100;
    let err = validate_config(&cfg).unwrap_err();
    assert!(matches!(err, ConfigError::InvalidValue { .. }));
}

#[test]
fn config_transport_invalid_values_error() {
    check_transport_invalid_values("dv.dpi.import_prefix");
}

#[test]
fn tests_transport_invalid_values_error() {
    check_transport_invalid_values("dv_dpi_import_prefix");
}

fn check_duplicate_rule_ids(id: &str) {
    let cfg = config_with_rules(vec![raw_rule(id, "a.raw.py"), raw_rule(id, "b.raw.py")]);
    let err = validate_config(&cfg).unwrap_err();
    assert!(matches!(err, ConfigError::InvalidValue { .. }));
}

#[test]
fn config_duplicate_rule_ids_error() {
    check_duplicate_rule_ids("dv.dpi.import_prefix");
}

#[test]
fn tests_duplicate_rule_ids_error() {
    check_duplicate_rule_ids("dv_dpi_import_prefix");
}

fn keys(v: &[&str]) -> Vec<String> {
    v.iter().map(|s| s.to_string()).collect()
}

fn check_unknown_section_keys() {
    assert_eq!(classify_top_key("logging"), TopKey::Section);
    assert_eq!(classify_top_key("plugin"), TopKey::Section);
    assert_eq!(classify_top_key("transport"), TopKey::Section);
    assert_eq!(classify_top_key("rule"), TopKey::Rule);
    assert_eq!(classify_top_key("mystery"), TopKey::Unknown);
    let logging = keys(&[
        "stderr_snippet_bytes",
        "show_stage_events",
        "show_plugin_events",
        "show_parse_events",
        "level",
        "unknown_log",
    ]);
    assert_eq!(unknown_nested_keys("logging", &logging), vec!["unknown_log"]);
    assert_eq!(unknown_nested_keys("plugin", &keys(&["cmd", "extra_plugin"])), vec!["extra_plugin"]);
    assert_eq!(
        unknown_nested_keys(
            "transport",
            &keys(&["max_request_bytes", "max_response_bytes", "unknown_transport"])
        ),
        vec!["unknown_transport"]
    );
}

#[test]
fn config_warns_on_unknown_top_level_and_nested_keys() {
    check_unknown_section_keys();
}

#[test]
fn tests_warns_on_unknown_top_level_and_nested_keys() {
    check_unknown_section_keys();
}

fn check_unknown_rule_keys() {
    for k in ["id", "script", "stage", "enabled", "severity"] {
        assert!(is_known_rule_key(k));
    }
    assert!(!is_known_rule_key("unknown_field"));
    let cfg = one_rule_config("dv_dpi_import_prefix");
    assert_eq!(cfg.rule.len(), 1);
}

#[test]
fn config_warns_on_unknown_rule_keys() {
    check_unknown_rule_keys();
}

#[test]
fn tests_warns_on_unknown_rule_keys() {
    check_unknown_rule_keys();
}
