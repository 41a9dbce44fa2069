use sv_mint::config::normalize::{
    derive_script_from_id, infer_stage_from_script, normalize_rule_scripts, pick_derived_script,
    stage_from_script_parts, validate_rule_script_paths,
};
use sv_mint::config::paths::{check_config_path, config_candidate_of, plugin_search_paths, push_unique, resolve_path, to_abs};
use sv_mint::config::keys::{classify_top_key, is_known_key, is_known_rule_key, unknown_nested_keys, TopKey};
use sv_mint::config::types::{
    Config, Defaults, LoggingConfig, Plugin, RuleConfig, Stages, TransportConfig, TransportOnExceed,
};
use sv_mint::config::validate::{severity_from_str, validate_config};
use sv_mint::errors::ConfigError;
use sv_mint::sv::model::SvParserCfg;
use sv_mint::types::{Severity, Stage};

fn base_config() -> Config {
    Config {
        logging: LoggingConfig::default(),
        defaults: Defaults::default(),
        plugin: Plugin::default(),
        stages: Stages::default(),
        svparser: SvParserCfg::default(),
        rule: Vec::new(),
        transport: TransportConfig::default(),
    }
}

fn rule(id: &str, script: &str, stage: Option<Stage>) -> RuleConfig {
    RuleConfig { id: id.to_string(), script: script.to_string(), stage, enabled: true, severity: None }
}

fn detail(e: ConfigError) -> String {
    match e {
        ConfigError::InvalidValue { detail } => detail,
        other => panic!("unexpected error {:?}", other),
    }
}

#[test]
fn defaults_match_documented_values() {
    let cfg = base_config();
    assert_eq!(cfg.defaults.timeout_ms_per_file, 6000);
    assert_eq!(cfg.plugin.cmd, "python3");
    assert_eq!(cfg.transport.max_request_bytes, 16_777_216);
    assert_eq!(cfg.transport.warn_margin_bytes, 1_048_576);
    assert_eq!(cfg.logging.level, "info");
    assert_eq!(cfg.logging.stderr_snippet_bytes, 2048);
    assert!(matches!(cfg.transport.on_exceed, TransportOnExceed::Skip));
    assert_eq!(cfg.stages.enabled, vec![Stage::RawText, Stage::PpText, Stage::Cst, Stage::Ast]);
    assert_eq!(cfg.stages.required, vec![Stage::RawText, Stage::PpText]);
}

#[test]
fn validate_accepts_defaults_with_rules() {
    let mut cfg = base_config();
    cfg.rule.push(rule("a", "a.raw.py", Some(Stage::RawText)));
    cfg.rule.push(rule("b", "b.ast.py", Some(Stage::Ast)));
    assert!(validate_config(&cfg).is_ok());
}

#[test]
fn validate_reports_each_problem() {
    let mut cfg = base_config();
    cfg.defaults.timeout_ms_per_file = 99;
    assert_eq!(detail(validate_config(&cfg).unwrap_err()), "timeout out of range");
    cfg.defaults.timeout_ms_per_file = 60_001;
    assert_eq!(detail(validate_config(&cfg).unwrap_err()), "timeout out of range");
    cfg.defaults.timeout_ms_per_file = 60_000;
    cfg.plugin.cmd = "  ".to_string();
    assert_eq!(detail(validate_config(&cfg).unwrap_err()), "plugin cmd empty");
    cfg.plugin.cmd = "python3".to_string();
    cfg.stages.enabled.clear();
    assert_eq!(detail(validate_config(&cfg).unwrap_err()), "stages.enabled empty");
    cfg.stages.enabled = vec![Stage::RawText, Stage::Cst];
    cfg.rule = vec![rule(" ", "x.raw.py", Some(Stage::RawText))];
    assert_eq!(detail(validate_config(&cfg).unwrap_err()), "rule id cannot be empty");
    cfg.rule = vec![rule("a", "a.raw.py", Some(Stage::RawText)), rule("a", "b.raw.py", Some(Stage::RawText))];
    assert_eq!(detail(validate_config(&cfg).unwrap_err()), "duplicate rule id a");
    cfg.rule = vec![rule("a", "a.ast.py", Some(Stage::Ast))];
    assert_eq!(detail(validate_config(&cfg).unwrap_err()), "rule a references disabled stage Ast");
    cfg.rule = vec![];
    assert_eq!(detail(validate_config(&cfg).unwrap_err()), "required stage PpText must also be enabled");
    cfg.stages.required = vec![];
    cfg.transport.max_response_bytes = 0;
    assert_eq!(detail(validate_config(&cfg).unwrap_err()), "transport byte limits must be greater than zero");
    cfg.transport.max_response_bytes = 10;
    cfg.transport.max_request_bytes = 10;
    cfg.transport.warn_margin_bytes = 11;
    assert_eq!(detail(validate_config(&cfg).unwrap_err()), "transport warn_margin_bytes exceeds max_request_bytes");
    cfg.transport.warn_margin_bytes = 10;
    assert!(validate_config(&cfg).is_ok());
}

#[test]
fn severity_names() {
    assert_eq!(severity_from_str("error"), Some(Severity::Error));
    assert_eq!(severity_from_str("warning"), Some(Severity::Warning));
    assert_eq!(severity_from_str("info"), Some(Severity::Info));
    assert_eq!(severity_from_str("Error"), None);
}

#[test]
fn stage_from_parts_messages() {
    let r = stage_from_script_parts("r", "x/r.cst.py", Some("r.cst.py".into()), Some("py".into()), Some("r.cst".into()));
    assert!(matches!(r, Ok(Stage::Cst)));
    let e = stage_from_script_parts("r", "x/r.sv", Some("r.sv".into()), Some("sv".into()), Some("r".into()));
    assert_eq!(detail(e.unwrap_err()), "rule r missing stage and script r.sv must end with .py");
    let e = stage_from_script_parts("r", "x/r.py", Some("r.py".into()), Some("py".into()), Some("r".into()));
    assert_eq!(detail(e.unwrap_err()), "rule r missing stage and script r.py lacks .<stage> suffix");
    let e = stage_from_script_parts("r", "x/r.foo.py", Some("r.foo.py".into()), Some("py".into()), Some("r.foo".into()));
    assert_eq!(detail(e.unwrap_err()), "rule r missing stage and script r.foo.py has unsupported stage suffix foo");
    let e = stage_from_script_parts("r", "..", None, None, None);
    assert_eq!(detail(e.unwrap_err()), "rule r missing stage and script .. is invalid");
}

#[test]
fn infer_stage_through_path_parts() {
    assert!(matches!(infer_stage_from_script(&rule("a", "dir/a.b.pp.py", None)), Ok(Stage::PpText)));
    assert!(matches!(infer_stage_from_script(&rule("a", "a.ast.py", None)), Ok(Stage::Ast)));
    let e = infer_stage_from_script(&rule("a", "dir/a.raw.txt", None)).unwrap_err();
    assert_eq!(detail(e), "rule a missing stage and script a.raw.txt must end with .py");
}

#[test]
fn derived_script_choices() {
    assert_eq!(pick_derived_script("x", false, false, false, true).unwrap(), "x.raw.py");
    let e = pick_derived_script("x", false, false, false, false).unwrap_err();
    assert_eq!(
        detail(e),
        "rule x missing script and no bundled file named x.{raw,pp,cst,ast}.py exists under plugin roots"
    );
    let e = pick_derived_script("x", true, false, false, true).unwrap_err();
    assert_eq!(detail(e), "rule x matches multiple scripts [\"x.ast.py\", \"x.raw.py\"]; specify script explicitly");
    let e = derive_script_from_id(&rule("x", "", None), &[]).unwrap_err();
    assert_eq!(detail(e), "rule x missing script; set plugin.root/search_paths or specify script explicitly");
    let roots = vec!["/nonexistent-sv-mint-root".to_string()];
    let e = derive_script_from_id(&rule("x", "", None), &roots).unwrap_err();
    assert!(detail(e).contains("no bundled file"));
}

#[test]
fn relative_paths_are_joined() {
    assert_eq!(to_abs("/base", "a/b.py"), "/base/a/b.py");
    assert_eq!(to_abs("/base", "/abs/b.py"), "/abs/b.py");
    let mut v = vec!["/a/x".to_string()];
    push_unique(&mut v, "/a//x".to_string());
    push_unique(&mut v, "/a/y".to_string());
    assert_eq!(v, vec!["/a/x".to_string(), "/a/y".to_string()]);
}

#[test]
fn search_paths_order_and_fallbacks() {
    let mut cfg = base_config();
    cfg.plugin.normalized_root = Some("/r".to_string());
    cfg.plugin.normalized_search_paths = vec!["/s1".to_string(), "/r".to_string()];
    let p = plugin_search_paths(&cfg, "x.py", Some("/cwd"), Some("/exe"));
    assert_eq!(p, vec!["/r/x.py".to_string(), "/s1/x.py".to_string()]);
    let mut cfg2 = base_config();
    cfg2.plugin.config_dir = Some("/cfg".to_string());
    assert_eq!(plugin_search_paths(&cfg2, "x.py", None, None), vec!["/cfg/plugins/x.py".to_string()]);
    let cfg3 = base_config();
    assert_eq!(
        plugin_search_paths(&cfg3, "x.py", Some("/cwd"), Some("/exe")),
        vec!["/cwd/x.py".to_string(), "/exe/x.py".to_string()]
    );
}

#[test]
fn missing_config_file_is_not_found() {
    let e = resolve_path(Some("/nonexistent-sv-mint/sv-mint.toml".to_string())).unwrap_err();
    assert_eq!(e, ConfigError::GivenNotFound { path: "/nonexistent-sv-mint/sv-mint.toml".to_string() });
    assert!(e.message().contains("config not found (from --config)"));
    let e = resolve_path(Some("/".to_string()));
    assert_eq!(e, Ok("/".to_string()));
}

fn check_search_path_missing(id: &str) {
    let mut cfg = base_config();
    cfg.plugin.search_paths = vec!["./plugins-extra".to_string()];
    cfg.rule.push(rule(id, &format!("{id}.raw.py"), Some(Stage::RawText)));
    let err = normalize_rule_scripts(&mut cfg, "/nonexistent-sv-mint-base").unwrap_err();
    let d = detail(err);
    assert!(d.contains("plugin.search_paths"));
    assert!(d.contains("plugins-extra"));
}

#[test]
fn config_errors_when_search_path_missing() {
    check_search_path_missing("dv.dpi.import_prefix");
}

#[test]
fn tests_errors_when_search_path_missing() {
    check_search_path_missing("dv_dpi_import_prefix");
}

fn check_default_plugins_dir_missing(id: &str) {
    let mut cfg = base_config();
    cfg.rule.push(rule(id, "", None));
    let err = normalize_rule_scripts(&mut cfg, "/nonexistent-sv-mint-base").unwrap_err();
    let d = detail(err);
    assert!(d.contains("default plugin directory"));
    assert!(d.contains("/nonexistent-sv-mint-base/plugins"));
    assert_eq!(cfg.plugin.config_dir, Some("/nonexistent-sv-mint-base".to_string()));
}

#[test]
fn config_errors_when_default_plugins_dir_missing() {
    check_default_plugins_dir_missing("dv.dpi.import_prefix");
}

#[test]
fn tests_errors_when_default_plugins_dir_missing() {
    check_default_plugins_dir_missing("dv_dpi_import_prefix");
}

#[test]
fn relative_scripts_resolve_against_base_without_roots() {
    let mut cfg = base_config();
    cfg.rule.push(rule("a", "a.raw.py", Some(Stage::RawText)));
    cfg.rule.push(rule("b", "/abs/b.raw.py", Some(Stage::RawText)));
    normalize_rule_scripts(&mut cfg, "/base").unwrap();
    assert_eq!(cfg.rule[0].script, "/base/a.raw.py");
    assert_eq!(cfg.rule[1].script, "/abs/b.raw.py");
}

#[test]
fn script_checks_report_severity_and_missing_scripts() {
    let mut cfg = base_config();
    let mut r = rule("a", "/nonexistent-sv-mint/a.raw.py", Some(Stage::RawText));
    r.severity = Some("fatal".to_string());
    cfg.rule.push(r);
    let e = validate_rule_script_paths(&cfg, None, None).unwrap_err();
    assert_eq!(detail(e), "rule a severity must be error|warning|info");
    cfg.rule[0].severity = Some("info".to_string());
    let e = validate_rule_script_paths(&cfg, None, None).unwrap_err();
    assert_eq!(detail(e), "rule a script not found; searched /nonexistent-sv-mint/a.raw.py");
    let mut cfg2 = base_config();
    cfg2.plugin.normalized_root = Some("/nx2".to_string());
    cfg2.plugin.normalized_search_paths = vec!["/nx1".to_string(), "/nx2".to_string()];
    cfg2.rule.push(rule("b", "b.raw.py", Some(Stage::RawText)));
    let e = validate_rule_script_paths(&cfg2, None, None).unwrap_err();
    assert_eq!(detail(e), "rule b script not found; searched /nx1/b.raw.py, /nx2/b.raw.py");
}

#[test]
fn known_configuration_keys() {
    assert_eq!(classify_top_key("logging"), TopKey::Section);
    assert_eq!(classify_top_key("rule"), TopKey::Rule);
    assert_eq!(classify_top_key("extra"), TopKey::Unknown);
    assert!(is_known_key("transport", "on_exceed"));
    assert!(!is_known_key("transport", "level"));
    assert!(is_known_rule_key("severity"));
    assert!(!is_known_rule_key("sev"));
    let keys = vec!["level".to_string(), "colour".to_string(), "format".to_string()];
    assert_eq!(unknown_nested_keys("logging", &keys), vec!["colour".to_string()]);
}

#[test]
fn config_candidate_and_missing_messages() {
    assert_eq!(config_candidate_of(None), "sv-mint.toml");
    assert_eq!(config_candidate_of(Some("a/b.toml".to_string())), "a/b.toml");
    assert_eq!(check_config_path("x.toml".to_string(), true, true), Ok("x.toml".to_string()));
    let plain = check_config_path("sv-mint.toml".to_string(), false, false).unwrap_err();
    assert_eq!(plain.message(), "config not found: sv-mint.toml");
    let given = check_config_path("/t/missing.toml".to_string(), false, true).unwrap_err();
    assert_eq!(given.message(), "config not found (from --config): /t/missing.toml");
}
