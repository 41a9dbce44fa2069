use sv_mint::config::normalize::{derive_script_from_id, plugin_dirs_to_check, script_probe_paths};
use sv_mint::config::types::{
    Config, Defaults, LoggingConfig, Plugin, RuleConfig, Stages, TransportConfig,
};
use sv_mint::engine::linemap::{LineMap, SpanBytes};
use sv_mint::plugin::scripts::{collect_script_specs, resolve_script_path};
use sv_mint::errors::ConfigError;
use sv_mint::sv::cst_ir::{classify_token, to_ascii_lower, CstBuilder};
use sv_mint::sv::model::SvParserCfg;
use sv_mint::textutil::{line_starts, linecol_at, normalize_lf};

fn empty_config() -> Config {
    Config {
        logging: LoggingConfig::default(),
        defaults: Defaults::default(),
        plugin: Plugin::default(),
        stages: Stages::default(),
        svparser: SvParserCfg::default(),
        rule: Vec::new(),
        transport: TransportConfig::default(),
    }
}

fn pairs(v: &[(&str, &str)]) -> Vec<(String, String)> {
    v.iter().map(|(a, b)| (a.to_string(), b.to_string())).collect()
}

#[test]
fn probe_paths_are_four_stages_per_root_in_order() {
    let roots = vec!["/r".to_string(), "/s".to_string()];
    let got = script_probe_paths(&roots, "x");
    assert_eq!(
        got,
        vec![
            "/r/x.raw.py", "/r/x.pp.py", "/r/x.cst.py", "/r/x.ast.py", "/s/x.raw.py", "/s/x.pp.py",
            "/s/x.cst.py", "/s/x.ast.py",
        ]
    );
    assert!(script_probe_paths(&[], "x").is_empty());
}

#[test]
fn derive_without_any_bundled_file_is_invalid() {
    let entry = RuleConfig {
        id: "no_such_rule".to_string(),
        script: String::new(),
        stage: None,
        enabled: true,
        severity: None,
    };
    let roots = vec!["/nonexistent-probe-root".to_string()];
    match derive_script_from_id(&entry, &roots) {
        Err(ConfigError::InvalidValue { detail }) => assert!(detail.contains("no_such_rule")),
        other => panic!("unexpected {:?}", other),
    }
    assert!(matches!(derive_script_from_id(&entry, &[]), Err(ConfigError::InvalidValue { .. })));
}

#[test]
fn plugin_dirs_listed_in_check_order() {
    let mut cfg = empty_config();
    cfg.plugin.normalized_root = Some("/r".to_string());
    cfg.plugin.normalized_search_paths = vec!["/s1".to_string(), "/s2".to_string()];
    assert_eq!(
        plugin_dirs_to_check(&cfg, "/fb", false, true),
        pairs(&[
            ("/r", "plugin.root"),
            ("/s1", "plugin.search_paths entry"),
            ("/s2", "plugin.search_paths entry"),
            ("/fb", "default plugin directory"),
        ])
    );
    assert_eq!(
        plugin_dirs_to_check(&cfg, "/fb", true, true),
        pairs(&[("/r", "plugin.root"), ("/s1", "plugin.search_paths entry"), ("/s2", "plugin.search_paths entry")])
    );
    let bare = empty_config();
    assert!(plugin_dirs_to_check(&bare, "/fb", false, false).is_empty());
    assert_eq!(plugin_dirs_to_check(&bare, "/fb", false, true), pairs(&[("/fb", "default plugin directory")]));
}

#[test]
fn token_class_ignores_trimming_and_case() {
    for text in ["  BEGIN ", "\tCaseX\n", " Data_Q1 ", " .* ", "  // Note", "`Define", "+", "   "] {
        let c = classify_token(text);
        assert_eq!(classify_token(text.trim()), c);
        assert_eq!(classify_token(&to_ascii_lower(text)), c);
    }
    assert_eq!(classify_token("  BEGIN "), "kw_begin");
    assert_eq!(classify_token("\tCaseX\n"), "kw_case");
    assert_eq!(classify_token(" Data_Q1 "), "ident");
}

#[test]
fn normalized_lines_are_the_pieces_between_breaks() {
    let s = "a\r\nb\rc\nd\r\r\n";
    let n = normalize_lf(s.to_string());
    let lines: Vec<&str> = n.split('\n').collect();
    assert_eq!(lines, vec!["a", "b", "c", "d", "", ""]);
    assert_eq!(normalize_lf("no breaks\nhere".to_string()), "no breaks\nhere");
}

#[test]
fn linecol_recovers_the_offset() {
    let text = "ab\ncd\n\nxyz";
    let starts = line_starts(text);
    for idx in 0..=text.len() {
        let (l, c) = linecol_at(&starts, idx);
        assert!(l >= 1 && c >= 1);
        assert_eq!(l as usize - 1, text.as_bytes()[..idx].iter().filter(|b| **b == b'\n').count());
        assert_eq!(starts[l as usize - 1] + c as usize - 1, idx);
    }
}

#[test]
fn to_lines_agrees_with_linecol() {
    let text = "ab\ncd\n\nxyz";
    let lm = LineMap::new(text);
    let starts = line_starts(text);
    for (s, e) in [(0usize, 0usize), (1, 4), (4, 7), (7, 100), (200, 300)] {
        let r = lm.to_lines(SpanBytes::new(s, e));
        let (l1, c1) = linecol_at(&starts, s.min(text.len()));
        let (l2, c2) = linecol_at(&starts, e.min(text.len()));
        assert_eq!((r.line, r.col, r.end_line, r.end_col), (l1, c1, l2, c2));
    }
}

#[test]
fn second_kind_id_changes_nothing() {
    let mut b = CstBuilder::new("f.sv", "0", &[0], "");
    assert_eq!(b.kind_id("Module"), 0);
    assert_eq!(b.kind_id("Port"), 1);
    let before = b.kind_table.clone();
    assert_eq!(b.kind_id("Module"), 0);
    assert_eq!(b.kind_id("Port"), 1);
    assert_eq!(b.kind_table, before);
    assert_eq!(b.kind_table, vec!["Module".to_string(), "Port".to_string()]);
}

#[test]
fn script_resolves_to_first_place_found() {
    let mut cfg = empty_config();
    // nothing exists under the configured places: the name stays as given
    cfg.plugin.normalized_search_paths = vec!["/nonexistent-a".to_string(), "/nonexistent-b".to_string()];
    assert_eq!(resolve_script_path(&cfg, "rule.py", None, None), "rule.py");
    // the first place where something exists wins
    cfg.plugin.normalized_search_paths = vec!["/nonexistent-a".to_string(), "/".to_string(), "/".to_string()];
    assert_eq!(resolve_script_path(&cfg, ".", None, None), "/.");
    // an absolute path that exists is used as it is
    assert_eq!(resolve_script_path(&cfg, "/", None, None), "/");
    // without configured places, the working directory is looked at
    let bare = empty_config();
    assert_eq!(resolve_script_path(&bare, ".", Some("/"), None), "/.");
    assert_eq!(resolve_script_path(&bare, "x.py", Some("/nonexistent-c"), None), "x.py");
}

#[test]
fn script_specs_group_rules_by_resolved_path() {
    let mut cfg = empty_config();
    cfg.rule = vec![
        RuleConfig { id: "a".to_string(), script: "s1.py".to_string(), stage: None, enabled: true, severity: None },
        RuleConfig { id: "b".to_string(), script: "s1.py".to_string(), stage: None, enabled: true, severity: None },
        RuleConfig { id: "c".to_string(), script: "s2.py".to_string(), stage: None, enabled: true, severity: None },
    ];
    let specs = collect_script_specs(&cfg, Some("/nonexistent-d"), None);
    let paths: Vec<&str> = specs.iter().map(|s| s.path.as_str()).collect();
    assert_eq!(paths, vec!["s1.py", "s2.py"]);
}
