use sv_mint::cli::{exit_code_for, gather_inputs};
use sv_mint::config::types::{
    Config, Defaults, LoggingConfig, Plugin, RuleConfig, Stages, TransportConfig, TransportOnExceed,
};
use sv_mint::default_scripts::lookup;
use sv_mint::diag::event::{Ev, Event};
use sv_mint::diag::logging::{default_level, log_event, sanitize, should_emit, Toggles};
use sv_mint::engine::pipeline::{
    build_stage_rule_map, is_required_stage, parse_failure_violation, ran_outcome, run_mode,
    size_policy_for_stage, stage_abort_message, FileRun, RunMode, RunSummary, StageDecision,
};
use sv_mint::engine::size_guard::{
    enforce_request_size, enforce_response_size, nearing_limit, synth_violation_stage_skipped_size,
    OnExceed, SizePolicy, StageStatus,
};
use sv_mint::errors::{ConfigError, PluginError};
use sv_mint::filelist::{split_plus_exec, split_whitespace, Begin, FilelistLoad, FilelistLoader, LineAction};
use sv_mint::plugin::client::{
    apply_overrides, build_rule_enabled, build_severity_override, format_plugin_command,
    interpret_init_response, interpret_stage_response, parse_severity, stderr_snippet_range,
    trim_line_end, HostResponse,
};
use sv_mint::plugin::once::{
    accept_chunk, check_plugin_response, check_raw_response, exit_outcome, stderr_preview,
    PluginResp,
};
use sv_mint::plugin::scripts::group_script_specs;
use sv_mint::sv::model::SvParserCfg;
use sv_mint::types::{Location, Severity, Stage, Violation};

fn base_config() -> Config {
    Config {
        logging: LoggingConfig::default(),
        defaults: Defaults::default(),
        plugin: Plugin::default(),
        stages: Stages::default(),
        svparser: SvParserCfg::default(),
        rule: Vec::new(),
        transport: TransportConfig::default(),
    }
}

fn rule(id: &str, script: &str, stage: Stage, enabled: bool, severity: Option<&str>) -> RuleConfig {
    RuleConfig {
        id: id.to_string(),
        script: script.to_string(),
        stage: Some(stage),
        enabled,
        severity: severity.map(|s| s.to_string()),
    }
}

fn viol(id: &str, sev: Severity) -> Violation {
    Violation {
        rule_id: id.to_string(),
        severity: sev,
        message: "m".to_string(),
        location: Location { line: 1, col: 1, end_line: 1, end_col: 1, file: None },
    }
}

fn policy(max: usize, on_exceed: OnExceed, required: bool, fail_ci_on_skip: bool) -> SizePolicy {
    SizePolicy {
        max_request_bytes: max,
        warn_request_bytes: max / 2,
        max_response_bytes: max,
        on_exceed,
        fail_ci_on_skip,
        is_required_stage: required,
    }
}

fn detail(e: ConfigError) -> String {
    match e {
        ConfigError::InvalidValue { detail } => detail,
        other => panic!("unexpected error {:?}", other),
    }
}

fn protocol(e: PluginError) -> String {
    match e {
        PluginError::ProtocolError { detail } => detail,
        other => panic!("unexpected error {:?}", other),
    }
}

#[test]
fn skipped_size_violation_text() {
    let v = synth_violation_stage_skipped_size("raw_text", Severity::Warning, 20, 10);
    assert_eq!(v.rule_id, "sys.stage.skipped.size");
    assert_eq!(v.severity, Severity::Warning);
    assert_eq!(
        v.message,
        "Stage 'raw_text' skipped: request payload 20 bytes exceeds limit 10 bytes."
    );
    assert_eq!((v.location.line, v.location.col), (1, 1));
}

#[test]
fn request_within_limit_passes_through() {
    let pol = policy(10, OnExceed::Skip, false, false);
    assert_eq!(enforce_request_size("cst", Some(vec![1, 2, 3]), &pol).unwrap(), vec![1, 2, 3]);
    assert!(nearing_limit(5, &pol));
    assert!(nearing_limit(10, &pol));
    assert!(!nearing_limit(4, &pol));
    assert!(!nearing_limit(11, &pol));
}

#[test]
fn oversize_request_skips_or_fails() {
    let skip = policy(2, OnExceed::Skip, false, false);
    let o = enforce_request_size("ast", Some(vec![0; 5]), &skip).unwrap_err();
    assert_eq!(o.status, StageStatus::Skipped);
    assert!(!o.fail_ci);
    assert_eq!(o.violations[0].severity, Severity::Warning);
    assert_eq!(o.stage, "ast");

    let skip_ci = policy(2, OnExceed::Skip, false, true);
    let o = enforce_request_size("ast", Some(vec![0; 5]), &skip_ci).unwrap_err();
    assert_eq!(o.status, StageStatus::Skipped);
    assert!(o.fail_ci);

    let required = policy(2, OnExceed::Skip, true, false);
    let o = enforce_request_size("raw_text", Some(vec![0; 5]), &required).unwrap_err();
    assert_eq!(o.status, StageStatus::Failed);
    assert!(o.fail_ci);
    assert_eq!(o.violations[0].severity, Severity::Error);
    assert_eq!(
        o.violations[0].message,
        "Stage 'raw_text' skipped: request payload 5 bytes exceeds limit 2 bytes."
    );

    let o = enforce_request_size("cst", None, &skip).unwrap_err();
    assert_eq!(o.status, StageStatus::Failed);
    assert_eq!(o.violations[0].rule_id, "sys.stage.serialize.error");
    assert_eq!(o.violations[0].message, "Failed to serialize JSON request for stage 'cst'");
}

#[test]
fn oversize_response_fails() {
    let pol = policy(10, OnExceed::Skip, false, false);
    assert!(enforce_response_size("cst", 10, &pol).is_ok());
    let o = enforce_response_size("cst", 11, &pol).unwrap_err();
    assert_eq!(o.status, StageStatus::Failed);
    assert_eq!(o.violations[0].rule_id, "sys.stage.output.too_large");
    assert_eq!(o.violations[0].message, "Stage 'cst' output 11 bytes exceeds limit 10 bytes.");
}

#[test]
fn stage_policies_from_config() {
    let mut cfg = base_config();
    cfg.transport = TransportConfig {
        max_request_bytes: 100,
        warn_margin_bytes: 30,
        max_response_bytes: 50,
        on_exceed: TransportOnExceed::Skip,
        fail_ci_on_skip: false,
    };
    assert!(is_required_stage(&cfg, &Stage::RawText));
    assert!(is_required_stage(&cfg, &Stage::PpText));
    assert!(!is_required_stage(&cfg, &Stage::Ast));
    let p = size_policy_for_stage(&cfg, &Stage::Ast);
    assert_eq!(p.warn_request_bytes, 70);
    assert_eq!(p.on_exceed, OnExceed::Skip);
    let r = size_policy_for_stage(&cfg, &Stage::RawText);
    assert_eq!(r.on_exceed, OnExceed::Error);
    assert!(r.is_required_stage);
    cfg.stages.required = vec![Stage::Cst];
    assert!(!is_required_stage(&cfg, &Stage::RawText));
    assert!(is_required_stage(&cfg, &Stage::Cst));
    cfg.transport.warn_margin_bytes = 500;
    assert_eq!(size_policy_for_stage(&cfg, &Stage::Ast).warn_request_bytes, 0);
}

#[test]
fn rules_grouped_by_stage() {
    let mut cfg = base_config();
    cfg.rule = vec![
        rule("a", "a.raw.py", Stage::RawText, true, None),
        rule("b", "b.ast.py", Stage::Ast, false, None),
        rule("c", "c.ast.py", Stage::Ast, true, None),
    ];
    let m = build_stage_rule_map(&cfg);
    assert_eq!(m.get(Stage::RawText).enabled, vec!["a"]);
    assert_eq!(m.get(Stage::Ast).enabled, vec!["c"]);
    assert_eq!(m.get(Stage::Ast).disabled, vec!["b"]);
    assert!(m.get(Stage::Cst).enabled.is_empty());
}

#[test]
fn file_run_gathers_and_stops_on_failure() {
    let mut run = FileRun::new();
    let ok = ran_outcome(&Stage::RawText, vec![viol("x", Severity::Info)], 5);
    assert_eq!(ok.stage, "raw_text");
    assert_eq!(run.absorb(ok), StageDecision::Continue);
    let pol = policy(1, OnExceed::Error, false, false);
    let failed = enforce_request_size("cst", Some(vec![0; 3]), &pol).unwrap_err();
    assert_eq!(run.absorb(failed), StageDecision::Abort);
    assert_eq!(run.all.len(), 2);
    assert_eq!(stage_abort_message(&Stage::Cst), "stage cst aborted");
    let p = parse_failure_violation("boom".to_string(), "f.sv".to_string());
    assert_eq!(p.rule_id, "sys.parse.failed");
    assert_eq!(p.location.file.as_deref(), Some("f.sv"));
}

#[test]
fn run_summary_and_exit_codes() {
    let mut s = RunSummary::empty();
    assert_eq!(exit_code_for(&s), 0);
    s.record_file(Some(0));
    assert_eq!(exit_code_for(&s), 0);
    s.record_file(Some(3));
    assert_eq!(exit_code_for(&s), 2);
    let mut t = RunSummary::empty();
    t.record_file(None);
    s.merge(&t);
    assert_eq!(s.violations, 3);
    assert_eq!(exit_code_for(&s), 3);
}

#[test]
fn run_modes() {
    assert_eq!(run_mode(0, Some(8)), RunMode::Empty);
    assert_eq!(run_mode(1, Some(8)), RunMode::Batch);
    assert_eq!(run_mode(5, Some(8)), RunMode::Parallel { workers: 5 });
    assert_eq!(run_mode(20, Some(8)), RunMode::Parallel { workers: 8 });
    assert_eq!(run_mode(3, None), RunMode::Parallel { workers: 1 });
}

#[test]
fn host_responses() {
    assert!(interpret_init_response(HostResponse::Ready).is_ok());
    let e = interpret_init_response(HostResponse::Error { detail: None, script: None }).unwrap_err();
    assert_eq!(protocol(e), "init failed");
    let e = interpret_init_response(HostResponse::Violations { violations: vec![] }).unwrap_err();
    assert_eq!(protocol(e), "unexpected violations response during init");
    let vs = interpret_stage_response(HostResponse::Violations { violations: vec![viol("r", Severity::Error)] })
        .unwrap();
    assert_eq!(vs.len(), 1);
    let e = interpret_stage_response(HostResponse::Error {
        detail: Some("boom".into()),
        script: Some("s.py".into()),
    })
    .unwrap_err();
    assert_eq!(protocol(e), "boom (script s.py)");
    let e = interpret_stage_response(HostResponse::Error { detail: None, script: None }).unwrap_err();
    assert_eq!(protocol(e), "plugin error");
    let e = interpret_stage_response(HostResponse::Ready).unwrap_err();
    assert_eq!(protocol(e), "unexpected ready response");
}

#[test]
fn overrides_drop_disabled_and_rewrite_severity() {
    let rules = vec![
        rule("keep", "k.py", Stage::Ast, true, Some("info")),
        rule("off", "o.py", Stage::Ast, false, None),
        rule("bad", "b.py", Stage::Ast, true, Some("loud")),
        rule("keep", "k.py", Stage::Ast, true, Some("warning")),
    ];
    let en = build_rule_enabled(&rules);
    let sev = build_severity_override(&rules);
    assert_eq!(sev.entries.len(), 2);
    let out = apply_overrides(
        &en,
        &sev,
        vec![
            viol("keep", Severity::Error),
            viol("off", Severity::Error),
            viol("bad", Severity::Error),
            viol("unknown", Severity::Info),
        ],
    );
    assert_eq!(out.len(), 3);
    assert_eq!(out[0].rule_id, "keep");
    assert_eq!(out[0].severity, Severity::Warning);
    assert_eq!(out[1].rule_id, "bad");
    assert_eq!(out[1].severity, Severity::Error);
    assert_eq!(out[2].rule_id, "unknown");
    assert_eq!(parse_severity("warning"), Some(Severity::Warning));
    assert_eq!(parse_severity("Warning"), None);
}

#[test]
fn plugin_command_and_stderr() {
    assert_eq!(
        format_plugin_command("python3", &["-u".to_string(), "a b".to_string()], "/x/host.py"),
        "python3 -u \"a b\" /x/host.py"
    );
    assert_eq!(stderr_snippet_range(100, 10, 0), None);
    assert_eq!(stderr_snippet_range(100, 100, 10), None);
    assert_eq!(stderr_snippet_range(100, 10, 30), Some((70, 100)));
    assert_eq!(stderr_snippet_range(20, 10, 30), Some((0, 20)));
    assert_eq!(trim_line_end("line\r\n\n"), "line");
}

#[test]
fn one_shot_checks() {
    assert_eq!(accept_chunk(10, 5, 15), Some(15));
    assert_eq!(accept_chunk(10, 6, 15), None);
    assert!(exit_outcome(Some(true), Some(0)).is_ok());
    assert!(exit_outcome(None, None).is_ok());
    assert!(matches!(exit_outcome(Some(false), Some(4)), Err(PluginError::ExitCode { code: 4 })));
    assert!(matches!(exit_outcome(Some(false), None), Err(PluginError::ExitCode { code: -1 })));
    assert_eq!(stderr_preview(true, "  ", 10), None);
    assert_eq!(stderr_preview(false, "oops", 10), None);
    assert_eq!(stderr_preview(true, "oops", 10), Some("oops".to_string()));
    assert!(matches!(check_raw_response(" \n"), Err(PluginError::BadJson { .. })));
    assert!(check_raw_response("{}").is_ok());
    let resp = |ty: &str, st: &str| PluginResp { ty: ty.into(), stage: st.into(), violations: vec![] };
    assert_eq!(
        protocol(check_plugin_response(resp("Other", "ast"), "ast").unwrap_err()),
        "type=Other expected=ViolationsStage"
    );
    assert_eq!(
        protocol(check_plugin_response(resp("ViolationsStage", "cst"), "ast").unwrap_err()),
        "stage=cst expected=ast"
    );
    assert!(check_plugin_response(resp("ViolationsStage", "ast"), "ast").is_ok());
}

#[test]
fn scripts_grouped_by_path() {
    let rules = vec![
        rule("z.rule", "s1.py", Stage::Ast, true, None),
        rule("a.rule", "s1.py", Stage::Ast, true, None),
        rule("m.rule", "s1.py", Stage::RawText, true, None),
        rule("q.rule", "s2.py", Stage::Cst, true, None),
    ];
    let paths = vec!["/p/s1.py".to_string(), "/p/s1.py".to_string(), "/p/s1.py".to_string(), "/p/s2.py".to_string()];
    let specs = group_script_specs(&rules, &paths);
    assert_eq!(specs.len(), 2);
    assert_eq!(specs[0].path, "/p/s1.py");
    assert_eq!(specs[0].stages, vec!["ast", "raw_text"]);
    assert_eq!(specs[0].stage_rules[0].0, "ast");
    assert_eq!(specs[0].stage_rules[0].1, vec!["a.rule", "z.rule"]);
    assert_eq!(specs[0].stage_rules[1].1, vec!["m.rule"]);
    assert_eq!(specs[1].stages, vec!["cst"]);
}

#[test]
fn filelist_lines() {
    let mut l = FilelistLoader::new();
    assert!(matches!(l.handle_line("f.f", "/w", "  // note", 1), Ok(LineAction::Done)));
    assert!(matches!(l.handle_line("f.f", "/w", "# note", 2), Ok(LineAction::Done)));
    assert!(matches!(l.handle_line("f.f", "/w", "+incdir+inc+/abs/inc", 3), Ok(LineAction::Done)));
    assert!(matches!(l.handle_line("f.f", "/w", "+define+A=1++B", 4), Ok(LineAction::Done)));
    assert!(matches!(l.handle_line("f.f", "/w", "rtl/top.sv", 5), Ok(LineAction::Done)));
    match l.handle_line("f.f", "/w", "-f sub.f", 6) {
        Ok(LineAction::Include(p)) => assert_eq!(p, "/w/sub.f"),
        other => panic!("unexpected {:?}", other),
    }
    match l.handle_line("f.f", "/w", "-fother.f", 7) {
        Ok(LineAction::Include(p)) => assert_eq!(p, "/w/other.f"),
        other => panic!("unexpected {:?}", other),
    }
    assert_eq!(detail(l.handle_line("f.f", "/w", "-f", 8).unwrap_err()), "filelist f.f:8: -f missing path");
    assert_eq!(
        detail(l.handle_line("f.f", "/w", "-f a b", 9).unwrap_err()),
        "filelist f.f:9: extra tokens after -f"
    );
    assert!(matches!(l.handle_line("f.f", "/w", "-x", 10), Ok(LineAction::Done)));
    assert_eq!(
        detail(l.handle_line("f.f", "/w", "+libext+.v", 11).unwrap_err()),
        "filelist f.f:11: unsupported directive +libext+.v"
    );
    let load = l.finish();
    assert_eq!(load.files, vec!["/w/rtl/top.sv", "/w/-x"]);
    assert_eq!(load.incdirs, vec!["/w/inc", "/abs/inc"]);
    assert_eq!(load.defines, vec!["A=1", "B"]);
}

#[test]
fn filelist_cycles_and_repeats() {
    let mut l = FilelistLoader::new();
    assert!(matches!(l.begin("/w/a.f"), Begin::Start));
    assert!(matches!(l.begin("/w/b.f"), Begin::Start));
    match l.begin("/w/a.f") {
        Begin::Cycle(e) => assert_eq!(detail(e), "filelist cycle detected at /w/a.f"),
        other => panic!("unexpected {:?}", other),
    }
    l.end("/w/b.f");
    assert!(matches!(l.begin("/w/b.f"), Begin::AlreadyDone));
    l.end("/w/a.f");
    assert!(l.processing.is_empty());
    assert_eq!(l.processed, vec!["/w/b.f", "/w/a.f"]);
}

#[test]
fn token_splitting() {
    assert_eq!(split_plus_exec("a++b+"), vec!["a", "", "b", ""]);
    assert_eq!(split_plus_exec(""), vec![""]);
    assert_eq!(split_whitespace("  -f \t x.f  "), vec!["-f", "x.f"]);
}

#[test]
fn gather_inputs_orders_direct_then_listed() {
    let mut cfg = base_config();
    let load = FilelistLoad {
        files: vec!["b.sv".into()],
        incdirs: vec!["/inc".into()],
        defines: vec!["X".into()],
    };
    let r = gather_inputs(&mut cfg, vec!["a.sv".into()], Some(load)).unwrap();
    assert_eq!(r, vec!["a.sv", "b.sv"]);
    assert_eq!(cfg.svparser.include_paths, vec!["/inc"]);
    assert_eq!(cfg.svparser.defines, vec!["X"]);
    let mut cfg2 = base_config();
    let e = gather_inputs(&mut cfg2, vec![], None).unwrap_err();
    assert_eq!(detail(e), "no input files provided");
}

#[test]
fn event_logging() {
    let t = Toggles { stage: true, plugin: false, parse: false };
    assert!(should_emit(None, Event::PluginDone));
    assert!(should_emit(Some(t), Event::StageStart));
    assert!(!should_emit(Some(t), Event::PluginInvoke));
    assert!(!should_emit(Some(t), Event::ParseParseDone));
    let ev = Ev::new(Event::StageDone, "a.sv").with_stage("cst").with_duration_ms(12).with_message("x\ny");
    let f = log_event(Some(t), ev).unwrap();
    assert_eq!(f.event, "stage_done");
    assert_eq!(f.path, "a.sv");
    assert_eq!(f.stage, "cst");
    assert_eq!(f.duration_ms, Some(12));
    assert_eq!(f.message, "x y");
    assert_eq!(f.stderr, "");
    assert!(log_event(Some(t), Ev::new(Event::PluginError, "a.sv")).is_none());
    assert_eq!(sanitize("a\r\nb"), "a  b");
    assert_eq!(default_level("debug"), "debug");
    assert_eq!(default_level("loud"), "info");
}

#[test]
fn bundled_script_lookup() {
    let table = [("r.a", "print(1)"), ("r.b", "print(2)"), ("r.a", "print(3)")];
    assert_eq!(lookup(&table, "r.a"), Some("print(1)"));
    assert_eq!(lookup(&table, "r.b"), Some("print(2)"));
    assert_eq!(lookup(&table, "r.c"), None);
}
