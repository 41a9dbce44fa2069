use sv_mint::config::paths::dir_state_of;
use sv_mint::config::paths::DirState;
use sv_mint::config::types::Plugin;
use sv_mint::errors::ConfigError;
use sv_mint::filelist::{Begin, FilelistLoader};
use sv_mint::plugin::once::resolve_plugin_cmd_and_args;
use sv_mint::svparser::{
    build_symbol_table_and_rw_class, collect_declarations_and_references, DeclType, Ident, RefKind, SvEvent,
    SvNode,
};

fn enter(node: SvNode, ident: Option<(&str, usize)>) -> SvEvent {
    SvEvent { enter: true, node, ident: ident.map(|(t, o)| Ident { text: t.to_string(), offset: o }) }
}

fn leave(node: SvNode) -> SvEvent {
    SvEvent { enter: false, node, ident: None }
}

// module m(input a); logic b; assign b = a; endmodule
fn small_module_events() -> Vec<SvEvent> {
    vec![
        enter(SvNode::PortDeclaration, None),
        enter(SvNode::InputDeclaration, None),
        enter(SvNode::PortIdentifier, Some(("a", 15))),
        leave(SvNode::PortIdentifier),
        leave(SvNode::InputDeclaration),
        leave(SvNode::PortDeclaration),
        enter(SvNode::DataDeclaration, None),
        enter(SvNode::VarOrNetIdentifier, Some(("b", 25))),
        leave(SvNode::VarOrNetIdentifier),
        leave(SvNode::DataDeclaration),
        enter(SvNode::Lvalue, None),
        enter(SvNode::Identifier, Some(("b", 35))),
        leave(SvNode::Identifier),
        leave(SvNode::Lvalue),
        enter(SvNode::Identifier, Some(("a", 39))),
        leave(SvNode::Identifier),
        // a second declaration of `b` is not recorded again
        enter(SvNode::DataDeclaration, None),
        enter(SvNode::VarOrNetIdentifier, Some(("b", 50))),
        leave(SvNode::VarOrNetIdentifier),
        leave(SvNode::DataDeclaration),
    ]
}

#[test]
fn walk_records_declarations_and_references() {
    let (decls, refs) = collect_declarations_and_references(small_module_events(), "m.sv");
    let d: Vec<(&str, &str, usize)> = decls.iter().map(|d| (d.name.as_str(), d.kind.as_str(), d.byte_begin)).collect();
    assert_eq!(d, vec![("a", "input", 15), ("b", "var", 25)]);
    assert!(decls.iter().all(|d| matches!(d.decl_type, DeclType::Var) && d.file == "m.sv" && d.line == 1));
    let r: Vec<(&str, RefKind, usize)> = refs.iter().map(|x| (x.name.as_str(), x.kind, x.byte_begin)).collect();
    assert_eq!(r, vec![("b", RefKind::Lhs, 35), ("a", RefKind::Rhs, 39)]);
}

#[test]
fn symbol_table_classifies_reads_and_writes() {
    let (decls, refs) = collect_declarations_and_references(small_module_events(), "m.sv");
    let table = build_symbol_table_and_rw_class(&decls, &refs);
    let e: Vec<(&str, Vec<usize>, &str)> = table
        .entries
        .iter()
        .map(|e| (e.name.as_str(), e.info.refs.clone(), e.info.rw_class.as_str()))
        .collect();
    assert_eq!(e, vec![("a", vec![1], "read_only"), ("b", vec![0], "write_only")]);
    let empty = build_symbol_table_and_rw_class(&decls, &[]);
    assert!(empty.entries.iter().all(|e| e.info.rw_class == "unused" && e.info.refs.is_empty()));
}

#[test]
fn plugin_file_arguments_are_relative_to_config_dir() {
    let plugin = Plugin {
        cmd: "python3".to_string(),
        args: vec!["-u".to_string(), "rules/host.py".to_string(), "lib/x".to_string(), "plain".to_string()],
        ..Plugin::default()
    };
    let (cmd, args) = resolve_plugin_cmd_and_args("/cfg", &plugin);
    assert_eq!(cmd, "python3");
    assert_eq!(args, vec!["-u", "/cfg/rules/host.py", "/cfg/lib/x", "plain"]);
}

#[test]
fn filelist_including_itself_is_a_cycle() {
    let mut l = FilelistLoader::new();
    assert!(matches!(l.begin("/x/a.f"), Begin::Start));
    match l.begin("/x/a.f") {
        Begin::Cycle(ConfigError::InvalidValue { detail }) => assert_eq!(detail, "filelist cycle detected at /x/a.f"),
        other => panic!("unexpected {:?}", other),
    }
    l.end("/x/a.f");
    assert!(matches!(l.begin("/x/a.f"), Begin::AlreadyDone));
}

#[test]
fn include_directive_forms() {
    let l = FilelistLoader::new();
    assert_eq!(l.parse_filelist_include("top.f", 3, "-f sub.f").unwrap(), "sub.f");
    assert_eq!(l.parse_filelist_include("top.f", 3, "-fsub.f").unwrap(), "sub.f");
    let msg = |r: Result<String, ConfigError>| match r {
        Err(ConfigError::InvalidValue { detail }) => detail,
        other => panic!("unexpected {:?}", other),
    };
    assert_eq!(msg(l.parse_filelist_include("top.f", 3, "-f")), "filelist top.f:3: -f missing path");
    assert_eq!(msg(l.parse_filelist_include("top.f", 3, "-f a b")), "filelist top.f:3: extra tokens after -f");
    assert_eq!(msg(l.parse_filelist_include("top.f", 3, "-fa b")), "filelist top.f:3: extra tokens after -fa");
    assert_eq!(msg(l.parse_filelist_include("top.f", 4, "xyz")), "filelist top.f:4: malformed -f directive xyz");
}

#[test]
fn dir_state_from_probe_results() {
    assert_eq!(dir_state_of(false, false), DirState::Missing);
    assert_eq!(dir_state_of(false, true), DirState::Missing);
    assert_eq!(dir_state_of(true, true), DirState::Dir);
    assert_eq!(dir_state_of(true, false), DirState::NotDir);
}
