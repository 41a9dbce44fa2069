use sv_mint::sv::collect::{
    analyze_symbols, collect_all, find_rhs_range, net_header_direction, port_direction_to_str,
    scan_assignment_at, variable_header_direction, AnsiHeader, AstEvent, IdentAt, NetPortHeader,
    PortDir,
};
use sv_mint::sv::cst_ir::{build_cst_ir, classify_token, to_ascii_lower, CstEvent};
use sv_mint::sv::model::{AssignOp, DeclKind, Declaration, Reference, ReferenceKind, SymbolClass};
use sv_mint::sv::preprocess::{parse_define_entry, split_define};
use sv_mint::sv::source::SourceFile;
use sv_mint::sv::usage::{byte_to_line_col, collect_from_text, make_loc, split_names, ScopeKind, SymbolKind};
use sv_mint::types::Location;

fn loc(line: u32) -> Location {
    Location { line, col: 1, end_line: line, end_col: 1, file: None }
}

fn id(name: &str, text: &str) -> Option<IdentAt> {
    let origin = text.find(name).unwrap();
    Some(IdentAt { name: name.to_string(), origin, len: name.len(), source: 0 })
}

#[test]
fn defines_split_at_first_eq() {
    assert_eq!(split_define("A=1=2"), ("A".to_string(), Some("1=2".to_string())));
    assert_eq!(split_define("FLAG"), ("FLAG".to_string(), None));
    assert_eq!(
        parse_define_entry(" W = 8 "),
        Some(("W".to_string(), Some("8".to_string())))
    );
    assert_eq!(parse_define_entry("  =3"), None);
    assert_eq!(parse_define_entry("DEBUG"), Some(("DEBUG".to_string(), None)));
}

#[test]
fn byte_offsets_to_line_and_column() {
    let text = "ab\ncd\u{e9}f";
    assert_eq!(byte_to_line_col(text, 0), (1, 1));
    assert_eq!(byte_to_line_col(text, 4), (2, 2));
    assert_eq!(byte_to_line_col(text, 8), (2, 5));
    let l = make_loc("f.sv", text, 3, 5);
    assert_eq!((l.line, l.col, l.end_line, l.end_col), (2, 1, 2, 3));
    assert_eq!(l.file.as_deref(), Some("f.sv"));
}

#[test]
fn rhs_range_stops_at_top_level_semicolon() {
    let t = "a = f(x;y) + {b;c};  d";
    assert_eq!(find_rhs_range(t, 3), Some((3, 18)));
    assert_eq!(find_rhs_range("x = y", 3), None);
}

#[test]
fn assignment_scan() {
    let t = "  q <= d + 1 ;";
    let (op, lhs, rhs, s, e) = scan_assignment_at(t, 2).unwrap();
    assert_eq!(op, AssignOp::Nonblocking);
    assert_eq!(lhs, "q");
    assert_eq!(rhs, "d + 1");
    assert_eq!((s, e), (6, 13));
    let (op2, lhs2, rhs2, _, _) = scan_assignment_at("y[i=0] = a==b;", 0).unwrap();
    assert_eq!(op2, AssignOp::BlockingOrCont);
    assert_eq!(lhs2, "y[i=0]");
    assert_eq!(rhs2, "a==b");
    assert_eq!(scan_assignment_at("a == b;", 0), None);
    assert_eq!(scan_assignment_at("a; b = c;", 0), None);
}

#[test]
fn port_direction_texts() {
    assert_eq!(port_direction_to_str(PortDir::Inout), "inout");
    assert_eq!(net_header_direction(Some(NetPortHeader::NetPort(Some(PortDir::Input)))), "input");
    assert_eq!(net_header_direction(Some(NetPortHeader::NetPort(None))), "unspecified");
    assert_eq!(net_header_direction(Some(NetPortHeader::Interface)), "interface");
    assert_eq!(net_header_direction(None), "unspecified");
    assert_eq!(variable_header_direction(Some(Some(PortDir::Output))), "output");
    assert_eq!(variable_header_direction(Some(None)), "unspecified");
    assert_eq!(variable_header_direction(None), "unspecified");
}

#[test]
fn symbol_usage_counts() {
    let decls = vec![
        Declaration { kind: DeclKind::Net, name: "a".into(), module: Some("m".into()), loc: loc(1) },
        Declaration { kind: DeclKind::Var, name: "b".into(), module: Some("m".into()), loc: loc(2) },
        Declaration { kind: DeclKind::Param, name: "P".into(), module: Some("m".into()), loc: loc(3) },
        Declaration { kind: DeclKind::Module, name: "m".into(), module: None, loc: loc(1) },
    ];
    let refs = vec![
        Reference { name: "a".into(), module: Some("m".into()), kind: ReferenceKind::Read, loc: loc(5) },
        Reference { name: "a".into(), module: Some("m".into()), kind: ReferenceKind::Write, loc: loc(6) },
        Reference { name: "a".into(), module: Some("m".into()), kind: ReferenceKind::Read, loc: loc(7) },
        Reference { name: "b".into(), module: Some("other".into()), kind: ReferenceKind::Read, loc: loc(8) },
    ];
    let u = analyze_symbols(&decls, &refs);
    assert_eq!(u.len(), 3);
    let a = u.iter().find(|s| s.name == "a").unwrap();
    assert_eq!(a.class, SymbolClass::Net);
    assert_eq!((a.ref_count, a.read_count, a.write_count, a.used), (3, 2, 1, true));
    let b = u.iter().find(|s| s.name == "b").unwrap();
    assert_eq!(b.class, SymbolClass::Var);
    assert_eq!((b.ref_count, b.used), (0, false));
    let p = u.iter().find(|s| s.name == "P").unwrap();
    assert_eq!(p.class, SymbolClass::Param);
}

#[test]
fn collector_records_module_decls_ports_and_assignments() {
    let text = "module top(input logic clk);\n  logic q;\n  assign q = clk;\nendmodule\n";
    let src = SourceFile::new("top.sv", text);
    let q_decl = Some(IdentAt { name: "q".into(), origin: text.find("q;").unwrap(), len: 1, source: 0 });
    let q_lhs = Some(IdentAt { name: "q".into(), origin: text.find("q =").unwrap(), len: 1, source: 0 });
    let clk_use = Some(IdentAt { name: "clk".into(), origin: text.find("clk;").unwrap(), len: 3, source: 0 });
    let events = vec![
        AstEvent::EnterModule(id("top", text)),
        AstEvent::EnterAnsiPort(
            AnsiHeader::Variable(Some(Some(PortDir::Input))),
            id("clk", text),
        ),
        AstEvent::EnterDecl(DeclKind::Var, false, q_decl),
        AstEvent::EnterLvalue(q_lhs.clone()),
        AstEvent::EnterIdentifier(q_lhs),
        AstEvent::EnterIdentifier(clk_use.clone()),
        AstEvent::EnterIdentifier(clk_use),
        AstEvent::LeaveModule,
        AstEvent::Other,
    ];
    let r = collect_all(&events, vec![src]);
    assert_eq!(r.decls.len(), 2);
    assert_eq!(r.decls[0].kind, DeclKind::Module);
    assert_eq!(r.decls[0].name, "top");
    assert_eq!(r.decls[0].module, None);
    assert_eq!(r.decls[1].name, "q");
    assert_eq!(r.decls[1].module.as_deref(), Some("top"));
    assert_eq!(r.decls[1].loc.line, 2);
    assert_eq!(r.ports.len(), 1);
    assert_eq!(r.ports[0].name, "clk");
    assert_eq!(r.ports[0].direction, "input");
    assert_eq!(r.refs.len(), 2);
    assert_eq!(r.refs[0].kind, ReferenceKind::Write);
    assert_eq!(r.refs[1].kind, ReferenceKind::Read);
    assert_eq!(r.refs[1].name, "clk");
    assert_eq!(r.assigns.len(), 1);
    assert_eq!(r.assigns[0].lhs, "q");
    assert_eq!(r.assigns[0].rhs, "clk");
    assert_eq!(r.assigns[0].op, AssignOp::BlockingOrCont);
    assert_eq!(r.assigns[0].loc.line, 3);
}

#[test]
fn token_classes() {
    assert_eq!(classify_token("  "), "ws");
    assert_eq!(classify_token(".*"), "conn_wildcard");
    assert_eq!(classify_token(";"), "semicolon");
    assert_eq!(classify_token("<="), "op_le");
    assert_eq!(classify_token("ALWAYS_FF"), "kw_always_ff");
    assert_eq!(classify_token("casez"), "kw_case");
    assert_eq!(classify_token("// hi"), "line_comment");
    assert_eq!(classify_token("/* x */"), "block_comment");
    assert_eq!(classify_token("`define"), "macro_id");
    assert_eq!(classify_token("data_q1"), "ident");
    assert_eq!(classify_token("+"), "symbol");
    assert_eq!(to_ascii_lower("AbC_9\u{c9}"), "abc_9\u{c9}");
}

#[test]
fn cst_ir_from_walk() {
    let events = vec![
        CstEvent::Enter { name: "Module".into() },
        CstEvent::Token { text: Some("module".into()), offset: 0, len: 6 },
        CstEvent::Enter { name: "Ident".into() },
        CstEvent::Token { text: Some("m".into()), offset: 7, len: 1 },
        CstEvent::Leave,
        CstEvent::Enter { name: "Empty".into() },
        CstEvent::Leave,
        CstEvent::Token { text: Some(";".into()), offset: 8, len: 1 },
        CstEvent::Token { text: None, offset: 9, len: 1 },
        CstEvent::Leave,
    ];
    let ir = build_cst_ir(events, "m.sv", "0.13", &[0, 10], "module m;\n");
    assert_eq!(ir.schema, 2);
    assert_eq!(ir.format, "json");
    assert_eq!(ir.file, "m.sv");
    assert_eq!(ir.line_starts, vec![0, 10]);
    assert_eq!(ir.kind_table, vec!["Module", "Ident", "Empty"]);
    assert_eq!(ir.tok_kind_table, vec!["ident", "semicolon"]);
    assert_eq!(ir.tok_kind_map, vec![("ident".to_string(), 0), ("semicolon".to_string(), 1)]);
    assert_eq!(ir.tokens.len(), 3);
    assert_eq!(ir.tokens[2].text, ";");
    assert_eq!((ir.tokens[2].start, ir.tokens[2].end, ir.tokens[2].kind), (8, 9, 1));
    assert_eq!(ir.nodes.len(), 2);
    let ident = &ir.nodes[0];
    assert_eq!((ident.id, ident.kind, ident.parent), (1, 1, Some(0)));
    assert_eq!((ident.start, ident.end, ident.first_token, ident.last_token), (7, 8, 1, 1));
    let module = &ir.nodes[1];
    assert_eq!((module.id, module.parent, module.start, module.end), (0, None, 0, 9));
    assert_eq!((module.first_token, module.last_token), (0, 2));
    assert_eq!(ir.pp_text.as_deref(), Some("module m;\n"));
}

#[test]
fn declaration_lists_split_into_names() {
    assert_eq!(
        split_names(" a, b[3:0] = 1, [7:0] c ,, 9x"),
        Some(vec!["a".to_string(), "c".to_string()])
    );
    assert_eq!(split_names("W = 8"), Some(vec!["W".to_string()]));
    assert_eq!(split_names(" , "), Some(vec![]));
}

#[test]
fn text_scan_finds_ports_parameters_typedefs_and_variables() {
    let text = "module top #(parameter W = 8) (input logic clk, output [3:0] q);\n  parameter A = 1, B = 2;\n  localparam C = 3;\n  typedef logic [3:0] nib_t;\n  logic x, y;\nendmodule\n";
    let (syms, refs, scopes) = collect_from_text("top.sv", text).unwrap();
    assert!(refs.is_empty());
    assert_eq!(scopes.len(), 1);
    assert_eq!((scopes[0].id, scopes[0].kind, scopes[0].name.as_str(), scopes[0].parent), (1, ScopeKind::Module, "top", 0));
    let got: Vec<(u32, &str, SymbolKind, u32)> =
        syms.iter().map(|s| (s.id, s.name.as_str(), s.kind, s.scope_id)).collect();
    assert_eq!(
        got,
        vec![
            (1, "logic", SymbolKind::Port, 1),
            (2, "q", SymbolKind::Port, 1),
            (3, "A", SymbolKind::Param, 0),
            (4, "B", SymbolKind::Param, 0),
            (5, "C", SymbolKind::Localparam, 0),
            (6, "nib_t", SymbolKind::Typedef, 0),
            (7, "x", SymbolKind::Var, 0),
            (8, "y", SymbolKind::Var, 0),
        ]
    );
    assert_eq!(syms[0].dir, Some(sv_mint::sv::collect::PortDir::Input));
    assert_eq!(syms[1].dir, Some(sv_mint::sv::collect::PortDir::Output));
    assert_eq!((syms[0].decl_loc.line, syms[0].decl_loc.col), (1, 1));
    assert_eq!(syms[2].decl_loc.line, 2);
    assert_eq!(syms[6].decl_loc.line, 5);
    assert_eq!(syms[6].decl_loc.file.as_deref(), Some("top.sv"));
    assert!(syms.iter().all(|s| s.type_ref.is_none()));
}
