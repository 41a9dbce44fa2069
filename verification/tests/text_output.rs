use sv_mint::output::{
    excerpt_line, excerpt_of, format_violation, get_line_str, make_line_excerpt,
    normalize_windows_path_for_output, severity_str, violation_path, MAX_COLS,
};
use sv_mint::strings::{
    debug_string_list, decimal_string, ends_with, signed_decimal_string, starts_with, trim,
    trimmed_slice,
};
use sv_mint::textutil::{line_starts, linecol_at, normalize_lf, strip_bom, truncate_preview_utf8};
use sv_mint::types::{Location, Severity, Stage, Violation};

fn viol(line: u32, col: u32, file: Option<&str>) -> Violation {
    Violation {
        rule_id: "rule.x".to_string(),
        severity: Severity::Warning,
        message: "bad thing".to_string(),
        location: Location {
            line,
            col,
            end_line: line,
            end_col: col,
            file: file.map(|f| f.to_string()),
        },
    }
}

#[test]
fn strip_bom_removes_one_leading_mark() {
    assert_eq!(strip_bom("\u{FEFF}abc".to_string()), "abc");
    assert_eq!(strip_bom("\u{FEFF}\u{FEFF}x".to_string()), "\u{FEFF}x");
    assert_eq!(strip_bom("abc".to_string()), "abc");
    assert_eq!(strip_bom(String::new()), "");
}

#[test]
fn normalize_lf_rewrites_crlf_and_cr() {
    assert_eq!(normalize_lf("a\r\nb\rc\n".to_string()), "a\nb\nc\n");
    assert_eq!(normalize_lf("\r\r\n".to_string()), "\n\n");
    let once = normalize_lf("x\r\ny\r".to_string());
    assert_eq!(normalize_lf(once.clone()), once);
    assert!(!once.contains('\r'));
}

#[test]
fn line_starts_and_linecol() {
    let starts = line_starts("ab\ncd\n");
    assert_eq!(starts, vec![0, 3, 6]);
    assert_eq!(linecol_at(&starts, 0), (1, 1));
    assert_eq!(linecol_at(&starts, 4), (2, 2));
    assert_eq!(linecol_at(&starts, 6), (3, 1));
    assert_eq!(linecol_at(&[], 17), (1, 1));
}

#[test]
fn truncate_preview_cuts_at_char_boundary() {
    assert_eq!(truncate_preview_utf8("hello", 10), "hello");
    assert_eq!(truncate_preview_utf8("hello world", 5), "hello ...");
    assert_eq!(truncate_preview_utf8("h\u{e9}llo", 2), "h ...");
    assert_eq!(truncate_preview_utf8("\u{e9}x", 1), "");
    assert!(truncate_preview_utf8(&"y".repeat(50), 8).len() <= 8 + 4);
}

#[test]
fn severity_labels() {
    assert_eq!(severity_str(Severity::Error), "error");
    assert_eq!(severity_str(Severity::Warning), "warning");
    assert_eq!(severity_str(Severity::Info), "info");
    assert_eq!(Stage::RawText.as_str(), "raw_text");
    assert_eq!(Stage::PpText.as_str(), "pp_text");
    assert_eq!(Stage::Cst.as_str(), "cst");
    assert_eq!(Stage::Ast.as_str(), "ast");
}

#[test]
fn windows_paths_lose_extended_prefix() {
    assert_eq!(normalize_windows_path_for_output("\\\\?\\C:\\src\\a.sv"), "C:\\src\\a.sv");
    assert_eq!(
        normalize_windows_path_for_output("\\\\?\\UNC\\host\\share\\a.sv"),
        "\\\\host\\share\\a.sv"
    );
    assert_eq!(normalize_windows_path_for_output("/tmp/a.sv"), "/tmp/a.sv");
}

#[test]
fn violation_line_format() {
    let v = viol(3, 7, None);
    assert_eq!(format_violation("a.sv", &v), "a.sv:3:7: [warning] rule.x: bad thing");
    let z = viol(0, 0, None);
    assert_eq!(format_violation("b.sv", &z), "b.sv:1:1: [warning] rule.x: bad thing");
}

#[test]
fn violation_path_prefers_own_file() {
    assert_eq!(violation_path(&viol(1, 1, Some("inc.svh")), "top.sv"), "inc.svh");
    assert_eq!(violation_path(&viol(1, 1, None), "top.sv"), "top.sv");
}

#[test]
fn get_line_str_picks_one_line() {
    let text = "first\nsecond\nthird";
    let starts = line_starts(text);
    assert_eq!(get_line_str(text, &starts, 1), "first");
    assert_eq!(get_line_str(text, &starts, 2), "second");
    assert_eq!(get_line_str(text, &starts, 3), "third");
    assert_eq!(get_line_str(text, &starts, 0), "");
    assert_eq!(get_line_str(text, &starts, 4), "");
}

#[test]
fn excerpts_are_cut_by_columns() {
    assert_eq!(excerpt_of("a\tb"), "a\tb");
    let long = "x".repeat(250);
    let ex = excerpt_of(&long);
    assert_eq!(ex, format!("{} ...", "x".repeat(MAX_COLS)));
    let tabs = "\t".repeat(30);
    assert_eq!(excerpt_of(&tabs), format!("{} ...", "\t".repeat(25)));
    assert_eq!(make_line_excerpt("one\ntwo\n", 2), "two");
    assert_eq!(make_line_excerpt("one\ntwo\n", 9), "");
}

#[test]
fn excerpt_line_prefix() {
    assert_eq!(excerpt_line(""), None);
    assert_eq!(excerpt_line("wire a;"), Some("    > wire a;".to_string()));
}

#[test]
fn string_helpers() {
    assert_eq!(decimal_string(0), "0");
    assert_eq!(decimal_string(1234), "1234");
    assert_eq!(signed_decimal_string(-42), "-42");
    assert_eq!(signed_decimal_string(7), "7");
    assert_eq!(trim("  x y \n"), "x y");
    assert!(starts_with("abc", "ab"));
    assert!(!starts_with("abc", "bc"));
    assert!(ends_with("abc", "bc"));
    assert_eq!(
        debug_string_list(&["a".to_string(), "b\"c".to_string()]),
        "[\"a\", \"b\\\"c\"]"
    );
    assert_eq!(debug_string_list(&[]), "[]");
    assert_eq!(trimmed_slice("ab  cd  ef", 2, 8), "cd");
}
