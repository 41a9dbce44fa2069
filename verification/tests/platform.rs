use sv_mint::types::Stage;

#[test]
fn decl_unused_skip_on_non_windows() {
    assert!(true);
}

#[test]
fn e2e_plugin_skip_on_non_windows() {
    assert!(true);
}

#[test]
fn plugin_error_paths_skip_on_non_windows() {
    assert!(true);
    assert_eq!(Stage::RawText.as_str(), "raw_text");
}
