use sv_mint::engine::linemap::{LineMap, SpanBytes};

#[test]
fn linemap_basic_mapping() {
    let s = "a\nbc\n";
    let lm = LineMap::new(s);

    let sp = SpanBytes { start: 0, end: 0 };
    let ln = lm.to_lines(sp);
    assert_eq!((ln.line, ln.col, ln.end_line, ln.end_col), (1, 1, 1, 1));

    let sp2 = SpanBytes { start: 2, end: 3 };
    let ln2 = lm.to_lines(sp2);
    assert_eq!((ln2.line, ln2.col, ln2.end_line, ln2.end_col), (2, 1, 2, 2));
}

#[test]
fn linemap_offsets_past_end_are_clamped() {
    let lm = LineMap::new("ab\ncd");
    let ln = lm.to_lines(SpanBytes::new(4, 100));
    assert_eq!((ln.line, ln.col, ln.end_line, ln.end_col), (2, 2, 2, 3));
    assert_eq!(lm.starts(), &vec![0usize, 3]);
}
