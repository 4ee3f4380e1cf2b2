use dif::diff::{parse_unified_diff, CellKind};

#[test]
fn aligns_replaced_line_blocks() {
    let input = "@@ -1,3 +1,3 @@\n-old_a\n-old_b\n+new_a\n+new_b\n keep";
    let rows = parse_unified_diff(input);

    assert_eq!(rows.len(), 3);
    assert_eq!(
        rows[0].old.as_ref().map(|c| c.kind),
        Some(CellKind::Removed)
    );
    assert_eq!(rows[0].new.as_ref().map(|c| c.kind), Some(CellKind::Added));
    assert_eq!(
        rows[1].old.as_ref().map(|c| c.kind),
        Some(CellKind::Removed)
    );
    assert_eq!(rows[1].new.as_ref().map(|c| c.kind), Some(CellKind::Added));
    assert_eq!(
        rows[2].old.as_ref().map(|c| c.kind),
        Some(CellKind::Context)
    );
    assert_eq!(
        rows[2].new.as_ref().map(|c| c.kind),
        Some(CellKind::Context)
    );
}

#[test]
fn keeps_unmatched_added_lines_on_new_side() {
    let input = "@@ -2,1 +2,3 @@\n same\n+plus_a\n+plus_b";
    let rows = parse_unified_diff(input);

    assert_eq!(rows.len(), 3);
    assert_eq!(rows[1].old, None);
    assert_eq!(rows[1].new.as_ref().map(|c| c.kind), Some(CellKind::Added));
    assert_eq!(rows[2].old, None);
    assert_eq!(rows[2].new.as_ref().map(|c| c.kind), Some(CellKind::Added));
}

#[test]
fn numbers_context_lines_from_hunk_header() {
    let input = "@@ -3,2 +7,2 @@\n keep\n-gone\n+came";
    let rows = parse_unified_diff(input);

    assert_eq!(rows.len(), 2);
    let keep_old = rows[0].old.as_ref().unwrap();
    let keep_new = rows[0].new.as_ref().unwrap();
    assert_eq!(keep_old.line_no, Some(3));
    assert_eq!(keep_new.line_no, Some(7));
    assert_eq!(keep_old.text, "keep");

    let gone = rows[1].old.as_ref().unwrap();
    let came = rows[1].new.as_ref().unwrap();
    assert_eq!(gone.line_no, Some(4));
    assert_eq!(gone.text, "gone");
    assert_eq!(came.line_no, Some(8));
    assert_eq!(came.text, "came");
}

#[test]
fn text_without_hunks_becomes_metadata_rows() {
    let input = "diff --git a/x b/x\nindex 123..456 100644";
    let rows = parse_unified_diff(input);

    assert_eq!(rows.len(), 2);
    for row in &rows {
        let old = row.old.as_ref().unwrap();
        let new = row.new.as_ref().unwrap();
        assert_eq!(old.kind, CellKind::Meta);
        assert_eq!(new.kind, CellKind::Meta);
        assert_eq!(old.line_no, None);
    }
    assert_eq!(rows[0].old.as_ref().unwrap().text, "diff --git a/x b/x");
}

#[test]
fn backslash_lines_and_unknown_markers_are_skipped() {
    let input = "@@ -1 +1 @@\n-x\n+y\n\\ No newline at end of file";
    let rows = parse_unified_diff(input);

    assert_eq!(rows.len(), 1);
    assert_eq!(rows[0].old.as_ref().unwrap().text, "x");
    assert_eq!(rows[0].new.as_ref().unwrap().text, "y");
}

#[test]
fn empty_input_gives_no_rows() {
    let rows = parse_unified_diff("");
    assert!(rows.is_empty());
}
