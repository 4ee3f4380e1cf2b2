use dif::app_types::{FocusSection, PaneFocus, ResolvedDiffLayout, StatusKind, StatusMessage};

#[test]
fn resolved_layout_labels() {
    assert_eq!(ResolvedDiffLayout::Split.label(), "Split");
    assert_eq!(ResolvedDiffLayout::Unified.label(), "Unified");
}

#[test]
fn status_constructors_carry_kind_and_text() {
    let info = StatusMessage::info("Ready");
    assert_eq!(info.kind, StatusKind::Info);
    assert_eq!(info.text, "Ready");

    let warn = StatusMessage::warn("Careful");
    assert_eq!(warn.kind, StatusKind::Warn);
    assert_eq!(warn.text, "Careful");

    let error = StatusMessage::error("Broken");
    assert_eq!(error.kind, StatusKind::Error);
    assert_eq!(error.text, "Broken");
}

#[test]
fn focus_enums_compare_by_variant() {
    assert_ne!(FocusSection::Unstaged, FocusSection::Staged);
    assert_ne!(PaneFocus::Sidebar, PaneFocus::Diff);
}
