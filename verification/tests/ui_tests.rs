use dif::diff::{CellKind, DiffCell, DiffRow};
use dif::settings::AppTheme;
use dif::ui::{
    collect_unified_lines, fit_footer_parts, line_number_width, palette_for, to_u16,
    truncate_with_ellipsis, unified_line_count,
};

fn cell(line_no: Option<usize>, text: &str, kind: CellKind) -> DiffCell {
    DiffCell {
        line_no,
        text: text.to_string(),
        kind,
    }
}

#[test]
fn snapshot_collects_replacement_as_remove_then_add() {
    let rows = vec![DiffRow {
        old: Some(cell(Some(2), "old line", CellKind::Removed)),
        new: Some(cell(Some(2), "new line", CellKind::Added)),
    }];

    let unified = collect_unified_lines(&rows);
    let snapshot = unified
        .iter()
        .map(|line| {
            format!(
                "{:?}|{:?}|{}|{}",
                line.old_no, line.new_no, line.marker, line.text
            )
        })
        .collect::<Vec<_>>();

    assert_eq!(
        snapshot,
        vec![
            String::from("Some(2)|None|-|old line"),
            String::from("None|Some(2)|+|new line")
        ]
    );
}

#[test]
fn snapshot_collects_context_line_with_both_numbers() {
    let rows = vec![DiffRow {
        old: Some(cell(Some(3), "same", CellKind::Context)),
        new: Some(cell(Some(3), "same", CellKind::Context)),
    }];

    let unified = collect_unified_lines(&rows);
    let snapshot = unified
        .iter()
        .map(|line| {
            format!(
                "{:?}|{:?}|{}|{}",
                line.old_no, line.new_no, line.marker, line.text
            )
        })
        .collect::<Vec<_>>();

    assert_eq!(snapshot, vec![String::from("Some(3)|Some(3)| |same")]);
}

#[test]
fn unified_count_matches_collected_lines() {
    let rows = vec![
        DiffRow {
            old: Some(cell(Some(1), "a", CellKind::Removed)),
            new: Some(cell(Some(1), "b", CellKind::Added)),
        },
        DiffRow {
            old: Some(cell(Some(2), "c", CellKind::Context)),
            new: Some(cell(Some(2), "c", CellKind::Context)),
        },
        DiffRow {
            old: None,
            new: None,
        },
    ];

    assert_eq!(unified_line_count(&rows), 3);
    assert_eq!(collect_unified_lines(&rows).len(), 3);
}

#[test]
fn truncates_text_with_ellipsis_when_needed() {
    assert_eq!(truncate_with_ellipsis("abcdef", 6), "abcdef");
    assert_eq!(truncate_with_ellipsis("abcdef", 5), "ab...");
    assert_eq!(truncate_with_ellipsis("abcdef", 2), "..");
}

#[test]
fn footer_parts_fit_target_width() {
    let hints = vec![
        String::from("this is a very long hint that does not fit"),
        String::from("short hint"),
    ];

    let (status, hint) = fit_footer_parts("Ready", &hints, 28);
    let width = if hint.is_empty() {
        status.chars().count()
    } else {
        status.chars().count() + 3 + hint.chars().count()
    };

    assert!(width <= 28);
    assert!(!hint.is_empty());
}

#[test]
fn tiny_footer_width_falls_back_to_status_only() {
    let hints = vec![String::from("long hint")];
    let (status, hint) = fit_footer_parts("All good", &hints, 7);

    assert!(hint.is_empty());
    assert_eq!(status.chars().count(), 7);
}

#[test]
fn gutter_width_counts_digits_of_largest_number() {
    let rows = vec![
        DiffRow {
            old: Some(cell(Some(7), "x", CellKind::Context)),
            new: Some(cell(Some(120), "x", CellKind::Context)),
        },
        DiffRow {
            old: Some(cell(Some(98), "y", CellKind::Removed)),
            new: None,
        },
    ];

    assert_eq!(line_number_width(&rows, true), 2);
    assert_eq!(line_number_width(&rows, false), 3);
    assert_eq!(line_number_width(&[], true), 1);
}

#[test]
fn saturates_scroll_offsets_into_sixteen_bits() {
    assert_eq!(to_u16(12), 12);
    assert_eq!(to_u16(65535), 65535);
    assert_eq!(to_u16(1_000_000), 65535);
}

#[test]
fn palettes_differ_by_theme() {
    let ocean = palette_for(AppTheme::Ocean);
    let solarized = palette_for(AppTheme::Solarized);

    assert_eq!(ocean.pane_bg, (17, 20, 27));
    assert_eq!(solarized.pane_bg, (0, 43, 54));
    assert_ne!(ocean.text, solarized.pane_bg);
}
