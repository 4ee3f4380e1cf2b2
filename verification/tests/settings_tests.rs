use dif::app_types::ResolvedDiffLayout;
use dif::settings::{
    adjust_setting, diff_mode_hint, move_settings_selection, resolved_diff_layout, settings_rows,
    u16_to_decimal, AppSettings, AppTheme, DiffViewMode, SidebarPosition,
    AUTO_SPLIT_MIN_WIDTH_MAX, AUTO_SPLIT_MIN_WIDTH_MIN, SIDEBAR_WIDTH_MAX, SIDEBAR_WIDTH_MIN,
};

#[test]
fn renders_numbers_in_decimal() {
    assert_eq!(u16_to_decimal(0), "0");
    assert_eq!(u16_to_decimal(7), "7");
    assert_eq!(u16_to_decimal(34), "34");
    assert_eq!(u16_to_decimal(65535), "65535");
}

#[test]
fn adjusting_rows_changes_the_right_field() {
    let mut settings = AppSettings::default();

    let status = adjust_setting(&mut settings, 0, 1);
    assert_eq!(settings.diff_view_mode, DiffViewMode::Split);
    assert_eq!(status, "Diff view: Split");

    let status = adjust_setting(&mut settings, 1, 1);
    assert!(!settings.sidebar_visible);
    assert_eq!(status, "Sidebar hidden");

    let status = adjust_setting(&mut settings, 3, 1);
    assert_eq!(settings.sidebar_width, 36);
    assert_eq!(status, "Sidebar width: 36");

    let status = adjust_setting(&mut settings, 5, -1);
    assert_eq!(settings.theme, AppTheme::Monokai);
    assert_eq!(status, "Theme: Monokai");

    let before = settings;
    let status = adjust_setting(&mut settings, 9, 1);
    assert_eq!(settings, before);
    assert_eq!(status, "");
}

#[test]
fn settings_selection_stays_inside_the_panel() {
    assert_eq!(move_settings_selection(0, -1), 0);
    assert_eq!(move_settings_selection(0, 2), 2);
    assert_eq!(move_settings_selection(5, 1), 5);
    assert_eq!(move_settings_selection(99, 1), 5);
}

#[test]
fn auto_layout_resolves_by_width() {
    let settings = AppSettings::default();
    assert_eq!(
        resolved_diff_layout(&settings, 139),
        ResolvedDiffLayout::Unified
    );
    assert_eq!(
        resolved_diff_layout(&settings, 140),
        ResolvedDiffLayout::Split
    );
    assert_eq!(diff_mode_hint(&settings, 140), "Auto->Split");
    assert_eq!(diff_mode_hint(&settings, 100), "Auto->Unified");

    let split = AppSettings {
        diff_view_mode: DiffViewMode::Split,
        ..settings
    };
    assert_eq!(resolved_diff_layout(&split, 10), ResolvedDiffLayout::Split);
    assert_eq!(diff_mode_hint(&split, 10), "Split");
}

#[test]
fn settings_rows_mirror_the_fields() {
    let rows = settings_rows(&AppSettings::default());
    assert_eq!(rows.len(), 6);
    assert_eq!(rows[0], ("Diff Layout", "Auto".to_string()));
    assert_eq!(rows[1], ("Sidebar Visible", "Yes".to_string()));
    assert_eq!(rows[3], ("Sidebar Width", "34".to_string()));
    assert_eq!(rows[5], ("Theme", "Ocean".to_string()));
}

#[test]
fn diff_view_mode_cycles_both_ways() {
    assert_eq!(DiffViewMode::Auto.cycle(1), DiffViewMode::Split);
    assert_eq!(DiffViewMode::Unified.cycle(1), DiffViewMode::Auto);
    assert_eq!(DiffViewMode::Auto.cycle(-1), DiffViewMode::Unified);
    assert_eq!(DiffViewMode::Split.cycle(3), DiffViewMode::Split);
    assert_eq!(DiffViewMode::Split.cycle(-4), DiffViewMode::Auto);
}

#[test]
fn sidebar_position_cycles_between_sides() {
    assert_eq!(SidebarPosition::Left.cycle(1), SidebarPosition::Right);
    assert_eq!(SidebarPosition::Right.cycle(1), SidebarPosition::Left);
    assert_eq!(SidebarPosition::Left.cycle(-1), SidebarPosition::Right);
}

#[test]
fn theme_cycles_through_all_four() {
    assert_eq!(AppTheme::Ocean.cycle(1), AppTheme::Eighties);
    assert_eq!(AppTheme::Monokai.cycle(1), AppTheme::Ocean);
    assert_eq!(AppTheme::Ocean.cycle(-1), AppTheme::Monokai);
    assert_eq!(AppTheme::Solarized.cycle(4), AppTheme::Solarized);
}

#[test]
fn labels_name_each_choice() {
    assert_eq!(DiffViewMode::Auto.label(), "Auto");
    assert_eq!(DiffViewMode::Split.label(), "Split");
    assert_eq!(DiffViewMode::Unified.label(), "Unified");
    assert_eq!(SidebarPosition::Left.label(), "Left");
    assert_eq!(SidebarPosition::Right.label(), "Right");
    assert_eq!(AppTheme::Eighties.label(), "Eighties");
}

#[test]
fn normalize_clamps_widths_into_range() {
    let mut settings = AppSettings {
        sidebar_width: 5,
        auto_split_min_width: 500,
        ..AppSettings::default()
    };
    settings.normalize();
    assert_eq!(settings.sidebar_width, SIDEBAR_WIDTH_MIN);
    assert_eq!(settings.auto_split_min_width, AUTO_SPLIT_MIN_WIDTH_MAX);

    let mut settings = AppSettings {
        sidebar_width: 200,
        auto_split_min_width: 10,
        ..AppSettings::default()
    };
    settings.normalize();
    assert_eq!(settings.sidebar_width, SIDEBAR_WIDTH_MAX);
    assert_eq!(settings.auto_split_min_width, AUTO_SPLIT_MIN_WIDTH_MIN);
}

#[test]
fn defaults_are_in_range() {
    let mut settings = AppSettings::default();
    let before = settings;
    settings.normalize();
    assert_eq!(settings, before);
    assert_eq!(settings.diff_view_mode, DiffViewMode::Auto);
    assert!(settings.sidebar_visible);
    assert_eq!(settings.sidebar_width, 34);
    assert_eq!(settings.auto_split_min_width, 140);
}
