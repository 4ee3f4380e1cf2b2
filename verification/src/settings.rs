//! User settings: the diff layout, the sidebar, the theme, and the
//! clamping that keeps stored widths inside their allowed ranges.

use vstd::prelude::*;
use vstd::string::StringExecFns;
use crate::app_types::ResolvedDiffLayout;

verus! {

pub const SIDEBAR_WIDTH_MIN: u16 = 24;

pub const SIDEBAR_WIDTH_MAX: u16 = 60;

pub const AUTO_SPLIT_MIN_WIDTH_MIN: u16 = 90;

pub const AUTO_SPLIT_MIN_WIDTH_MAX: u16 = 220;

/// The step a cycling setting takes for a signed delta, reduced into
/// `[0, len)`.
pub open spec fn spec_cycle_shift(len: int, delta: int) -> int {
    if delta >= 0 {
        delta % len
    } else {
        (len - (-delta) % len) % len
    }
}

/// Computes the cycling step for a signed delta over `len` choices.
fn cycle_shift(len: usize, delta: isize) -> (r: usize)
    requires
        len >= 1,
    ensures
        r as int == spec_cycle_shift(len as int, delta as int),
        r < len,
{
    if delta >= 0 {
        (delta as usize) % len
    } else {
        let abs: usize = ((-(delta + 1)) as usize) + 1;
        proof {
            assert(abs as int == -(delta as int));
        }
        (len - abs % len) % len
    }
}

/// How the diff pane is laid out.
#[derive(Debug, Clone, Copy, PartialEq, Eq, Structural)]
pub enum DiffViewMode {
    Auto,
    Split,
    Unified,
}

impl DiffViewMode {
    /// The position of each mode in cycling order.
    pub open spec fn index_spec(self) -> int {
        match self {
            DiffViewMode::Auto => 0,
            DiffViewMode::Split => 1,
            DiffViewMode::Unified => 2,
        }
    }

    /// The mode at a cycling position.
    pub open spec fn from_index_spec(i: int) -> DiffViewMode {
        if i == 0 {
            DiffViewMode::Auto
        } else if i == 1 {
            DiffViewMode::Split
        } else {
            DiffViewMode::Unified
        }
    }

    /// Steps through Auto, Split, Unified in order, wrapping around in
    /// either direction.
    pub fn cycle(self, delta: isize) -> (r: Self)
        ensures
            r == Self::from_index_spec(
                (self.index_spec() + spec_cycle_shift(3, delta as int)) % 3,
            ),
    {
        let shift = cycle_shift(3, delta);
        let idx: usize = match self {
            DiffViewMode::Auto => 0,
            DiffViewMode::Split => 1,
            DiffViewMode::Unified => 2,
        };
        let next = (idx + shift) % 3;
        if next == 0 {
            DiffViewMode::Auto
        } else if next == 1 {
            DiffViewMode::Split
        } else {
            DiffViewMode::Unified
        }
    }

    /// The mode's display name, as text.
    pub open spec fn label_spec(self) -> Seq<char> {
        match self {
            DiffViewMode::Auto => "Auto"@,
            DiffViewMode::Split => "Split"@,
            DiffViewMode::Unified => "Unified"@,
        }
    }

    /// The mode's display name.
    pub fn label(self) -> (r: &'static str)
        ensures
            r@ == self.label_spec(),
    {
        match self {
            DiffViewMode::Auto => "Auto",
            DiffViewMode::Split => "Split",
            DiffViewMode::Unified => "Unified",
        }
    }
}

/// Which side of the screen the sidebar occupies.
#[derive(Debug, Clone, Copy, PartialEq, Eq, Structural)]
pub enum SidebarPosition {
    Left,
    Right,
}

impl SidebarPosition {
    /// The position of each side in cycling order.
    pub open spec fn index_spec(self) -> int {
        match self {
            SidebarPosition::Left => 0,
            SidebarPosition::Right => 1,
        }
    }

    /// The side at a cycling position.
    pub open spec fn from_index_spec(i: int) -> SidebarPosition {
        if i == 0 {
            SidebarPosition::Left
        } else {
            SidebarPosition::Right
        }
    }

    /// Steps between Left and Right, wrapping in either direction.
    pub fn cycle(self, delta: isize) -> (r: Self)
        ensures
            r == Self::from_index_spec(
                (self.index_spec() + spec_cycle_shift(2, delta as int)) % 2,
            ),
    {
        let shift = cycle_shift(2, delta);
        let idx: usize = match self {
            SidebarPosition::Left => 0,
            SidebarPosition::Right => 1,
        };
        let next = (idx + shift) % 2;
        if next == 0 {
            SidebarPosition::Left
        } else {
            SidebarPosition::Right
        }
    }

    /// The side's display name, as text.
    pub open spec fn label_spec(self) -> Seq<char> {
        match self {
            SidebarPosition::Left => "Left"@,
            SidebarPosition::Right => "Right"@,
        }
    }

    /// The side's display name.
    pub fn label(self) -> (r: &'static str)
        ensures
            r@ == self.label_spec(),
    {
        match self {
            SidebarPosition::Left => "Left",
            SidebarPosition::Right => "Right",
        }
    }
}

/// The colour theme of the interface.
#[derive(Debug, Clone, Copy, PartialEq, Eq, Structural)]
pub enum AppTheme {
    Ocean,
    Eighties,
    Solarized,
    Monokai,
}

impl AppTheme {
    /// The position of each theme in cycling order.
    pub open spec fn index_spec(self) -> int {
        match self {
            AppTheme::Ocean => 0,
            AppTheme::Eighties => 1,
            AppTheme::Solarized => 2,
            AppTheme::Monokai => 3,
        }
    }

    /// The theme at a cycling position.
    pub open spec fn from_index_spec(i: int) -> AppTheme {
        if i == 0 {
            AppTheme::Ocean
        } else if i == 1 {
            AppTheme::Eighties
        } else if i == 2 {
            AppTheme::Solarized
        } else {
            AppTheme::Monokai
        }
    }

    /// Steps through the themes in order, wrapping in either direction.
    pub fn cycle(self, delta: isize) -> (r: Self)
        ensures
            r == Self::from_index_spec(
                (self.index_spec() + spec_cycle_shift(4, delta as int)) % 4,
            ),
    {
        let shift = cycle_shift(4, delta);
        let idx: usize = match self {
            AppTheme::Ocean => 0,
            AppTheme::Eighties => 1,
            AppTheme::Solarized => 2,
            AppTheme::Monokai => 3,
        };
        let next = (idx + shift) % 4;
        if next == 0 {
            AppTheme::Ocean
        } else if next == 1 {
            AppTheme::Eighties
        } else if next == 2 {
            AppTheme::Solarized
        } else {
            AppTheme::Monokai
        }
    }

    /// The theme's display name, as text.
    pub open spec fn label_spec(self) -> Seq<char> {
        match self {
            AppTheme::Ocean => "Ocean"@,
            AppTheme::Eighties => "Eighties"@,
            AppTheme::Solarized => "Solarized"@,
            AppTheme::Monokai => "Monokai"@,
        }
    }

    /// The theme's display name.
    pub fn label(self) -> (r: &'static str)
        ensures
            r@ == self.label_spec(),
    {
        match self {
            AppTheme::Ocean => "Ocean",
            AppTheme::Eighties => "Eighties",
            AppTheme::Solarized => "Solarized",
            AppTheme::Monokai => "Monokai",
        }
    }
}

/// The persisted settings of the interface.
#[derive(Debug, Clone, Copy, PartialEq, Eq, Structural)]
pub struct AppSettings {
    pub diff_view_mode: DiffViewMode,
    pub sidebar_position: SidebarPosition,
    pub sidebar_visible: bool,
    pub sidebar_width: u16,
    pub auto_split_min_width: u16,
    pub theme: AppTheme,
}

/// The settings a fresh installation starts with.
pub open spec fn spec_default_settings() -> AppSettings {
    AppSettings {
        diff_view_mode: DiffViewMode::Auto,
        sidebar_position: SidebarPosition::Left,
        sidebar_visible: true,
        sidebar_width: 34,
        auto_split_min_width: 140,
        theme: AppTheme::Ocean,
    }
}

impl Default for AppSettings {
    fn default() -> (r: Self)
        ensures
            r == spec_default_settings(),
    {
        AppSettings {
            diff_view_mode: DiffViewMode::Auto,
            sidebar_position: SidebarPosition::Left,
            sidebar_visible: true,
            sidebar_width: 34,
            auto_split_min_width: 140,
            theme: AppTheme::Ocean,
        }
    }
}

/// A value clamped into `[lo, hi]`.
pub open spec fn clamp_u16(v: u16, lo: u16, hi: u16) -> u16 {
    if v < lo {
        lo
    } else if v > hi {
        hi
    } else {
        v
    }
}

impl AppSettings {
    /// Pulls the stored widths back into their allowed ranges; every
    /// other field stays as it was.
    pub fn normalize(&mut self)
        ensures
            final(self).sidebar_width == clamp_u16(
                old(self).sidebar_width,
                SIDEBAR_WIDTH_MIN,
                SIDEBAR_WIDTH_MAX,
            ),
            final(self).auto_split_min_width == clamp_u16(
                old(self).auto_split_min_width,
                AUTO_SPLIT_MIN_WIDTH_MIN,
                AUTO_SPLIT_MIN_WIDTH_MAX,
            ),
            final(self).diff_view_mode == old(self).diff_view_mode,
            final(self).sidebar_position == old(self).sidebar_position,
            final(self).sidebar_visible == old(self).sidebar_visible,
            final(self).theme == old(self).theme,
    {
        if self.sidebar_width < SIDEBAR_WIDTH_MIN {
            self.sidebar_width = SIDEBAR_WIDTH_MIN;
        } else if self.sidebar_width > SIDEBAR_WIDTH_MAX {
            self.sidebar_width = SIDEBAR_WIDTH_MAX;
        }
        if self.auto_split_min_width < AUTO_SPLIT_MIN_WIDTH_MIN {
            self.auto_split_min_width = AUTO_SPLIT_MIN_WIDTH_MIN;
        } else if self.auto_split_min_width > AUTO_SPLIT_MIN_WIDTH_MAX {
            self.auto_split_min_width = AUTO_SPLIT_MIN_WIDTH_MAX;
        }
    }
}

/// How many rows the settings panel shows.
pub const SETTINGS_FIELD_COUNT: usize = 6;

/// The decimal digits of a number, most significant first.
pub open spec fn spec_decimal(n: int) -> Seq<char>
    decreases n,
{
    if n < 10 {
        seq![((48 + if n >= 0 {
            n
        } else {
            0
        }) as u8) as char]
    } else {
        spec_decimal(n / 10).push(((48 + n % 10) as u8) as char)
    }
}

/// Renders a number in decimal.
pub fn u16_to_decimal(n: u16) -> (r: String)
    ensures
        r@ == spec_decimal(n as int),
{
    let mut digits: Vec<char> = Vec::new();
    let mut m = n;
    proof {
        assert(digits@.reverse() =~= Seq::<char>::empty());
        assert(spec_decimal(n as int) =~= spec_decimal(n as int) + digits@.reverse());
    }
    while m >= 10
        invariant
            spec_decimal(n as int) == spec_decimal(m as int) + digits@.reverse(),
        decreases m,
    {
        let d = ((48 + (m % 10)) as u8) as char;
        proof {
            assert(digits@.push(d).reverse() =~= seq![d] + digits@.reverse());
            assert(spec_decimal(m as int) == spec_decimal(m as int / 10).push(d));
            assert(spec_decimal(m as int / 10).push(d) + digits@.reverse() =~= spec_decimal(
                m as int / 10,
            ) + (seq![d] + digits@.reverse()));
        }
        digits.push(d);
        m = m / 10;
    }
    let first = ((48 + (m % 10)) as u8) as char;
    proof {
        assert(m % 10 == m as int);
        assert(spec_decimal(m as int) =~= seq![first]);
    }

    let mut out = String::new();
    crate::util::push_char(&mut out, first);
    let mut i = digits.len();
    proof {
        assert(out@ =~= seq![first] + digits@.reverse().take(0));
    }
    while i > 0
        invariant
            i <= digits@.len(),
            out@ == seq![first] + digits@.reverse().take(digits@.len() - i),
        decreases i,
    {
        crate::util::push_char(&mut out, digits[i - 1]);
        proof {
            assert(digits@.reverse()[digits@.len() - i] == digits@[i - 1]);
            assert(out@ =~= seq![first] + digits@.reverse().take(digits@.len() - (i - 1)));
        }
        i -= 1;
    }
    proof {
        assert(digits@.reverse().take(digits@.len() as int) =~= digits@.reverse());
        assert(out@ =~= spec_decimal(n as int));
    }
    out
}

/// Keeps the settings selection inside the panel's rows.
pub fn move_settings_selection(selected: usize, delta: isize) -> (r: usize)
    ensures
        r < SETTINGS_FIELD_COUNT,
        r as int == ({
            let current = if selected as int <= SETTINGS_FIELD_COUNT - 1 {
                selected as int
            } else {
                SETTINGS_FIELD_COUNT - 1
            };
            if delta < 0 {
                if current + delta >= 0 {
                    current + delta
                } else {
                    0
                }
            } else {
                if current + delta <= SETTINGS_FIELD_COUNT - 1 {
                    current + delta
                } else {
                    SETTINGS_FIELD_COUNT - 1
                }
            }
        }),
{
    let current = if selected <= SETTINGS_FIELD_COUNT - 1 {
        selected
    } else {
        SETTINGS_FIELD_COUNT - 1
    };
    if delta < 0 {
        let mag: usize = ((-(delta + 1)) as usize) + 1;
        proof {
            assert(mag as int == -(delta as int));
        }
        if mag <= current {
            current - mag
        } else {
            0
        }
    } else {
        let mag = delta as usize;
        if mag <= SETTINGS_FIELD_COUNT - 1 - current {
            current + mag
        } else {
            SETTINGS_FIELD_COUNT - 1
        }
    }
}

/// The diff layout actually used: an explicit choice wins, and the
/// automatic mode splits only when the pane is wide enough.
pub open spec fn spec_resolved_layout(settings: AppSettings, diff_width: u16) -> ResolvedDiffLayout {
    match settings.diff_view_mode {
        DiffViewMode::Split => ResolvedDiffLayout::Split,
        DiffViewMode::Unified => ResolvedDiffLayout::Unified,
        DiffViewMode::Auto => if diff_width >= settings.auto_split_min_width {
            ResolvedDiffLayout::Split
        } else {
            ResolvedDiffLayout::Unified
        },
    }
}

/// Resolves the configured diff layout against the available width.
pub fn resolved_diff_layout(settings: &AppSettings, diff_width: u16) -> (r: ResolvedDiffLayout)
    ensures
        r == spec_resolved_layout(*settings, diff_width),
{
    match settings.diff_view_mode {
        DiffViewMode::Split => ResolvedDiffLayout::Split,
        DiffViewMode::Unified => ResolvedDiffLayout::Unified,
        DiffViewMode::Auto => {
            if diff_width >= settings.auto_split_min_width {
                ResolvedDiffLayout::Split
            } else {
                ResolvedDiffLayout::Unified
            }
        },
    }
}

/// The header hint naming the diff layout, with the automatic mode
/// spelling out what it resolved to.
pub fn diff_mode_hint(settings: &AppSettings, diff_width: u16) -> (r: String)
    ensures
        settings.diff_view_mode == DiffViewMode::Split ==> r@ == "Split"@,
        settings.diff_view_mode == DiffViewMode::Unified ==> r@ == "Unified"@,
        settings.diff_view_mode == DiffViewMode::Auto ==> r@ == "Auto->"@ + spec_resolved_layout(
            *settings,
            diff_width,
        ).label_spec(),
{
    match settings.diff_view_mode {
        DiffViewMode::Auto => {
            let mut out = "Auto->".to_owned();
            match resolved_diff_layout(settings, diff_width) {
                ResolvedDiffLayout::Split => out.append("Split"),
                ResolvedDiffLayout::Unified => out.append("Unified"),
            }
            out
        },
        DiffViewMode::Split => "Split".to_owned(),
        DiffViewMode::Unified => "Unified".to_owned(),
    }
}

/// What adjusting one settings row does: which field it changes and
/// the status text that reports it.
pub open spec fn spec_adjusted(settings: AppSettings, selected: int, delta: int) -> AppSettings {
    if selected == 0 {
        AppSettings {
            diff_view_mode: DiffViewMode::from_index_spec(
                (settings.diff_view_mode.index_spec() + spec_cycle_shift(3, delta)) % 3,
            ),
            ..settings
        }
    } else if selected == 1 {
        AppSettings { sidebar_visible: !settings.sidebar_visible, ..settings }
    } else if selected == 2 {
        AppSettings {
            sidebar_position: SidebarPosition::from_index_spec(
                (settings.sidebar_position.index_spec() + spec_cycle_shift(2, delta)) % 2,
            ),
            ..settings
        }
    } else if selected == 3 {
        AppSettings {
            sidebar_width: crate::util::shift_and_clamp_spec(
                settings.sidebar_width,
                delta,
                2,
                SIDEBAR_WIDTH_MIN,
                SIDEBAR_WIDTH_MAX,
            ) as u16,
            ..settings
        }
    } else if selected == 4 {
        AppSettings {
            auto_split_min_width: crate::util::shift_and_clamp_spec(
                settings.auto_split_min_width,
                delta,
                4,
                AUTO_SPLIT_MIN_WIDTH_MIN,
                AUTO_SPLIT_MIN_WIDTH_MAX,
            ) as u16,
            ..settings
        }
    } else if selected == 5 {
        AppSettings {
            theme: AppTheme::from_index_spec(
                (settings.theme.index_spec() + spec_cycle_shift(4, delta)) % 4,
            ),
            ..settings
        }
    } else {
        settings
    }
}

/// Adjusts the selected settings row by a signed step and reports
/// what changed as status text.
pub fn adjust_setting(settings: &mut AppSettings, selected: usize, delta: isize) -> (r: String)
    ensures
        *final(settings) == spec_adjusted(*old(settings), selected as int, delta as int),
        selected == 0 ==> r@ == "Diff view: "@ + final(settings).diff_view_mode.label_spec(),
        selected == 1 ==> r@ == (if final(settings).sidebar_visible {
            "Sidebar shown"@
        } else {
            "Sidebar hidden"@
        }),
        selected == 2 ==> r@ == "Sidebar side: "@ + final(settings).sidebar_position.label_spec(),
        selected == 3 ==> r@ == "Sidebar width: "@ + spec_decimal(
            final(settings).sidebar_width as int,
        ),
        selected == 4 ==> r@ == "Auto split min width: "@ + spec_decimal(
            final(settings).auto_split_min_width as int,
        ),
        selected == 5 ==> r@ == "Theme: "@ + final(settings).theme.label_spec(),
        selected > 5 ==> r@ == Seq::<char>::empty(),
{
    if selected == 0 {
        settings.diff_view_mode = settings.diff_view_mode.cycle(delta);
        let mut out = "Diff view: ".to_owned();
        out.append(settings.diff_view_mode.label());
        out
    } else if selected == 1 {
        settings.sidebar_visible = !settings.sidebar_visible;
        if settings.sidebar_visible {
            "Sidebar shown".to_owned()
        } else {
            "Sidebar hidden".to_owned()
        }
    } else if selected == 2 {
        settings.sidebar_position = settings.sidebar_position.cycle(delta);
        let mut out = "Sidebar side: ".to_owned();
        out.append(settings.sidebar_position.label());
        out
    } else if selected == 3 {
        settings.sidebar_width = crate::util::shift_and_clamp_u16(
            settings.sidebar_width,
            delta,
            2,
            SIDEBAR_WIDTH_MIN,
            SIDEBAR_WIDTH_MAX,
        );
        let mut out = "Sidebar width: ".to_owned();
        out.append(u16_to_decimal(settings.sidebar_width).as_str());
        out
    } else if selected == 4 {
        settings.auto_split_min_width = crate::util::shift_and_clamp_u16(
            settings.auto_split_min_width,
            delta,
            4,
            AUTO_SPLIT_MIN_WIDTH_MIN,
            AUTO_SPLIT_MIN_WIDTH_MAX,
        );
        let mut out = "Auto split min width: ".to_owned();
        out.append(u16_to_decimal(settings.auto_split_min_width).as_str());
        out
    } else if selected == 5 {
        settings.theme = settings.theme.cycle(delta);
        let mut out = "Theme: ".to_owned();
        out.append(settings.theme.label());
        out
    } else {
        String::new()
    }
}

/// The rows the settings panel shows: each field's name and its
/// current value as text.
pub fn settings_rows(settings: &AppSettings) -> (r: Vec<(&'static str, String)>)
    ensures
        r@.len() == SETTINGS_FIELD_COUNT,
        r@[0].1@ == settings.diff_view_mode.label_spec(),
        r@[1].1@ == (if settings.sidebar_visible {
            "Yes"@
        } else {
            "No"@
        }),
        r@[2].1@ == settings.sidebar_position.label_spec(),
        r@[3].1@ == spec_decimal(settings.sidebar_width as int),
        r@[4].1@ == spec_decimal(settings.auto_split_min_width as int),
        r@[5].1@ == settings.theme.label_spec(),
{
    let mut out: Vec<(&'static str, String)> = Vec::new();
    out.push(("Diff Layout", settings.diff_view_mode.label().to_owned()));
    out.push(
        (
            "Sidebar Visible",
            if settings.sidebar_visible {
                "Yes".to_owned()
            } else {
                "No".to_owned()
            },
        ),
    );
    out.push(("Sidebar Side", settings.sidebar_position.label().to_owned()));
    out.push(("Sidebar Width", u16_to_decimal(settings.sidebar_width)));
    out.push(("Auto Split Min Width", u16_to_decimal(settings.auto_split_min_width)));
    out.push(("Theme", settings.theme.label().to_owned()));
    out
}

} // verus!
