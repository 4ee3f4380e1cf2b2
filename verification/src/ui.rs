//! Pure layout helpers of the interface: flattening diff rows into
//! unified lines, sizing line-number gutters, fitting the footer text
//! into its width, and the colour palettes of the themes.

use vstd::prelude::*;
use crate::diff::{CellKind, DiffRow, RowModel, row_models, row_model};
use crate::settings::AppTheme;

verus! {

/// One line of the unified diff view.
#[derive(Debug, Clone, PartialEq, Eq)]
pub struct UnifiedLine {
    pub old_no: Option<usize>,
    pub new_no: Option<usize>,
    pub text: String,
    pub kind: CellKind,
    pub marker: char,
}

/// The mathematical shape of a unified line.
pub struct UnifiedLineModel {
    pub old_no: Option<int>,
    pub new_no: Option<int>,
    pub text: Seq<char>,
    pub kind: CellKind,
    pub marker: char,
}

/// The model of a unified line value.
pub open spec fn uline_model(l: UnifiedLine) -> UnifiedLineModel {
    UnifiedLineModel {
        old_no: match l.old_no {
            Some(n) => Some(n as int),
            None => None,
        },
        new_no: match l.new_no {
            Some(n) => Some(n as int),
            None => None,
        },
        text: l.text@,
        kind: l.kind,
        marker: l.marker,
    }
}

/// The models of a vector of unified lines.
pub open spec fn uline_models(s: Seq<UnifiedLine>) -> Seq<UnifiedLineModel> {
    s.map_values(|l: UnifiedLine| uline_model(l))
}

/// The marker column character of a cell kind: `+` for additions, `-`
/// for removals, a space otherwise.
pub open spec fn spec_marker_for_kind(kind: CellKind) -> char {
    match kind {
        CellKind::Added => '+',
        CellKind::Removed => '-',
        CellKind::Context => ' ',
        CellKind::Meta => ' ',
    }
}

/// Maps a cell kind to its marker column character.
pub fn marker_for_kind(kind: CellKind) -> (r: char)
    ensures
        r == spec_marker_for_kind(kind),
{
    match kind {
        CellKind::Added => '+',
        CellKind::Removed => '-',
        CellKind::Context => ' ',
        CellKind::Meta => ' ',
    }
}

/// The unified lines one diff row becomes: a removed/added pair turns
/// into two lines, a metadata row into one, an ordinary row into one
/// line showing the newer side, and a one-sided row into its only
/// side.
pub open spec fn unified_of_row(r: RowModel) -> Seq<UnifiedLineModel> {
    match (r.old, r.new) {
        (Some(o), Some(n)) => {
            if o.kind == CellKind::Removed && n.kind == CellKind::Added {
                seq![
                    UnifiedLineModel {
                        old_no: o.line_no,
                        new_no: None,
                        text: o.text,
                        kind: CellKind::Removed,
                        marker: '-',
                    },
                    UnifiedLineModel {
                        old_no: None,
                        new_no: n.line_no,
                        text: n.text,
                        kind: CellKind::Added,
                        marker: '+',
                    },
                ]
            } else if o.kind == CellKind::Meta || n.kind == CellKind::Meta {
                seq![
                    UnifiedLineModel {
                        old_no: None,
                        new_no: None,
                        text: if o.text.len() > 0 {
                            o.text
                        } else {
                            n.text
                        },
                        kind: CellKind::Meta,
                        marker: ' ',
                    },
                ]
            } else {
                seq![
                    UnifiedLineModel {
                        old_no: o.line_no,
                        new_no: n.line_no,
                        text: n.text,
                        kind: n.kind,
                        marker: spec_marker_for_kind(n.kind),
                    },
                ]
            }
        },
        (Some(o), None) => seq![
            UnifiedLineModel {
                old_no: o.line_no,
                new_no: None,
                text: o.text,
                kind: o.kind,
                marker: spec_marker_for_kind(o.kind),
            },
        ],
        (None, Some(n)) => seq![
            UnifiedLineModel {
                old_no: None,
                new_no: n.line_no,
                text: n.text,
                kind: n.kind,
                marker: spec_marker_for_kind(n.kind),
            },
        ],
        (None, None) => seq![],
    }
}

/// The unified lines of a whole sequence of rows, in order.
pub open spec fn unified_lines_spec(rows: Seq<RowModel>) -> Seq<UnifiedLineModel>
    decreases rows.len(),
{
    if rows.len() == 0 {
        seq![]
    } else {
        unified_of_row(rows.first()) + unified_lines_spec(rows.drop_first())
    }
}

/// Appending one row appends its unified lines.
proof fn lemma_unified_snoc(rows: Seq<RowModel>, i: int)
    requires
        0 <= i < rows.len(),
    ensures
        unified_lines_spec(rows.take(i + 1)) =~= unified_lines_spec(rows.take(i))
            + unified_of_row(rows[i]),
    decreases i,
{
    if i == 0 {
        assert(rows.take(1).first() == rows[0]);
        assert(rows.take(1).drop_first() =~= rows.take(0));
        assert(rows.take(0) =~= Seq::<RowModel>::empty());
        assert(unified_lines_spec(rows.take(0)) =~= Seq::<UnifiedLineModel>::empty());
        assert(unified_lines_spec(rows.take(1)) =~= unified_of_row(rows[0]) + unified_lines_spec(
            rows.take(0),
        ));
    } else {
        let tail = rows.drop_first();
        lemma_unified_snoc(tail, i - 1);
        assert(rows.take(i + 1).first() == rows.first());
        assert(rows.take(i + 1).drop_first() =~= tail.take(i));
        assert(rows.take(i).first() == rows.first());
        assert(rows.take(i).drop_first() =~= tail.take(i - 1));
        assert(tail[i - 1] == rows[i]);
        assert(unified_lines_spec(rows.take(i + 1)) =~= unified_of_row(rows.first())
            + unified_lines_spec(tail.take(i)));
        assert(unified_lines_spec(rows.take(i)) =~= unified_of_row(rows.first())
            + unified_lines_spec(tail.take(i - 1)));
    }
}

/// Flattens diff rows into the lines of the unified view.
pub fn collect_unified_lines(rows: &[DiffRow]) -> (r: Vec<UnifiedLine>)
    ensures
        uline_models(r@) == unified_lines_spec(row_models(rows@)),
{
    let n = rows.len();
    let ghost rm = row_models(rows@);
    let mut out: Vec<UnifiedLine> = Vec::new();
    proof {
        assert(rm.take(0) =~= Seq::<RowModel>::empty());
        assert(uline_models(out@) =~= unified_lines_spec(rm.take(0)));
    }
    let mut i: usize = 0;
    while i < n
        invariant
            i <= n,
            n == rows@.len(),
            rm == row_models(rows@),
            uline_models(out@) == unified_lines_spec(rm.take(i as int)),
        decreases n - i,
    {
        proof {
            lemma_unified_snoc(rm, i as int);
            assert(rm[i as int] == row_model(rows@[i as int]));
        }
        let row = &rows[i];
        match (&row.old, &row.new) {
            (Some(o), Some(nw)) => {
                let removed_added = (match o.kind {
                    CellKind::Removed => true,
                    _ => false,
                }) && (match nw.kind {
                    CellKind::Added => true,
                    _ => false,
                });
                let has_meta = (match o.kind {
                    CellKind::Meta => true,
                    _ => false,
                }) || (match nw.kind {
                    CellKind::Meta => true,
                    _ => false,
                });
                if removed_added {
                    let first = UnifiedLine {
                        old_no: o.line_no,
                        new_no: None,
                        text: o.text.clone(),
                        kind: CellKind::Removed,
                        marker: '-',
                    };
                    let second = UnifiedLine {
                        old_no: None,
                        new_no: nw.line_no,
                        text: nw.text.clone(),
                        kind: CellKind::Added,
                        marker: '+',
                    };
                    proof {
                        assert(uline_models(out@.push(first).push(second)) =~= uline_models(out@)
                            .push(uline_model(first)).push(uline_model(second)));
                    }
                    out.push(first);
                    out.push(second);
                } else if has_meta {
                    let text = if !o.text.as_str().is_empty() {
                        o.text.clone()
                    } else {
                        nw.text.clone()
                    };
                    let line = UnifiedLine {
                        old_no: None,
                        new_no: None,
                        text,
                        kind: CellKind::Meta,
                        marker: ' ',
                    };
                    proof {
                        assert(uline_models(out@.push(line)) =~= uline_models(out@).push(
                            uline_model(line),
                        ));
                    }
                    out.push(line);
                } else {
                    let line = UnifiedLine {
                        old_no: o.line_no,
                        new_no: nw.line_no,
                        text: nw.text.clone(),
                        kind: nw.kind,
                        marker: marker_for_kind(nw.kind),
                    };
                    proof {
                        assert(uline_models(out@.push(line)) =~= uline_models(out@).push(
                            uline_model(line),
                        ));
                    }
                    out.push(line);
                }
            },
            (Some(o), None) => {
                let line = UnifiedLine {
                    old_no: o.line_no,
                    new_no: None,
                    text: o.text.clone(),
                    kind: o.kind,
                    marker: marker_for_kind(o.kind),
                };
                proof {
                    assert(uline_models(out@.push(line)) =~= uline_models(out@).push(
                        uline_model(line),
                    ));
                }
                out.push(line);
            },
            (None, Some(nw)) => {
                let line = UnifiedLine {
                    old_no: None,
                    new_no: nw.line_no,
                    text: nw.text.clone(),
                    kind: nw.kind,
                    marker: marker_for_kind(nw.kind),
                };
                proof {
                    assert(uline_models(out@.push(line)) =~= uline_models(out@).push(
                        uline_model(line),
                    ));
                }
                out.push(line);
            },
            (None, None) => {},
        }
        i += 1;
    }
    proof {
        assert(rm.take(n as int) =~= rm);
    }
    out
}

/// How many lines the unified view of these rows holds, capped at the
/// top of the type.
pub fn unified_line_count(rows: &[DiffRow]) -> (r: usize)
    ensures
        r as int == ({
            let total = unified_lines_spec(row_models(rows@)).len() as int;
            if total <= usize::MAX {
                total
            } else {
                usize::MAX as int
            }
        }),
{
    let n = rows.len();
    let ghost rm = row_models(rows@);
    let mut count: usize = 0;
    proof {
        assert(rm.take(0) =~= Seq::<RowModel>::empty());
        assert(unified_lines_spec(rm.take(0)) =~= Seq::<UnifiedLineModel>::empty());
    }
    let mut i: usize = 0;
    while i < n
        invariant
            i <= n,
            n == rows@.len(),
            rm == row_models(rows@),
            count as int == ({
                let sofar = unified_lines_spec(rm.take(i as int)).len() as int;
                if sofar <= usize::MAX {
                    sofar
                } else {
                    usize::MAX as int
                }
            }),
        decreases n - i,
    {
        proof {
            lemma_unified_snoc(rm, i as int);
            assert(rm[i as int] == row_model(rows@[i as int]));
        }
        let row = &rows[i];
        let add: usize = match (&row.old, &row.new) {
            (Some(o), Some(nw)) => {
                let removed_added = (match o.kind {
                    CellKind::Removed => true,
                    _ => false,
                }) && (match nw.kind {
                    CellKind::Added => true,
                    _ => false,
                });
                if removed_added {
                    2
                } else {
                    1
                }
            },
            (None, None) => 0,
            _ => 1,
        };
        count = if count <= usize::MAX - add {
            count + add
        } else {
            usize::MAX
        };
        i += 1;
    }
    proof {
        assert(rm.take(n as int) =~= rm);
    }
    count
}

/// A count squeezed into sixteen bits, saturating at the top.
pub fn to_u16(value: usize) -> (r: u16)
    ensures
        value <= u16::MAX ==> r == value,
        value > u16::MAX ==> r == u16::MAX,
{
    if value > 65535 {
        65535
    } else {
        value as u16
    }
}

/// Text cut to a width, with a three-dot ellipsis when it was longer;
/// very narrow widths become all dots.
pub open spec fn spec_truncate_ellipsis(text: Seq<char>, max: int) -> Seq<char> {
    if max <= 0 {
        Seq::empty()
    } else if text.len() <= max {
        text
    } else if max <= 3 {
        Seq::new(max as nat, |i: int| '.')
    } else {
        text.take(max - 3) + seq!['.', '.', '.']
    }
}

/// The truncated text never exceeds the width.
pub proof fn lemma_truncate_len(text: Seq<char>, max: int)
    ensures
        spec_truncate_ellipsis(text, max).len() <= (if max >= 0 {
            max
        } else {
            0
        }),
{
}

/// Cuts text to a character width, appending an ellipsis when it had
/// to shorten it.
pub fn truncate_with_ellipsis(text: &str, max_width: usize) -> (r: String)
    ensures
        r@ == spec_truncate_ellipsis(text@, max_width as int),
{
    if max_width == 0 {
        return String::new();
    }
    let tlen = text.unicode_len();
    if tlen <= max_width {
        return text.to_owned();
    }
    if max_width <= 3 {
        let mut dots = String::new();
        let mut i: usize = 0;
        while i < max_width
            invariant
                i <= max_width,
                dots@ == Seq::new(i as nat, |k: int| '.'),
            decreases max_width - i,
        {
            crate::util::push_char(&mut dots, '.');
            proof {
                assert(dots@ =~= Seq::new((i + 1) as nat, |k: int| '.'));
            }
            i += 1;
        }
        return dots;
    }
    let mut out = text.substring_char(0, max_width - 3).to_owned();
    crate::util::push_char(&mut out, '.');
    crate::util::push_char(&mut out, '.');
    crate::util::push_char(&mut out, '.');
    proof {
        assert(out@ =~= text@.take(max_width - 3) + seq!['.', '.', '.']);
    }
    out
}

/// The views of a slice of strings.
pub open spec fn hint_views(s: Seq<String>) -> Seq<Seq<char>> {
    s.map_values(|x: String| x@)
}

/// The first hint whose character count fits the limit, if any.
pub open spec fn first_fit(hints: Seq<Seq<char>>, limit: int) -> Option<Seq<char>>
    decreases hints.len(),
{
    if hints.len() == 0 {
        None
    } else if hints.first().len() <= limit {
        Some(hints.first())
    } else {
        first_fit(hints.drop_first(), limit)
    }
}

/// Finds the first hint fitting within `limit` characters.
fn first_fit_exec(hints: &[String], limit: usize) -> (r: Option<usize>)
    ensures
        match r {
            Some(i) => i < hints@.len() && first_fit(hint_views(hints@), limit as int) == Some(
                hints@[i as int]@,
            ),
            None => first_fit(hint_views(hints@), limit as int) is None,
        },
{
    let n = hints.len();
    let ghost hv = hint_views(hints@);
    proof {
        assert(hv.skip(0) =~= hv);
    }
    let mut i: usize = 0;
    while i < n
        invariant
            i <= n,
            n == hints@.len(),
            hv == hint_views(hints@),
            first_fit(hv, limit as int) == first_fit(hv.skip(i as int), limit as int),
        decreases n - i,
    {
        proof {
            assert(hv.skip(i as int).first() == hv[i as int]);
            assert(hv[i as int] == hints@[i as int]@);
            assert(hv.skip(i as int).drop_first() =~= hv.skip(i + 1));
        }
        if hints[i].as_str().unicode_len() <= limit {
            return Some(i);
        }
        i += 1;
    }
    proof {
        assert(hv.skip(n as int) =~= Seq::<Seq<char>>::empty());
    }
    None
}

/// How the footer splits its width between the status text and a hint:
/// the status keeps its full text when a hint variant fits beside it;
/// otherwise the status is cut to a budget of just under half the
/// width and the first fitting (or first, truncated) hint takes the
/// rest; when nothing reasonable fits, the truncated status stands
/// alone.
pub open spec fn spec_fit_footer(status: Seq<char>, hints: Seq<Seq<char>>, width: int) -> (
    Seq<char>,
    Seq<char>,
) {
    if width == 0 {
        (Seq::empty(), Seq::empty())
    } else if status.len() >= width {
        (spec_truncate_ellipsis(status, width), Seq::empty())
    } else {
        match first_fit(hints, width - status.len() - 3) {
            Some(h) => (status, h),
            None => {
                if hints.len() == 0 || width <= 19 {
                    (spec_truncate_ellipsis(status, width), Seq::empty())
                } else {
                    let budget0 = width * 45 / 100;
                    let budget = if budget0 < 8 {
                        8
                    } else if budget0 > width - 11 {
                        width - 11
                    } else {
                        budget0
                    };
                    let status_part = spec_truncate_ellipsis(status, budget);
                    let hint_budget = width - status_part.len() - 3;
                    if hint_budget < 8 {
                        (spec_truncate_ellipsis(status, width), Seq::empty())
                    } else {
                        let hint_part = match first_fit(hints, hint_budget) {
                            Some(h) => h,
                            None => spec_truncate_ellipsis(hints[0], hint_budget),
                        };
                        (status_part, hint_part)
                    }
                }
            },
        }
    }
}

/// Splits the footer width between the status text and a hint, so
/// that what is shown never exceeds the width.
pub fn fit_footer_parts(status: &str, hint_variants: &[String], width: usize) -> (r: (
    String,
    String,
))
    ensures
        r.0@ == spec_fit_footer(status@, hint_views(hint_variants@), width as int).0,
        r.1@ == spec_fit_footer(status@, hint_views(hint_variants@), width as int).1,
{
    if width == 0 {
        return (String::new(), String::new());
    }

    let status_len = status.unicode_len();
    if status_len >= width {
        return (truncate_with_ellipsis(status, width), String::new());
    }

    let head_limit = width - status_len;
    if head_limit >= 3 {
        match first_fit_exec(hint_variants, head_limit - 3) {
            Some(i) => {
                return (status.to_owned(), hint_variants[i].clone());
            },
            None => {},
        }
    } else {
        proof {
            lemma_first_fit_negative(hint_views(hint_variants@), width - status@.len() - 3);
        }
    }

    if hint_variants.len() == 0 || width <= 19 {
        return (truncate_with_ellipsis(status, width), String::new());
    }

    let budget0 = ((width as u128) * 45 / 100) as usize;
    proof {
        assert((width as u128) * 45 / 100 <= width as u128) by (nonlinear_arith);
        assert(budget0 as int == width as int * 45 / 100);
    }
    let budget = if budget0 < 8 {
        8
    } else if budget0 > width - 11 {
        width - 11
    } else {
        budget0
    };

    let status_part = truncate_with_ellipsis(status, budget);
    let part_len = status_part.as_str().unicode_len();
    proof {
        lemma_truncate_len(status@, budget as int);
    }
    let hint_budget = width - part_len - 3;
    if hint_budget < 8 {
        return (truncate_with_ellipsis(status, width), String::new());
    }

    let hint_part = match first_fit_exec(hint_variants, hint_budget) {
        Some(i) => hint_variants[i].clone(),
        None => truncate_with_ellipsis(hint_variants[0].as_str(), hint_budget),
    };
    proof {
        assert(hint_views(hint_variants@)[0] == hint_variants@[0]@);
    }
    (status_part, hint_part)
}

/// No hint fits a negative limit.
proof fn lemma_first_fit_negative(hints: Seq<Seq<char>>, limit: int)
    requires
        limit < 0,
    ensures
        first_fit(hints, limit) is None,
    decreases hints.len(),
{
    if hints.len() > 0 {
        lemma_first_fit_negative(hints.drop_first(), limit);
    }
}

/// The number of decimal digits of a non-negative number.
pub open spec fn dec_digits(n: int) -> int
    decreases n,
{
    if n < 10 {
        1
    } else {
        1 + dec_digits(n / 10)
    }
}

/// Powers of ten.
pub open spec fn pow10(k: nat) -> int
    decreases k,
{
    if k == 0 {
        1
    } else {
        10 * pow10((k - 1) as nat)
    }
}

/// A number below the k-th power of ten has at most k digits.
proof fn lemma_dec_digits_lt_pow(n: int, k: nat)
    requires
        1 <= k,
        0 <= n < pow10(k),
    ensures
        dec_digits(n) <= k,
    decreases k,
{
    if n >= 10 {
        assert(pow10(k) == 10 * pow10((k - 1) as nat));
        assert(n / 10 < pow10((k - 1) as nat)) by (nonlinear_arith)
            requires
                n < 10 * pow10((k - 1) as nat),
                n >= 0,
        ;
        assert(k >= 2) by {
            if k == 1 {
                assert(pow10(1nat) == 10);
            }
        }
        lemma_dec_digits_lt_pow(n / 10, (k - 1) as nat);
    }
}

/// Digit counts are at least one.
proof fn lemma_dec_digits_pos(n: int)
    ensures
        dec_digits(n) >= 1,
    decreases n,
{
    if n >= 10 {
        lemma_dec_digits_pos(n / 10);
    }
}

/// Every machine-sized number has at most twenty digits.
proof fn lemma_dec_digits_usize(n: int)
    requires
        0 <= n <= usize::MAX,
    ensures
        1 <= dec_digits(n) <= 20,
{
    reveal_with_fuel(pow10, 21);
    assert(pow10(20nat) == 100000000000000000000int);
    lemma_dec_digits_lt_pow(n, 20nat);
    lemma_dec_digits_pos(n);
}

/// Counts the decimal digits of a number.
fn dec_digits_exec(n: usize) -> (r: usize)
    ensures
        r as int == dec_digits(n as int),
{
    let mut m = n;
    let mut w: usize = 1;
    proof {
        lemma_dec_digits_usize(n as int);
    }
    while m >= 10
        invariant
            w >= 1,
            m <= n,
            w - 1 + dec_digits(m as int) == dec_digits(n as int),
            dec_digits(n as int) <= 20,
            dec_digits(m as int) >= 1,
        decreases m,
    {
        proof {
            lemma_dec_digits_usize(m as int / 10);
        }
        m = m / 10;
        w += 1;
    }
    w
}

/// The largest line number shown on one side of the rows, if any.
pub open spec fn max_side_line_no(rows: Seq<RowModel>, old_side: bool) -> Option<int>
    decreases rows.len(),
{
    if rows.len() == 0 {
        None
    } else {
        let prev = max_side_line_no(rows.drop_last(), old_side);
        let cell = if old_side {
            rows.last().old
        } else {
            rows.last().new
        };
        let cur = match cell {
            Some(c) => c.line_no,
            None => None,
        };
        match (prev, cur) {
            (Some(a), Some(b)) => if a >= b {
                Some(a)
            } else {
                Some(b)
            },
            (Some(a), None) => Some(a),
            (None, Some(b)) => Some(b),
            (None, None) => None,
        }
    }
}

/// The width of the line-number gutter for one side: the digit count
/// of the largest line number, at least one column.
pub fn line_number_width(rows: &[DiffRow], old_side: bool) -> (r: usize)
    ensures
        r as int == dec_digits(
            match max_side_line_no(row_models(rows@), old_side) {
                Some(v) => v,
                None => 1,
            },
        ),
{
    let n = rows.len();
    let ghost rm = row_models(rows@);
    let mut best: Option<usize> = None;
    proof {
        assert(rm.take(0) =~= Seq::<RowModel>::empty());
    }
    let mut i: usize = 0;
    while i < n
        invariant
            i <= n,
            n == rows@.len(),
            rm == row_models(rows@),
            (match (best, max_side_line_no(rm.take(i as int), old_side)) {
                (Some(a), Some(b)) => a as int == b,
                (None, None) => true,
                _ => false,
            }),
        decreases n - i,
    {
        proof {
            assert(rm.take(i + 1).drop_last() =~= rm.take(i as int));
            assert(rm.take(i + 1).last() == rm[i as int]);
            assert(rm[i as int] == row_model(rows@[i as int]));
        }
        let row = &rows[i];
        let cell = if old_side {
            &row.old
        } else {
            &row.new
        };
        let cur: Option<usize> = match cell {
            Some(c) => c.line_no,
            None => None,
        };
        best = match (best, cur) {
            (Some(a), Some(b)) => if a >= b {
                Some(a)
            } else {
                Some(b)
            },
            (Some(a), None) => Some(a),
            (None, Some(b)) => Some(b),
            (None, None) => None,
        };
        i += 1;
    }
    proof {
        assert(rm.take(n as int) =~= rm);
    }
    match best {
        Some(v) => dec_digits_exec(v),
        None => dec_digits_exec(1),
    }
}

/// The colour palette of a theme: every colour the renderer needs, as
/// RGB triples.
#[derive(Debug, Clone, Copy, PartialEq, Eq)]
pub struct Palette {
    pub pane_bg: (u8, u8, u8),
    pub meta_bg: (u8, u8, u8),
    pub added_bg: (u8, u8, u8),
    pub removed_bg: (u8, u8, u8),
    pub text: (u8, u8, u8),
    pub dim: (u8, u8, u8),
    pub line_no: (u8, u8, u8),
    pub marker_add: (u8, u8, u8),
    pub marker_remove: (u8, u8, u8),
    pub marker_context: (u8, u8, u8),
    pub border: (u8, u8, u8),
    pub border_focus: (u8, u8, u8),
    pub selected_bg_focused: (u8, u8, u8),
    pub selected_bg_unfocused: (u8, u8, u8),
    pub untracked: (u8, u8, u8),
    pub footer: (u8, u8, u8),
    pub modal_bg: (u8, u8, u8),
    pub modal_border: (u8, u8, u8),
    pub modal_selected_bg: (u8, u8, u8),
    pub status_warn: (u8, u8, u8),
    pub status_error: (u8, u8, u8),
}

/// The palette each theme uses.
pub open spec fn spec_palette_for(theme: AppTheme) -> Palette {
    match theme {
        AppTheme::Ocean => Palette {
            pane_bg: (17, 20, 27),
            meta_bg: (35, 39, 47),
            added_bg: (21, 50, 36),
            removed_bg: (68, 30, 36),
            text: (224, 228, 236),
            dim: (136, 144, 160),
            line_no: (124, 132, 150),
            marker_add: (136, 216, 152),
            marker_remove: (232, 130, 140),
            marker_context: (136, 144, 160),
            border: (82, 90, 108),
            border_focus: (230, 185, 90),
            selected_bg_focused: (60, 70, 92),
            selected_bg_unfocused: (46, 55, 72),
            untracked: (122, 204, 194),
            footer: (124, 132, 146),
            modal_bg: (24, 28, 37),
            modal_border: (150, 158, 176),
            modal_selected_bg: (63, 75, 101),
            status_warn: (230, 185, 90),
            status_error: (232, 130, 140),
        },
        AppTheme::Eighties => Palette {
            pane_bg: (22, 20, 27),
            meta_bg: (40, 36, 48),
            added_bg: (25, 50, 41),
            removed_bg: (72, 33, 46),
            text: (232, 226, 240),
            dim: (152, 143, 167),
            line_no: (140, 132, 157),
            marker_add: (152, 218, 168),
            marker_remove: (236, 146, 162),
            marker_context: (152, 143, 167),
            border: (96, 87, 114),
            border_focus: (236, 194, 108),
            selected_bg_focused: (74, 65, 95),
            selected_bg_unfocused: (60, 52, 78),
            untracked: (132, 212, 198),
            footer: (140, 132, 154),
            modal_bg: (30, 27, 38),
            modal_border: (167, 156, 188),
            modal_selected_bg: (77, 68, 100),
            status_warn: (236, 194, 108),
            status_error: (236, 146, 162),
        },
        AppTheme::Solarized => Palette {
            pane_bg: (0, 43, 54),
            meta_bg: (7, 54, 66),
            added_bg: (20, 71, 51),
            removed_bg: (95, 46, 50),
            text: (238, 232, 213),
            dim: (147, 161, 161),
            line_no: (131, 148, 150),
            marker_add: (133, 199, 167),
            marker_remove: (220, 144, 138),
            marker_context: (147, 161, 161),
            border: (88, 110, 117),
            border_focus: (203, 165, 80),
            selected_bg_focused: (26, 73, 85),
            selected_bg_unfocused: (18, 62, 73),
            untracked: (126, 204, 183),
            footer: (131, 148, 150),
            modal_bg: (3, 48, 60),
            modal_border: (148, 163, 164),
            modal_selected_bg: (28, 77, 91),
            status_warn: (203, 165, 80),
            status_error: (220, 144, 138),
        },
        AppTheme::Monokai => Palette {
            pane_bg: (30, 31, 28),
            meta_bg: (43, 44, 40),
            added_bg: (36, 67, 43),
            removed_bg: (79, 40, 45),
            text: (248, 248, 242),
            dim: (152, 152, 141),
            line_no: (132, 134, 126),
            marker_add: (166, 226, 146),
            marker_remove: (249, 122, 132),
            marker_context: (152, 152, 141),
            border: (93, 94, 87),
            border_focus: (253, 200, 97),
            selected_bg_focused: (63, 64, 57),
            selected_bg_unfocused: (52, 53, 47),
            untracked: (120, 220, 190),
            footer: (140, 141, 133),
            modal_bg: (36, 37, 33),
            modal_border: (164, 165, 157),
            modal_selected_bg: (70, 71, 63),
            status_warn: (253, 200, 97),
            status_error: (249, 122, 132),
        },
    }
}

/// Resolves a theme to its colour palette.
pub fn palette_for(theme: AppTheme) -> (r: Palette)
    ensures
        r == spec_palette_for(theme),
{
    match theme {
        AppTheme::Ocean => Palette {
            pane_bg: (17, 20, 27),
            meta_bg: (35, 39, 47),
            added_bg: (21, 50, 36),
            removed_bg: (68, 30, 36),
            text: (224, 228, 236),
            dim: (136, 144, 160),
            line_no: (124, 132, 150),
            marker_add: (136, 216, 152),
            marker_remove: (232, 130, 140),
            marker_context: (136, 144, 160),
            border: (82, 90, 108),
            border_focus: (230, 185, 90),
            selected_bg_focused: (60, 70, 92),
            selected_bg_unfocused: (46, 55, 72),
            untracked: (122, 204, 194),
            footer: (124, 132, 146),
            modal_bg: (24, 28, 37),
            modal_border: (150, 158, 176),
            modal_selected_bg: (63, 75, 101),
            status_warn: (230, 185, 90),
            status_error: (232, 130, 140),
        },
        AppTheme::Eighties => Palette {
            pane_bg: (22, 20, 27),
            meta_bg: (40, 36, 48),
            added_bg: (25, 50, 41),
            removed_bg: (72, 33, 46),
            text: (232, 226, 240),
            dim: (152, 143, 167),
            line_no: (140, 132, 157),
            marker_add: (152, 218, 168),
            marker_remove: (236, 146, 162),
            marker_context: (152, 143, 167),
            border: (96, 87, 114),
            border_focus: (236, 194, 108),
            selected_bg_focused: (74, 65, 95),
            selected_bg_unfocused: (60, 52, 78),
            untracked: (132, 212, 198),
            footer: (140, 132, 154),
            modal_bg: (30, 27, 38),
            modal_border: (167, 156, 188),
            modal_selected_bg: (77, 68, 100),
            status_warn: (236, 194, 108),
            status_error: (236, 146, 162),
        },
        AppTheme::Solarized => Palette {
            pane_bg: (0, 43, 54),
            meta_bg: (7, 54, 66),
            added_bg: (20, 71, 51),
            removed_bg: (95, 46, 50),
            text: (238, 232, 213),
            dim: (147, 161, 161),
            line_no: (131, 148, 150),
            marker_add: (133, 199, 167),
            marker_remove: (220, 144, 138),
            marker_context: (147, 161, 161),
            border: (88, 110, 117),
            border_focus: (203, 165, 80),
            selected_bg_focused: (26, 73, 85),
            selected_bg_unfocused: (18, 62, 73),
            untracked: (126, 204, 183),
            footer: (131, 148, 150),
            modal_bg: (3, 48, 60),
            modal_border: (148, 163, 164),
            modal_selected_bg: (28, 77, 91),
            status_warn: (203, 165, 80),
            status_error: (220, 144, 138),
        },
        AppTheme::Monokai => Palette {
            pane_bg: (30, 31, 28),
            meta_bg: (43, 44, 40),
            added_bg: (36, 67, 43),
            removed_bg: (79, 40, 45),
            text: (248, 248, 242),
            dim: (152, 152, 141),
            line_no: (132, 134, 126),
            marker_add: (166, 226, 146),
            marker_remove: (249, 122, 132),
            marker_context: (152, 152, 141),
            border: (93, 94, 87),
            border_focus: (253, 200, 97),
            selected_bg_focused: (63, 64, 57),
            selected_bg_unfocused: (52, 53, 47),
            untracked: (120, 220, 190),
            footer: (140, 141, 133),
            modal_bg: (36, 37, 33),
            modal_border: (164, 165, 157),
            modal_selected_bg: (70, 71, 63),
            status_warn: (253, 200, 97),
            status_error: (249, 122, 132),
        },
    }
}

/// The background colour a cell kind is drawn with; an absent cell
/// uses the plain pane background.
pub open spec fn spec_background_for_kind(kind: Option<CellKind>, palette: Palette) -> (
    u8,
    u8,
    u8,
) {
    match kind {
        Some(CellKind::Added) => palette.added_bg,
        Some(CellKind::Removed) => palette.removed_bg,
        Some(CellKind::Meta) => palette.meta_bg,
        Some(CellKind::Context) => palette.pane_bg,
        None => palette.pane_bg,
    }
}

/// Picks the background colour for a cell kind.
pub fn background_for_kind(kind: Option<CellKind>, palette: &Palette) -> (r: (u8, u8, u8))
    ensures
        r == spec_background_for_kind(kind, *palette),
{
    match kind {
        Some(CellKind::Added) => palette.added_bg,
        Some(CellKind::Removed) => palette.removed_bg,
        Some(CellKind::Meta) => palette.meta_bg,
        Some(CellKind::Context) => palette.pane_bg,
        None => palette.pane_bg,
    }
}

} // verus!
