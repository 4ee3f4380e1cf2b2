//! Parsing of unified diff text into side-by-side rows: context lines
//! pair up, removed and added runs are aligned row by row, and text
//! without any hunk is shown as metadata.

use vstd::prelude::*;
use crate::util::{
    chars_to_string,
    find_char,
    find_char_from,
    is_whitespace_char,
    spec_is_whitespace,
    str_chars,
};

verus! {

/// How a cell takes part in the change.
#[derive(Debug, Clone, Copy, PartialEq, Eq, Structural)]
pub enum CellKind {
    Context,
    Added,
    Removed,
    Meta,
}

/// One side of a diff row: a line of text with its line number, if any.
#[derive(Debug, Clone, PartialEq, Eq)]
pub struct DiffCell {
    pub line_no: Option<usize>,
    pub text: String,
    pub kind: CellKind,
}

/// A row of the side-by-side diff: the old and the new cell, either of
/// which may be missing.
#[derive(Debug, Clone, PartialEq, Eq)]
pub struct DiffRow {
    pub old: Option<DiffCell>,
    pub new: Option<DiffCell>,
}

/// The mathematical shape of a cell: line number, text, kind.
pub struct CellModel {
    pub line_no: Option<int>,
    pub text: Seq<char>,
    pub kind: CellKind,
}

/// The mathematical shape of a row.
pub struct RowModel {
    pub old: Option<CellModel>,
    pub new: Option<CellModel>,
}

/// The model of a cell value.
pub open spec fn cell_model(c: DiffCell) -> CellModel {
    CellModel {
        line_no: match c.line_no {
            Some(n) => Some(n as int),
            None => None,
        },
        text: c.text@,
        kind: c.kind,
    }
}

/// The model of a row value.
pub open spec fn row_model(r: DiffRow) -> RowModel {
    RowModel {
        old: match r.old {
            Some(c) => Some(cell_model(c)),
            None => None,
        },
        new: match r.new {
            Some(c) => Some(cell_model(c)),
            None => None,
        },
    }
}

/// The models of a sequence of cells.
pub open spec fn cell_models(s: Seq<DiffCell>) -> Seq<CellModel> {
    s.map_values(|c: DiffCell| cell_model(c))
}

/// The models of a sequence of rows.
pub open spec fn row_models(s: Seq<DiffRow>) -> Seq<RowModel> {
    s.map_values(|r: DiffRow| row_model(r))
}

/// Appending a cell appends its model.
proof fn lemma_cell_models_push(s: Seq<DiffCell>, c: DiffCell)
    ensures
        cell_models(s.push(c)) =~= cell_models(s).push(cell_model(c)),
{
    assert forall|i: int| 0 <= i < s.len() + 1 implies cell_models(s.push(c))[i] == cell_models(
        s,
    ).push(cell_model(c))[i] by {
        if i < s.len() {
            assert(s.push(c)[i] == s[i]);
        } else {
            assert(s.push(c)[i] == c);
        }
    }
}

/// Appending a row appends its model.
proof fn lemma_row_models_push(s: Seq<DiffRow>, r: DiffRow)
    ensures
        row_models(s.push(r)) =~= row_models(s).push(row_model(r)),
{
    assert forall|i: int| 0 <= i < s.len() + 1 implies row_models(s.push(r))[i] == row_models(
        s,
    ).push(row_model(r))[i] by {
        if i < s.len() {
            assert(s.push(r)[i] == s[i]);
        } else {
            assert(s.push(r)[i] == r);
        }
    }
}

/// The views of a sequence of character vectors.
pub open spec fn line_views(s: Seq<Vec<char>>) -> Seq<Seq<char>> {
    s.map_values(|v: Vec<char>| v@)
}

/// A line with a terminating carriage return removed, as the standard
/// line splitting does for `\r\n` endings.
pub open spec fn strip_cr(s: Seq<char>) -> Seq<char> {
    if s.len() > 0 && s[s.len() - 1] == '\r' {
        s.drop_last()
    } else {
        s
    }
}

/// The lines of a text: split at `\n`, with a `\r` before the newline
/// dropped, and no trailing empty line for a terminating newline.
pub open spec fn split_newlines(s: Seq<char>) -> Seq<Seq<char>>
    decreases s.len(),
{
    if s.len() == 0 {
        seq![]
    } else {
        match find_char(s, '\n') {
            None => seq![s],
            Some(i) => if 0 <= i < s.len() {
                seq![strip_cr(s.take(i))] + split_newlines(s.skip(i + 1))
            } else {
                seq![s]
            },
        }
    }
}

/// Splits a text into its lines, as character vectors.
pub fn split_lines(text: &str) -> (r: Vec<Vec<char>>)
    ensures
        line_views(r@) == split_newlines(text@),
{
    let chars = str_chars(text);
    let len = chars.len();
    let mut out: Vec<Vec<char>> = Vec::new();
    let mut pos: usize = 0;
    proof {
        assert(chars@.skip(0) =~= chars@);
        assert(line_views(out@) + split_newlines(chars@) =~= split_newlines(chars@));
    }
    while pos < len
        invariant
            pos <= len,
            len == chars@.len(),
            chars@ == text@,
            split_newlines(text@) == line_views(out@) + split_newlines(chars@.skip(pos as int)),
        decreases len - pos,
    {
        let ghost rest = chars@.skip(pos as int);
        let found = find_char_from(chars.as_slice(), pos, '\n');
        let (seg_end, next_pos) = match found {
            Some(j) => (j, j + 1),
            None => (len, len),
        };
        let cut = match found {
            Some(j) => if j > pos && chars[j - 1] == '\r' {
                j - 1
            } else {
                j
            },
            None => len,
        };
        let mut line: Vec<char> = Vec::new();
        let mut k = pos;
        while k < cut
            invariant
                pos <= k <= cut <= len,
                len == chars@.len(),
                line@ == chars@.subrange(pos as int, k as int),
            decreases cut - k,
        {
            line.push(chars[k]);
            proof {
                assert(line@ =~= chars@.subrange(pos as int, k + 1));
            }
            k += 1;
        }
        proof {
            match found {
                Some(j) => {
                    assert(rest.take(j - pos) =~= chars@.subrange(pos as int, j as int));
                    assert(strip_cr(rest.take(j - pos)) =~= chars@.subrange(
                        pos as int,
                        cut as int,
                    ));
                    assert(rest.skip(j + 1 - pos) =~= chars@.skip(j + 1));
                    assert(split_newlines(rest) =~= seq![line@] + split_newlines(
                        chars@.skip(next_pos as int),
                    ));
                },
                None => {
                    assert(rest =~= chars@.subrange(pos as int, len as int));
                    assert(chars@.skip(next_pos as int) =~= Seq::<char>::empty());
                    assert(split_newlines(rest) =~= seq![line@] + split_newlines(
                        chars@.skip(next_pos as int),
                    ));
                },
            }
            assert(line_views(out@.push(line)) =~= line_views(out@) + seq![line@]);
        }
        out.push(line);
        pos = next_pos;
    }
    proof {
        assert(line_views(out@) =~= split_newlines(text@));
    }
    out
}

/// The numeric value of a decimal digit, if the character is one.
pub open spec fn spec_digit(c: char) -> Option<int> {
    if '0' <= c && c <= '9' {
        Some(c as int - 48)
    } else {
        None
    }
}

/// The value of a string of decimal digits; nothing when any character
/// is not a digit.  The empty string counts as zero here; callers rule
/// it out separately.
pub open spec fn digits_value(s: Seq<char>) -> Option<int>
    decreases s.len(),
{
    if s.len() == 0 {
        Some(0int)
    } else {
        match (digits_value(s.drop_last()), spec_digit(s[s.len() - 1])) {
            (Some(v), Some(d)) => Some(v * 10 + d),
            _ => None,
        }
    }
}

/// What `str::parse::<usize>` accepts: an optional leading plus sign,
/// then one or more digits, with a value that fits the type.
pub open spec fn spec_parse_usize(s: Seq<char>) -> Option<usize> {
    let body = if s.len() > 0 && s[0] == '+' {
        s.drop_first()
    } else {
        s
    };
    if body.len() == 0 {
        None
    } else {
        match digits_value(body) {
            Some(v) => if v <= usize::MAX {
                Some(v as usize)
            } else {
                None
            },
            None => None,
        }
    }
}

/// A digit string's value never shrinks as digits are appended.
proof fn lemma_digits_grow(s: Seq<char>, k: int)
    requires
        0 <= k <= s.len(),
    ensures
        match (digits_value(s.take(k)), digits_value(s)) {
            (Some(v), Some(w)) => w >= v && v >= 0,
            (Some(v), None) => v >= 0,
            (None, Some(w)) => false,
            (None, None) => true,
        },
    decreases s.len() - k,
{
    if k == s.len() {
        assert(s.take(k) =~= s);
        lemma_digits_nonneg(s);
    } else {
        lemma_digits_grow(s, k + 1);
        assert(s.take(k + 1).drop_last() =~= s.take(k));
        lemma_digits_nonneg(s.take(k));
    }
}

/// A digit string's value is never negative.
proof fn lemma_digits_nonneg(s: Seq<char>)
    ensures
        match digits_value(s) {
            Some(v) => v >= 0,
            None => true,
        },
    decreases s.len(),
{
    if s.len() > 0 {
        lemma_digits_nonneg(s.drop_last());
    }
}

/// Parses a digit string with an optional plus sign, as the standard
/// unsigned parse does.
fn parse_usize_chars(s: &[char]) -> (r: Option<usize>)
    ensures
        r == spec_parse_usize(s@),
{
    let len = s.len();
    let start: usize = if len > 0 && s[0] == '+' {
        1
    } else {
        0
    };
    let ghost body = if s@.len() > 0 && s@[0] == '+' {
        s@.drop_first()
    } else {
        s@
    };
    proof {
        assert(body =~= s@.subrange(start as int, len as int));
    }
    if start >= len {
        return None;
    }

    let mut value: usize = 0;
    let mut i = start;
    while i < len
        invariant
            start <= i <= len,
            start <= 1,
            len == s@.len(),
            body == (if s@.len() > 0 && s@[0] == '+' {
                s@.drop_first()
            } else {
                s@
            }),
            body =~= s@.subrange(start as int, len as int),
            digits_value(body.take(i - start)) == Some(value as int),
        decreases len - i,
    {
        let c = s[i];
        if c < '0' || c > '9' {
            proof {
                assert(body[i - start] == c);
                lemma_digits_nondigit(body, i - start);
            }
            return None;
        }
        let d = (c as u32 - 48) as usize;
        let ghost prefix1 = body.take(i + 1 - start);
        proof {
            assert(prefix1.drop_last() =~= body.take(i - start));
            assert(prefix1[prefix1.len() - 1] == c);
        }
        let scaled = match value.checked_mul(10) {
            Some(v) => v,
            None => {
                proof {
                    lemma_digits_overflow(body, i + 1 - start, value as int * 10 + d);
                }
                return None;
            },
        };
        let next = match scaled.checked_add(d) {
            Some(v) => v,
            None => {
                proof {
                    lemma_digits_overflow(body, i + 1 - start, value as int * 10 + d);
                }
                return None;
            },
        };
        value = next;
        i += 1;
    }
    proof {
        assert(body.take(len - start) =~= body);
    }
    Some(value)
}

/// A non-digit anywhere makes the whole digit string worthless.
proof fn lemma_digits_nondigit(s: Seq<char>, k: int)
    requires
        0 <= k < s.len(),
        spec_digit(s[k]) is None,
    ensures
        digits_value(s) is None,
    decreases s.len(),
{
    if k < s.len() - 1 {
        lemma_digits_nondigit(s.drop_last(), k);
    }
}

/// Once a digit prefix exceeds the type's range, the full string's
/// value, if it has one, is out of range too.
proof fn lemma_digits_overflow(s: Seq<char>, k: int, v: int)
    requires
        0 <= k <= s.len(),
        digits_value(s.take(k)) == Some(v),
        v > usize::MAX,
    ensures
        digits_value(s) is None || digits_value(s).unwrap() > usize::MAX,
{
    lemma_digits_grow(s, k);
}

/// The digits before the first comma of a range, parsed as a number.
pub open spec fn spec_parse_range_start(s: Seq<char>) -> Option<usize> {
    match find_char(s, ',') {
        Some(i) => spec_parse_usize(s.take(i)),
        None => spec_parse_usize(s),
    }
}

/// Parses the start of a `start,count` range from a hunk header.
pub fn parse_range_start(range: &[char]) -> (r: Option<usize>)
    ensures
        r == spec_parse_range_start(range@),
{
    let found = find_char_from(range, 0, ',');
    let end = match found {
        Some(j) => j,
        None => range.len(),
    };
    proof {
        assert(range@.skip(0) =~= range@);
        if found is None {
            assert(range@.take(range@.len() as int) =~= range@);
        }
    }
    parse_usize_chars(&range[0..end])
}

/// The length of the leading run of non-whitespace characters.
pub open spec fn nonws_run_end(s: Seq<char>) -> int
    decreases s.len(),
{
    if s.len() == 0 {
        0
    } else if spec_is_whitespace(s[0]) {
        0
    } else {
        1 + nonws_run_end(s.drop_first())
    }
}

/// `nonws_run_end` is the position of the first whitespace character.
proof fn lemma_nonws_run_end_is(s: Seq<char>, j: int)
    requires
        0 <= j <= s.len(),
        forall|m: int| 0 <= m < j ==> !spec_is_whitespace(s[m]),
        j < s.len() ==> spec_is_whitespace(s[j]),
    ensures
        nonws_run_end(s) == j,
    decreases j,
{
    if j == 0 {
    } else {
        lemma_nonws_run_end_is(s.drop_first(), j - 1);
    }
}

/// The two numbers collected from the whitespace-separated segments of
/// a hunk header body: each `-`-segment overwrites the old start, each
/// `+`-segment the new start, keeping the last of each.
pub open spec fn hunk_numbers(s: Seq<char>, old: Option<usize>, new: Option<usize>) -> (
    Option<usize>,
    Option<usize>,
)
    decreases s.len(),
{
    if s.len() == 0 {
        (old, new)
    } else if spec_is_whitespace(s[0]) {
        hunk_numbers(s.drop_first(), old, new)
    } else {
        let j = nonws_run_end(s);
        if 1 <= j <= s.len() {
            let seg = s.take(j);
            if seg[0] == '-' {
                hunk_numbers(s.skip(j), spec_parse_range_start(seg.drop_first()), new)
            } else if seg[0] == '+' {
                hunk_numbers(s.skip(j), old, spec_parse_range_start(seg.drop_first()))
            } else {
                hunk_numbers(s.skip(j), old, new)
            }
        } else {
            (old, new)
        }
    }
}

/// The old and new start lines of a hunk header line `@@ ... @@`, if
/// both are present and a closing `@@` exists.
pub open spec fn spec_parse_hunk_header(line: Seq<char>) -> Option<(usize, usize)> {
    match find_atat(line, 2) {
        None => None,
        Some(i) => {
            let body = line.subrange(2, i);
            match hunk_numbers(body, None, None) {
                (Some(o), Some(n)) => Some((o, n)),
                _ => None,
            }
        },
    }
}

/// The first position at or after `from` where two `@` characters
/// stand together.
pub open spec fn find_atat(s: Seq<char>, from: int) -> Option<int>
    decreases s.len() - from,
{
    if from < 0 || from + 2 > s.len() {
        None
    } else if s[from] == '@' && s[from + 1] == '@' {
        Some(from)
    } else {
        find_atat(s, from + 1)
    }
}

/// Collects the hunk numbers from a header body by scanning its
/// whitespace-separated segments.
fn hunk_numbers_exec(body: &[char]) -> (r: (Option<usize>, Option<usize>))
    ensures
        r == hunk_numbers(body@, None, None),
{
    let len = body.len();
    let mut old: Option<usize> = None;
    let mut new: Option<usize> = None;
    let mut i: usize = 0;
    proof {
        assert(body@.skip(0) =~= body@);
    }
    while i < len
        invariant
            i <= len,
            len == body@.len(),
            hunk_numbers(body@, None, None) == hunk_numbers(body@.skip(i as int), old, new),
        decreases len - i,
    {
        let ghost rest = body@.skip(i as int);
        if is_whitespace_char(body[i]) {
            proof {
                assert(rest.drop_first() =~= body@.skip(i + 1));
            }
            i += 1;
        } else {
            let mut j = i + 1;
            while j < len && !is_whitespace_char(body[j])
                invariant
                    i < j <= len,
                    len == body@.len(),
                    forall|m: int| i <= m < j ==> !spec_is_whitespace(body@[m]),
                decreases len - j,
            {
                j += 1;
            }
            proof {
                assert(forall|m: int| 0 <= m < j - i ==> rest[m] == body@[i + m]);
                if j < len {
                    assert(rest[j - i] == body@[j as int]);
                }
                lemma_nonws_run_end_is(rest, j - i);
                assert(rest.take(j - i) =~= body@.subrange(i as int, j as int));
                assert(rest.take(j - i).drop_first() =~= body@.subrange(i + 1, j as int));
                assert(rest.skip(j - i) =~= body@.skip(j as int));
            }
            if body[i] == '-' {
                old = parse_range_start(&body[i + 1..j]);
            } else if body[i] == '+' {
                new = parse_range_start(&body[i + 1..j]);
            }
            i = j;
        }
    }
    proof {
        assert(body@.skip(len as int) =~= Seq::<char>::empty());
    }
    (old, new)
}

/// Finds the closing `@@` of a hunk header, scanning from `from`.
fn find_atat_exec(line: &Vec<char>, from: usize) -> (r: Option<usize>)
    ensures
        match r {
            Some(j) => find_atat(line@, from as int) == Some(j as int) && from <= j && j + 2
                <= line@.len(),
            None => find_atat(line@, from as int) is None,
        },
{
    let len = line.len();
    if len < 2 {
        return None;
    }
    let mut i = from;
    while i <= len - 2
        invariant
            from <= i,
            2 <= len == line@.len(),
            find_atat(line@, from as int) == find_atat(line@, i as int),
        decreases len - i,
    {
        if line[i] == '@' && line[i + 1] == '@' {
            return Some(i);
        }
        i += 1;
    }
    None
}

/// Parses a hunk header line into its old and new start line numbers.
pub fn parse_hunk_header(line: &Vec<char>) -> (r: Option<(usize, usize)>)
    ensures
        r == spec_parse_hunk_header(line@),
{
    let closing = find_atat_exec(line, 2);
    match closing {
        None => None,
        Some(c) => {
            let (o, n) = hunk_numbers_exec(&line.as_slice()[2..c]);
            match (o, n) {
                (Some(o), Some(n)) => Some((o, n)),
                _ => None,
            }
        },
    }
}

/// A line number shown only when it is known: zero stands for "none".
pub open spec fn spec_normalize_line_no(raw: usize) -> Option<usize> {
    if raw == 0 {
        None
    } else {
        Some(raw)
    }
}

/// Turns a running line counter into a displayed line number.
pub fn normalize_line_no(raw: usize) -> (r: Option<usize>)
    ensures
        r == spec_normalize_line_no(raw),
{
    if raw == 0 {
        None
    } else {
        Some(raw)
    }
}

/// A counter stepped by one, stopping at the top of the type.
pub open spec fn sat_inc(n: usize) -> usize {
    if n < usize::MAX {
        (n + 1) as usize
    } else {
        n
    }
}

fn sat_inc_exec(n: usize) -> (r: usize)
    ensures
        r == sat_inc(n),
{
    if n < usize::MAX {
        n + 1
    } else {
        n
    }
}

/// The model of a cell built from a counter, text and kind.
pub open spec fn cell_of(line_no: usize, text: Seq<char>, kind: CellKind) -> CellModel {
    CellModel {
        line_no: match spec_normalize_line_no(line_no) {
            Some(n) => Some(n as int),
            None => None,
        },
        text,
        kind,
    }
}

/// A metadata cell holding a raw line of diff text.
pub open spec fn meta_cell(text: Seq<char>) -> CellModel {
    CellModel { line_no: None, text, kind: CellKind::Meta }
}

/// The parser's running state: whether a hunk is open, the two line
/// counters, the pending removed and added runs, and the rows built.
pub struct ParseState {
    pub in_hunk: bool,
    pub old_line: usize,
    pub new_line: usize,
    pub removed: Seq<CellModel>,
    pub added: Seq<CellModel>,
    pub rows: Seq<RowModel>,
}

/// The state before any line is read.
pub open spec fn init_state() -> ParseState {
    ParseState {
        in_hunk: false,
        old_line: 0,
        new_line: 0,
        removed: seq![],
        added: seq![],
        rows: seq![],
    }
}

/// Pairs the pending removed and added runs row by row: the runs stand
/// side by side, the longer one padded with empty cells.
pub open spec fn flush_runs(
    rows: Seq<RowModel>,
    removed: Seq<CellModel>,
    added: Seq<CellModel>,
) -> Seq<RowModel> {
    let count = if removed.len() >= added.len() {
        removed.len()
    } else {
        added.len()
    };
    rows + Seq::new(
        count,
        |i: int|
            RowModel {
                old: if i < removed.len() {
                    Some(removed[i])
                } else {
                    None
                },
                new: if i < added.len() {
                    Some(added[i])
                } else {
                    None
                },
            },
    )
}

/// How one line of diff text changes the parser's state.
pub open spec fn hunk_step(st: ParseState, line: Seq<char>) -> ParseState {
    if line.len() >= 2 && line[0] == '@' && line[1] == '@' {
        let flushed = ParseState {
            rows: flush_runs(st.rows, st.removed, st.added),
            removed: seq![],
            added: seq![],
            ..st
        };
        match spec_parse_hunk_header(line) {
            Some((o, n)) => ParseState { in_hunk: true, old_line: o, new_line: n, ..flushed },
            None => flushed,
        }
    } else if !st.in_hunk {
        st
    } else if line.len() >= 1 && line[0] == '\\' {
        st
    } else if line.len() >= 1 && line[0] == ' ' {
        let content = line.drop_first();
        let flushed = ParseState {
            rows: flush_runs(st.rows, st.removed, st.added),
            removed: seq![],
            added: seq![],
            ..st
        };
        ParseState {
            rows: flushed.rows.push(
                RowModel {
                    old: Some(cell_of(st.old_line, content, CellKind::Context)),
                    new: Some(cell_of(st.new_line, content, CellKind::Context)),
                },
            ),
            old_line: sat_inc(st.old_line),
            new_line: sat_inc(st.new_line),
            ..flushed
        }
    } else if line.len() >= 1 && line[0] == '-' {
        ParseState {
            removed: st.removed.push(cell_of(st.old_line, line.drop_first(), CellKind::Removed)),
            old_line: sat_inc(st.old_line),
            ..st
        }
    } else if line.len() >= 1 && line[0] == '+' {
        ParseState {
            added: st.added.push(cell_of(st.new_line, line.drop_first(), CellKind::Added)),
            new_line: sat_inc(st.new_line),
            ..st
        }
    } else {
        st
    }
}

/// The state after reading a sequence of lines in order.
pub open spec fn hunk_fold(lines: Seq<Seq<char>>, st: ParseState) -> ParseState
    decreases lines.len(),
{
    if lines.len() == 0 {
        st
    } else {
        hunk_fold(lines.drop_first(), hunk_step(st, lines.first()))
    }
}

/// Folding one more line applies one more step.
proof fn lemma_fold_snoc(lines: Seq<Seq<char>>, st: ParseState, i: int)
    requires
        0 <= i < lines.len(),
    ensures
        hunk_fold(lines.take(i + 1), st) == hunk_step(hunk_fold(lines.take(i), st), lines[i]),
    decreases i,
{
    if i == 0 {
        assert(lines.take(1).first() == lines[0]);
        assert(lines.take(1).drop_first() =~= lines.take(0));
        assert(lines.take(0) =~= Seq::<Seq<char>>::empty());
        assert(hunk_fold(lines.take(0), hunk_step(st, lines[0])) == hunk_step(st, lines[0]));
        assert(hunk_fold(lines.take(1), st) == hunk_fold(
            lines.take(0),
            hunk_step(st, lines[0]),
        ));
        assert(hunk_fold(lines.take(0), st) == st);
    } else {
        let tail = lines.drop_first();
        lemma_fold_snoc(tail, hunk_step(st, lines.first()), i - 1);
        assert(lines.take(i + 1).first() == lines.first());
        assert(lines.take(i + 1).drop_first() =~= tail.take(i));
        assert(lines.take(i).first() == lines.first());
        assert(lines.take(i).drop_first() =~= tail.take(i - 1));
        assert(tail[i - 1] == lines[i]);
        assert(hunk_fold(lines.take(i + 1), st) == hunk_fold(
            tail.take(i),
            hunk_step(st, lines.first()),
        ));
        assert(hunk_fold(lines.take(i), st) == hunk_fold(
            tail.take(i - 1),
            hunk_step(st, lines.first()),
        ));
    }
}

/// One metadata row per raw line, used when no hunk was recognized.
pub open spec fn meta_rows(lines: Seq<Seq<char>>) -> Seq<RowModel> {
    Seq::new(
        lines.len(),
        |i: int| RowModel { old: Some(meta_cell(lines[i])), new: Some(meta_cell(lines[i])) },
    )
}

/// What parsing a unified diff yields: the rows of the folded hunks,
/// or one metadata row per line when no hunk produced anything.
pub open spec fn spec_parse_unified_diff(text: Seq<char>) -> Seq<RowModel> {
    let lines = split_newlines(text);
    let st = hunk_fold(lines, init_state());
    let flushed = flush_runs(st.rows, st.removed, st.added);
    if flushed.len() == 0 {
        meta_rows(lines)
    } else {
        flushed
    }
}

/// A copy of a cell with the same model.
fn clone_cell(c: &DiffCell) -> (r: DiffCell)
    ensures
        cell_model(r) == cell_model(*c),
{
    DiffCell { line_no: c.line_no, text: c.text.clone(), kind: c.kind }
}

/// Moves the pending removed and added runs into rows, pairing them
/// index by index and padding the shorter run with empty cells.
fn flush_change_run(rows: &mut Vec<DiffRow>, removed: &mut Vec<DiffCell>, added: &mut Vec<
    DiffCell,
>)
    ensures
        row_models(final(rows)@) == flush_runs(
            row_models(old(rows)@),
            cell_models(old(removed)@),
            cell_models(old(added)@),
        ),
        final(removed)@.len() == 0,
        final(added)@.len() == 0,
{
    let rlen = removed.len();
    let alen = added.len();
    let count = if rlen >= alen {
        rlen
    } else {
        alen
    };
    let ghost target = flush_runs(
        row_models(rows@),
        cell_models(removed@),
        cell_models(added@),
    );
    let ghost rows0 = row_models(rows@);
    let mut idx: usize = 0;
    proof {
        assert(row_models(rows@) =~= target.take(rows0.len() as int));
    }
    while idx < count
        invariant
            idx <= count,
            rlen == removed@.len(),
            alen == added@.len(),
            count == if rlen >= alen {
                rlen
            } else {
                alen
            },
            target == flush_runs(rows0, cell_models(removed@), cell_models(added@)),
            target.len() == rows0.len() + count,
            row_models(rows@) == target.take(rows0.len() + idx as int),
        decreases count - idx,
    {
        let old_cell = if idx < rlen {
            Some(clone_cell(&removed[idx]))
        } else {
            None
        };
        let new_cell = if idx < alen {
            Some(clone_cell(&added[idx]))
        } else {
            None
        };
        let row = DiffRow { old: old_cell, new: new_cell };
        proof {
            assert(cell_models(removed@).len() == rlen);
            assert(cell_models(added@).len() == alen);
            if idx < rlen {
                assert(cell_models(removed@)[idx as int] == cell_model(removed@[idx as int]));
            }
            if idx < alen {
                assert(cell_models(added@)[idx as int] == cell_model(added@[idx as int]));
            }
            assert(target[rows0.len() + idx] == row_model(row));
            lemma_row_models_push(rows@, row);
            assert(target.take(rows0.len() + idx as int).push(target[rows0.len() + idx]) =~= target
                .take(rows0.len() + idx + 1int));
        }
        rows.push(row);
        idx += 1;
    }
    proof {
        assert(target.take(rows0.len() + count as int) =~= target);
    }
    removed.clear();
    added.clear();
    proof {
        assert(cell_models(removed@) =~= Seq::<CellModel>::empty());
        assert(cell_models(added@) =~= Seq::<CellModel>::empty());
    }
}

/// Parses unified diff text into side-by-side rows: context lines give
/// a row with both cells, removed and added runs are paired row by
/// row, and when nothing parses the raw lines come back as metadata.
pub fn parse_unified_diff(diff_text: &str) -> (r: Vec<DiffRow>)
    ensures
        row_models(r@) == spec_parse_unified_diff(diff_text@),
{
    let lines = split_lines(diff_text);
    let n = lines.len();
    let ghost lv = line_views(lines@);

    let mut rows: Vec<DiffRow> = Vec::new();
    let mut removed_run: Vec<DiffCell> = Vec::new();
    let mut added_run: Vec<DiffCell> = Vec::new();
    let mut in_hunk = false;
    let mut old_line: usize = 0;
    let mut new_line: usize = 0;

    proof {
        assert(lv.take(0) =~= Seq::<Seq<char>>::empty());
        assert(row_models(rows@) =~= init_state().rows);
        assert(cell_models(removed_run@) =~= init_state().removed);
        assert(cell_models(added_run@) =~= init_state().added);
    }

    let mut li: usize = 0;
    while li < n
        invariant
            li <= n,
            n == lines@.len(),
            lv == line_views(lines@),
            ({
                let st = hunk_fold(lv.take(li as int), init_state());
                &&& st.in_hunk == in_hunk
                &&& st.old_line == old_line
                &&& st.new_line == new_line
                &&& st.removed == cell_models(removed_run@)
                &&& st.added == cell_models(added_run@)
                &&& st.rows == row_models(rows@)
            }),
        decreases n - li,
    {
        proof {
            lemma_fold_snoc(lv, init_state(), li as int);
            assert(lv[li as int] == lines@[li as int]@);
        }
        let line = &lines[li];
        let llen = line.len();

        if llen >= 2 && line[0] == '@' && line[1] == '@' {
            flush_change_run(&mut rows, &mut removed_run, &mut added_run);
            match parse_hunk_header(line) {
                Some((o, nn)) => {
                    old_line = o;
                    new_line = nn;
                    in_hunk = true;
                },
                None => {},
            }
        } else if !in_hunk {
        } else if llen >= 1 && line[0] == '\\' {
        } else if llen >= 1 && line[0] == ' ' {
            flush_change_run(&mut rows, &mut removed_run, &mut added_run);
            let content = chars_to_string(&line.as_slice()[1..llen]);
            proof {
                assert(content@ =~= lv[li as int].drop_first());
            }
            let old_cell = DiffCell {
                line_no: normalize_line_no(old_line),
                text: content.clone(),
                kind: CellKind::Context,
            };
            let new_cell = DiffCell {
                line_no: normalize_line_no(new_line),
                text: content,
                kind: CellKind::Context,
            };
            let row = DiffRow { old: Some(old_cell), new: Some(new_cell) };
            proof {
                lemma_row_models_push(rows@, row);
            }
            rows.push(row);
            old_line = sat_inc_exec(old_line);
            new_line = sat_inc_exec(new_line);
        } else if llen >= 1 && line[0] == '-' {
            let content = chars_to_string(&line.as_slice()[1..llen]);
            proof {
                assert(content@ =~= lv[li as int].drop_first());
            }
            let cell = DiffCell {
                line_no: normalize_line_no(old_line),
                text: content,
                kind: CellKind::Removed,
            };
            proof {
                lemma_cell_models_push(removed_run@, cell);
            }
            removed_run.push(cell);
            old_line = sat_inc_exec(old_line);
        } else if llen >= 1 && line[0] == '+' {
            let content = chars_to_string(&line.as_slice()[1..llen]);
            proof {
                assert(content@ =~= lv[li as int].drop_first());
            }
            let cell = DiffCell {
                line_no: normalize_line_no(new_line),
                text: content,
                kind: CellKind::Added,
            };
            proof {
                lemma_cell_models_push(added_run@, cell);
            }
            added_run.push(cell);
            new_line = sat_inc_exec(new_line);
        } else {
        }
        li += 1;
    }
    proof {
        assert(lv.take(n as int) =~= lv);
    }

    flush_change_run(&mut rows, &mut removed_run, &mut added_run);

    if rows.len() == 0 {
        let mut mi: usize = 0;
        while mi < n
            invariant
                mi <= n,
                n == lines@.len(),
                lv == line_views(lines@),
                row_models(rows@) == meta_rows(lv).take(mi as int),
            decreases n - mi,
        {
            proof {
                assert(lv[mi as int] == lines@[mi as int]@);
            }
            let line = &lines[mi];
            let text = chars_to_string(line.as_slice());
            let meta = DiffCell { line_no: None, text, kind: CellKind::Meta };
            let row = DiffRow { old: Some(clone_cell(&meta)), new: Some(meta) };
            proof {
                assert(meta_rows(lv)[mi as int] == row_model(row));
                lemma_row_models_push(rows@, row);
                assert(meta_rows(lv).take(mi as int).push(meta_rows(lv)[mi as int]) =~= meta_rows(
                    lv,
                ).take(mi + 1));
            }
            rows.push(row);
            mi += 1;
        }
        proof {
            assert(meta_rows(lv).take(n as int) =~= meta_rows(lv));
        }
    }

    rows
}

} // verus!
