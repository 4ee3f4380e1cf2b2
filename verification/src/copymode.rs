//! Copy mode: a cursor and an optional selection anchor laid over the
//! rendered rows, a search over them, and yanking the selection to the
//! system clipboard.  Everything works on a plain-text snapshot and is
//! independent of the live shell; only the clipboard call is trusted.

use vstd::prelude::*;
use crate::terminal::TerminalSession;
use crate::util::{
    find_query_in_line,
    match_at,
    order_positions,
    row_major_le,
    str_chars,
    trim_chars,
    trim_spec,
    chars_to_string,
    push_char,
};

verus! {

/// The copy-mode state: whether it is active, the search prompt and
/// its texts, the cursor, the anchor, and the viewport size.
pub struct CopyModeController {
    pub active: bool,
    pub search_open: bool,
    pub search_query: String,
    pub last_search: String,
    pub cursor_row: usize,
    pub cursor_col: usize,
    pub anchor: Option<(usize, usize)>,
    pub view_rows: usize,
    pub view_cols: usize,
}

/// What a yank attempt came to.
pub enum YankOutcome {
    NoAnchor,
    NothingToCopy,
    EmptySelection,
    Copied(usize),
    ClipboardFailed(String),
}

/// What a search came to.
pub enum SearchOutcome {
    EmptyQuery,
    NoRows,
    Found(usize, usize),
    NotFound,
}

/// Relies on arboard::Clipboard: opens the system clipboard and
/// stores the text in it.
#[verifier::external_body]
fn clipboard_set_text(text: &str) -> (r: Result<(), String>)
{
    let mut clipboard = arboard::Clipboard::new().map_err(|e| e.to_string())?;
    clipboard.set_text(text.to_owned()).map_err(|e| e.to_string())
}

/// Relies on String::pop from std: removes the last character, if
/// any.
#[verifier::external_body]
fn pop_char(s: &mut String)
    ensures
        old(s)@.len() > 0 ==> final(s)@ == old(s)@.drop_last(),
        old(s)@.len() == 0 ==> final(s)@ == old(s)@,
{
    s.pop();
}

/// The last viewport row, or zero for an empty viewport.
pub open spec fn last_row(view_rows: nat) -> nat {
    if view_rows > 0 {
        (view_rows - 1) as nat
    } else {
        0
    }
}

/// The views of the row snapshot.
pub open spec fn row_texts(rows: Seq<String>) -> Seq<Seq<char>> {
    rows.map_values(|s: String| s@)
}

impl CopyModeController {
    /// A controller outside copy mode, with everything cleared.
    pub fn new() -> (r: CopyModeController)
        ensures
            !r.active,
            !r.search_open,
            r.search_query@ == Seq::<char>::empty(),
            r.last_search@ == Seq::<char>::empty(),
            r.cursor_row == 0,
            r.cursor_col == 0,
            r.anchor is None,
            r.view_rows == 0,
            r.view_cols == 0,
    {
        CopyModeController {
            active: false,
            search_open: false,
            search_query: String::new(),
            last_search: String::new(),
            cursor_row: 0,
            cursor_col: 0,
            anchor: None,
            view_rows: 0,
            view_cols: 0,
        }
    }

    /// Enters copy mode: the cursor starts on the last viewport row in
    /// the first column, and any stale anchor or search text is
    /// cleared.
    pub fn enter(&mut self)
        ensures
            final(self).active,
            !final(self).search_open,
            final(self).search_query@ == Seq::<char>::empty(),
            final(self).anchor is None,
            final(self).cursor_row == last_row(old(self).view_rows as nat),
            final(self).cursor_col == 0,
            final(self).last_search == old(self).last_search,
            final(self).view_rows == old(self).view_rows,
            final(self).view_cols == old(self).view_cols,
    {
        self.active = true;
        self.search_open = false;
        self.search_query = String::new();
        self.anchor = None;
        self.cursor_row = if self.view_rows > 0 {
            self.view_rows - 1
        } else {
            0
        };
        self.cursor_col = 0;
    }

    /// Leaves copy mode, clearing the anchor and the search prompt;
    /// outside copy mode nothing changes.
    pub fn exit(&mut self)
        ensures
            old(self).active ==> {
                &&& !final(self).active
                &&& !final(self).search_open
                &&& final(self).search_query@ == Seq::<char>::empty()
                &&& final(self).anchor is None
                &&& final(self).cursor_row == old(self).cursor_row
                &&& final(self).cursor_col == old(self).cursor_col
                &&& final(self).last_search == old(self).last_search
                &&& final(self).view_rows == old(self).view_rows
                &&& final(self).view_cols == old(self).view_cols
            },
            !old(self).active ==> *final(self) == *old(self),
    {
        if self.active {
            self.active = false;
            self.search_open = false;
            self.search_query = String::new();
            self.anchor = None;
        }
    }

    /// Records a new viewport size and pulls the cursor back inside
    /// it.
    pub fn set_viewport(&mut self, rows: usize, cols: usize)
        ensures
            final(self).view_rows == rows,
            final(self).view_cols == cols,
            final(self).cursor_row as nat == (if old(self).cursor_row as nat <= last_row(
                rows as nat,
            ) {
                old(self).cursor_row as nat
            } else {
                last_row(rows as nat)
            }),
            final(self).cursor_col as nat == (if old(self).cursor_col as nat <= last_row(
                cols as nat,
            ) {
                old(self).cursor_col as nat
            } else {
                last_row(cols as nat)
            }),
            final(self).active == old(self).active,
            final(self).search_open == old(self).search_open,
            final(self).search_query == old(self).search_query,
            final(self).last_search == old(self).last_search,
            final(self).anchor == old(self).anchor,
    {
        self.view_rows = rows;
        self.view_cols = cols;
        let max_row = if rows > 0 {
            rows - 1
        } else {
            0
        };
        let max_col = if cols > 0 {
            cols - 1
        } else {
            0
        };
        if self.cursor_row > max_row {
            self.cursor_row = max_row;
        }
        if self.cursor_col > max_col {
            self.cursor_col = max_col;
        }
    }

    /// Sets the anchor at the cursor, or clears a set anchor; says
    /// whether one is now set.
    pub fn toggle_anchor(&mut self) -> (set: bool)
        ensures
            old(self).anchor is Some ==> final(self).anchor is None && !set,
            old(self).anchor is None ==> final(self).anchor == Some(
                (old(self).cursor_row, old(self).cursor_col),
            ) && set,
            final(self).active == old(self).active,
            final(self).search_open == old(self).search_open,
            final(self).search_query == old(self).search_query,
            final(self).last_search == old(self).last_search,
            final(self).cursor_row == old(self).cursor_row,
            final(self).cursor_col == old(self).cursor_col,
            final(self).view_rows == old(self).view_rows,
            final(self).view_cols == old(self).view_cols,
    {
        match self.anchor {
            Some(_) => {
                self.anchor = None;
                false
            },
            None => {
                self.anchor = Some((self.cursor_row, self.cursor_col));
                true
            },
        }
    }

    /// Opens the search prompt, pre-filled with the last confirmed
    /// query.
    pub fn open_search(&mut self)
        ensures
            final(self).search_open,
            final(self).search_query@ == old(self).last_search@,
            final(self).active == old(self).active,
            final(self).last_search == old(self).last_search,
            final(self).cursor_row == old(self).cursor_row,
            final(self).cursor_col == old(self).cursor_col,
            final(self).anchor == old(self).anchor,
            final(self).view_rows == old(self).view_rows,
            final(self).view_cols == old(self).view_cols,
    {
        self.search_open = true;
        self.search_query = self.last_search.clone();
    }

    /// Discards the query being edited and closes the prompt.
    pub fn cancel_search(&mut self)
        ensures
            !final(self).search_open,
            final(self).search_query@ == Seq::<char>::empty(),
            final(self).active == old(self).active,
            final(self).last_search == old(self).last_search,
            final(self).cursor_row == old(self).cursor_row,
            final(self).cursor_col == old(self).cursor_col,
            final(self).anchor == old(self).anchor,
            final(self).view_rows == old(self).view_rows,
            final(self).view_cols == old(self).view_cols,
    {
        self.search_open = false;
        self.search_query = String::new();
    }

    /// Appends a typed character to the query being edited.
    pub fn search_append(&mut self, c: char)
        ensures
            final(self).search_query@ == old(self).search_query@.push(c),
            final(self).search_open == old(self).search_open,
            final(self).active == old(self).active,
            final(self).last_search == old(self).last_search,
            final(self).cursor_row == old(self).cursor_row,
            final(self).cursor_col == old(self).cursor_col,
            final(self).anchor == old(self).anchor,
            final(self).view_rows == old(self).view_rows,
            final(self).view_cols == old(self).view_cols,
    {
        push_char(&mut self.search_query, c);
    }

    /// Removes the last character of the query being edited.
    pub fn search_backspace(&mut self)
        ensures
            old(self).search_query@.len() > 0 ==> final(self).search_query@ == old(self).search_query@.drop_last(),
            old(self).search_query@.len() == 0 ==> final(self).search_query@ == old(self).search_query@,
            final(self).search_open == old(self).search_open,
            final(self).active == old(self).active,
            final(self).last_search == old(self).last_search,
            final(self).cursor_row == old(self).cursor_row,
            final(self).cursor_col == old(self).cursor_col,
            final(self).anchor == old(self).anchor,
            final(self).view_rows == old(self).view_rows,
            final(self).view_cols == old(self).view_cols,
    {
        pop_char(&mut self.search_query);
    }
}

/// The part one row contributes to a selection: from the start column
/// on the first selected row, up to and including the end column on
/// the last, the whole row in between, all clamped to the row's
/// length.
pub open spec fn selection_piece(
    rows: Seq<Seq<char>>,
    idx: int,
    srow: int,
    scol: int,
    erow: int,
    ecol: int,
) -> Seq<char> {
    let line = if 0 <= idx < rows.len() {
        rows[idx]
    } else {
        Seq::<char>::empty()
    };
    let from = if idx == srow {
        if scol <= line.len() {
            scol
        } else {
            line.len() as int
        }
    } else {
        0
    };
    let to = if idx == erow {
        if ecol + 1 <= line.len() {
            ecol + 1
        } else {
            line.len() as int
        }
    } else {
        line.len() as int
    };
    if from < to {
        line.subrange(from, to)
    } else {
        Seq::<char>::empty()
    }
}

/// The selected text from row `idx` to the last selected row, rows
/// joined with newlines.
pub open spec fn selection_from(
    rows: Seq<Seq<char>>,
    idx: int,
    srow: int,
    scol: int,
    erow: int,
    ecol: int,
) -> Seq<char>
    decreases erow - idx,
{
    if idx > erow {
        Seq::<char>::empty()
    } else if idx == erow {
        selection_piece(rows, idx, srow, scol, erow, ecol)
    } else {
        selection_piece(rows, idx, srow, scol, erow, ecol) + seq!['\n'] + selection_from(
            rows,
            idx + 1,
            srow,
            scol,
            erow,
            ecol,
        )
    }
}

/// The text a selection between two endpoints yields: the endpoints
/// ordered row-major, then each selected row's part, joined with
/// newlines.
pub open spec fn spec_selection_text(
    rows: Seq<Seq<char>>,
    a: (usize, usize),
    b: (usize, usize),
) -> Seq<char> {
    let s = if row_major_le(a, b) {
        a
    } else {
        b
    };
    let e = if row_major_le(a, b) {
        b
    } else {
        a
    };
    selection_from(rows, s.0 as int, s.0 as int, s.1 as int, e.0 as int, e.1 as int)
}

/// Extracts the text between two selection endpoints from the row
/// snapshot, character-indexed, rows joined with newlines.  The order
/// of the endpoints does not matter.
pub fn selection_text(rows: &Vec<String>, a: (usize, usize), b: (usize, usize)) -> (r: String)
    ensures
        r@ == spec_selection_text(row_texts(rows@), a, b),
{
    let ghost rv = row_texts(rows@);
    let (s, e) = order_positions(a, b);
    let (srow, scol) = s;
    let (erow, ecol) = e;

    let mut out = String::new();
    let mut idx = srow;
    proof {
        assert(out@ + selection_from(rv, srow as int, srow as int, scol as int, erow as int, ecol as int)
            =~= selection_from(rv, srow as int, srow as int, scol as int, erow as int, ecol as int));
    }
    loop
        invariant_except_break
            srow <= idx <= erow,
            srow <= erow,
            rv == row_texts(rows@),
            spec_selection_text(rv, a, b) == out@ + selection_from(
                rv,
                idx as int,
                srow as int,
                scol as int,
                erow as int,
                ecol as int,
            ),
        ensures
            out@ == spec_selection_text(rv, a, b),
        decreases erow - idx,
    {
        let line_chars: Vec<char> = if idx < rows.len() {
            str_chars(rows[idx].as_str())
        } else {
            Vec::new()
        };
        let llen = line_chars.len();
        proof {
            if idx < rows@.len() {
                assert(rv[idx as int] == rows@[idx as int]@);
            }
        }

        let from = if idx == srow {
            if scol <= llen {
                scol
            } else {
                llen
            }
        } else {
            0
        };
        let to = if idx == erow {
            let want = if ecol < usize::MAX {
                ecol + 1
            } else {
                ecol
            };
            if want <= llen {
                want
            } else {
                llen
            }
        } else {
            llen
        };

        if from < to {
            let mut k = from;
            let ghost out0 = out@;
            while k < to
                invariant
                    from <= k <= to,
                    to <= line_chars@.len(),
                    out@ == out0 + line_chars@.subrange(from as int, k as int),
                decreases to - k,
            {
                push_char(&mut out, line_chars[k]);
                proof {
                    assert(out@ =~= out0 + line_chars@.subrange(from as int, k + 1));
                }
                k += 1;
            }
        }

        if idx < erow {
            push_char(&mut out, '\n');
            idx += 1;
        } else {
            break ;
        }
    }
    out
}

impl CopyModeController {
    /// Yanks the selection: with no anchor or nothing rendered it
    /// does nothing at all; an empty extraction is reported without a
    /// clipboard call; otherwise the text goes to the clipboard, and
    /// only on success is the anchor cleared, so a failed yank can be
    /// retried.
    pub fn yank_selection(&mut self, rows: &Vec<String>) -> (r: YankOutcome)
        ensures
            final(self).active == old(self).active,
            final(self).search_open == old(self).search_open,
            final(self).search_query == old(self).search_query,
            final(self).last_search == old(self).last_search,
            final(self).cursor_row == old(self).cursor_row,
            final(self).cursor_col == old(self).cursor_col,
            final(self).view_rows == old(self).view_rows,
            final(self).view_cols == old(self).view_cols,
            old(self).anchor is None ==> (r is NoAnchor && *final(self) == *old(self)),
            old(self).anchor is Some && rows@.len() == 0 ==> (r is NothingToCopy && *final(self)
                == *old(self)),
            match old(self).anchor {
                Some(anchor) => rows@.len() > 0 ==> {
                    let text = spec_selection_text(
                        row_texts(rows@),
                        anchor,
                        (old(self).cursor_row, old(self).cursor_col),
                    );
                    &&& text.len() == 0 ==> (r is EmptySelection && *final(self) == *old(self))
                    &&& text.len() > 0 ==> match r {
                        YankOutcome::Copied(n) => n == text.len() && final(self).anchor is None,
                        YankOutcome::ClipboardFailed(_) => *final(self) == *old(self),
                        _ => false,
                    }
                },
                None => true,
            },
    {
        let anchor = match self.anchor {
            Some(anchor) => anchor,
            None => {
                return YankOutcome::NoAnchor;
            },
        };

        if rows.len() == 0 {
            return YankOutcome::NothingToCopy;
        }

        let text = selection_text(rows, anchor, (self.cursor_row, self.cursor_col));
        let count = text.as_str().unicode_len();
        if count == 0 {
            return YankOutcome::EmptySelection;
        }

        match clipboard_set_text(text.as_str()) {
            Ok(_) => {
                self.anchor = None;
                YankOutcome::Copied(count)
            },
            Err(e) => YankOutcome::ClipboardFailed(e),
        }
    }
}

/// Yanking does not care which endpoint was the anchor and which the
/// cursor: the selected text between two positions is the same in
/// either order.
pub proof fn lemma_selection_order_independent(
    rows: Seq<Seq<char>>,
    a: (usize, usize),
    b: (usize, usize),
)
    ensures
        spec_selection_text(rows, a, b) == spec_selection_text(rows, b, a),
{
}

/// The magnitude of a signed step count.
fn isize_mag(d: isize) -> (r: usize)
    ensures
        d < 0 ==> r as int == -(d as int),
        d >= 0 ==> r as int == d as int,
{
    if d < 0 {
        ((-(d + 1)) as usize) + 1
    } else {
        d as usize
    }
}

/// Where `k` upward steps leave the cursor row and the scroll offset:
/// each step moves the cursor up a row, or, at the top row, scrolls
/// one line further back, clamped to what is buffered.
pub open spec fn up_steps(row: nat, offset: nat, limit: nat, k: nat) -> (nat, nat)
    decreases k,
{
    if k == 0 {
        (row, offset)
    } else if row > 0 {
        up_steps((row - 1) as nat, offset, limit, (k - 1) as nat)
    } else {
        let bumped = if offset + 1 <= usize::MAX {
            (offset + 1) as nat
        } else {
            usize::MAX as nat
        };
        up_steps(
            row,
            if bumped <= limit {
                bumped
            } else {
                limit
            },
            limit,
            (k - 1) as nat,
        )
    }
}

/// Where `k` downward steps leave the cursor row and the scroll
/// offset: each step moves the cursor down a row, or, at the last
/// row while scrolled back, scrolls one line towards the live edge.
pub open spec fn down_steps(row: nat, offset: nat, maxrow: nat, k: nat) -> (nat, nat)
    decreases k,
{
    if k == 0 {
        (row, offset)
    } else if row < maxrow {
        down_steps((row + 1) as nat, offset, maxrow, (k - 1) as nat)
    } else if offset > 0 {
        down_steps(row, (offset - 1) as nat, maxrow, (k - 1) as nat)
    } else {
        down_steps(row, offset, maxrow, (k - 1) as nat)
    }
}

/// Where a column delta leaves the cursor column: clamped to the
/// viewport in both directions.
pub open spec fn col_after(col: nat, delta: int, view_cols: nat) -> nat {
    if delta < 0 {
        if col + delta >= 0 {
            (col + delta) as nat
        } else {
            0
        }
    } else if delta > 0 {
        if col + delta <= last_row(view_cols) {
            (col + delta) as nat
        } else {
            last_row(view_cols)
        }
    } else {
        col
    }
}

/// The scroll target a signed wheel delta asks for, before the
/// engine's clamping.
pub open spec fn spec_scroll_target(offset: nat, delta: int) -> int {
    if delta < 0 {
        if offset + delta >= 0 {
            offset + delta
        } else {
            0
        }
    } else {
        if offset + delta <= usize::MAX {
            offset + delta
        } else {
            usize::MAX as int
        }
    }
}

impl CopyModeController {
    /// Scrolls the view by a signed number of lines (positive scrolls
    /// back into history), clamped by the engine, and keeps the
    /// cursor inside the viewport.
    pub fn scroll(&mut self, session: &mut TerminalSession, delta: isize)
        ensures
            final(session).size() == old(session).size(),
            final(session).has_exited() == old(session).has_exited(),
            final(session).feed() == old(session).feed(),
            final(session).scroll_limit() == old(session).scroll_limit(),
            final(session).scroll_offset() == (if spec_scroll_target(
                old(session).scroll_offset(),
                delta as int,
            ) <= old(session).scroll_limit() {
                spec_scroll_target(old(session).scroll_offset(), delta as int) as nat
            } else {
                old(session).scroll_limit()
            }),
            final(self).cursor_row as nat == (if old(self).cursor_row as nat <= last_row(
                old(self).view_rows as nat,
            ) {
                old(self).cursor_row as nat
            } else {
                last_row(old(self).view_rows as nat)
            }),
            final(self).cursor_col == old(self).cursor_col,
            final(self).active == old(self).active,
            final(self).search_open == old(self).search_open,
            final(self).search_query == old(self).search_query,
            final(self).last_search == old(self).last_search,
            final(self).anchor == old(self).anchor,
            final(self).view_rows == old(self).view_rows,
            final(self).view_cols == old(self).view_cols,
    {
        let cur = session.scrollback();
        let target = if delta < 0 {
            let mag = isize_mag(delta);
            if mag <= cur {
                cur - mag
            } else {
                0
            }
        } else {
            let mag = isize_mag(delta);
            if cur <= usize::MAX - mag {
                cur + mag
            } else {
                usize::MAX
            }
        };
        session.set_scrollback(target);

        let max_row = if self.view_rows > 0 {
            self.view_rows - 1
        } else {
            0
        };
        if self.cursor_row > max_row {
            self.cursor_row = max_row;
        }
    }

    /// Moves the copy cursor by signed row and column deltas.  Row
    /// steps past the top scroll further back; steps past the bottom
    /// scroll towards the live edge while scrolled; columns clamp to
    /// the viewport.
    pub fn move_cursor(&mut self, session: &mut TerminalSession, row_delta: isize, col_delta:
        isize)
        ensures
            final(session).size() == old(session).size(),
            final(session).has_exited() == old(session).has_exited(),
            final(session).feed() == old(session).feed(),
            final(session).scroll_limit() == old(session).scroll_limit(),
            row_delta <= 0 ==> (final(self).cursor_row as nat, final(session).scroll_offset())
                == up_steps(
                old(self).cursor_row as nat,
                old(session).scroll_offset(),
                old(session).scroll_limit(),
                (-(row_delta as int)) as nat,
            ),
            row_delta > 0 ==> (final(self).cursor_row as nat, final(session).scroll_offset())
                == down_steps(
                old(self).cursor_row as nat,
                old(session).scroll_offset(),
                last_row(old(self).view_rows as nat),
                row_delta as nat,
            ),
            final(self).cursor_col as nat == col_after(
                old(self).cursor_col as nat,
                col_delta as int,
                old(self).view_cols as nat,
            ),
            final(self).active == old(self).active,
            final(self).search_open == old(self).search_open,
            final(self).search_query == old(self).search_query,
            final(self).last_search == old(self).last_search,
            final(self).anchor == old(self).anchor,
            final(self).view_rows == old(self).view_rows,
            final(self).view_cols == old(self).view_cols,
    {
        let ghost row0 = self.cursor_row as nat;
        let ghost off0 = old(session).scroll_offset();
        let ghost limit = old(session).scroll_limit();

        if row_delta < 0 {
            let k = isize_mag(row_delta);
            let mut j: usize = 0;
            while j < k
                invariant
                    j <= k,
                    session.scroll_limit() == limit,
                    session.size() == old(session).size(),
                    session.has_exited() == old(session).has_exited(),
                    session.feed() == old(session).feed(),
                    up_steps(row0, off0, limit, k as nat) == up_steps(
                        self.cursor_row as nat,
                        session.scroll_offset(),
                        limit,
                        (k - j) as nat,
                    ),
                    self.cursor_col == old(self).cursor_col,
                    self.active == old(self).active,
                    self.search_open == old(self).search_open,
                    self.search_query == old(self).search_query,
                    self.last_search == old(self).last_search,
                    self.anchor == old(self).anchor,
                    self.view_rows == old(self).view_rows,
                    self.view_cols == old(self).view_cols,
                decreases k - j,
            {
                let ghost prev_row = self.cursor_row as nat;
                let ghost prev_off = session.scroll_offset();
                if self.cursor_row > 0 {
                    self.cursor_row -= 1;
                } else {
                    let cur = session.scrollback();
                    let n = if cur < usize::MAX {
                        cur + 1
                    } else {
                        cur
                    };
                    session.set_scrollback(n);
                }
                proof {
                    reveal_with_fuel(up_steps, 2);
                    if prev_row > 0 {
                        assert(self.cursor_row as nat == (prev_row - 1) as nat);
                        assert(session.scroll_offset() == prev_off);
                    }
                    assert(up_steps(prev_row, prev_off, limit, (k - j) as nat) == up_steps(
                        self.cursor_row as nat,
                        session.scroll_offset(),
                        limit,
                        (k - j - 1) as nat,
                    ));
                }
                j += 1;
            }
        } else if row_delta > 0 {
            let k = isize_mag(row_delta);
            let max_row = if self.view_rows > 0 {
                self.view_rows - 1
            } else {
                0
            };
            let mut j: usize = 0;
            while j < k
                invariant
                    j <= k,
                    max_row as nat == last_row(old(self).view_rows as nat),
                    session.scroll_limit() == limit,
                    session.size() == old(session).size(),
                    session.has_exited() == old(session).has_exited(),
                    session.feed() == old(session).feed(),
                    down_steps(row0, off0, max_row as nat, k as nat) == down_steps(
                        self.cursor_row as nat,
                        session.scroll_offset(),
                        max_row as nat,
                        (k - j) as nat,
                    ),
                    self.cursor_col == old(self).cursor_col,
                    self.active == old(self).active,
                    self.search_open == old(self).search_open,
                    self.search_query == old(self).search_query,
                    self.last_search == old(self).last_search,
                    self.anchor == old(self).anchor,
                    self.view_rows == old(self).view_rows,
                    self.view_cols == old(self).view_cols,
                decreases k - j,
            {
                let ghost prev_row = self.cursor_row as nat;
                let ghost prev_off = session.scroll_offset();
                if self.cursor_row < max_row {
                    self.cursor_row += 1;
                } else {
                    let cur = session.scrollback();
                    if cur > 0 {
                        session.set_scrollback(cur - 1);
                    }
                }
                proof {
                    assert(down_steps(prev_row, prev_off, max_row as nat, (k - j) as nat)
                        == down_steps(
                        self.cursor_row as nat,
                        session.scroll_offset(),
                        max_row as nat,
                        (k - j - 1) as nat,
                    ));
                }
                j += 1;
            }
        }

        if col_delta < 0 {
            let mag = isize_mag(col_delta);
            self.cursor_col = if mag <= self.cursor_col {
                self.cursor_col - mag
            } else {
                0
            };
        } else if col_delta > 0 {
            let mag = isize_mag(col_delta);
            let grown = if self.cursor_col <= usize::MAX - mag {
                self.cursor_col + mag
            } else {
                usize::MAX
            };
            let cap = if self.view_cols > 0 {
                self.view_cols - 1
            } else {
                0
            };
            self.cursor_col = if grown <= cap {
                grown
            } else {
                cap
            };
        }
    }
}

/// The first match of the query in the line at or after column `i`.
pub open spec fn find_match_from(line: Seq<char>, q: Seq<char>, i: int) -> Option<int>
    decreases line.len() - i,
{
    if q.len() == 0 || i < 0 || i + q.len() > line.len() {
        None
    } else if match_at(line, q, i) {
        Some(i)
    } else {
        find_match_from(line, q, i + 1)
    }
}

/// The first-match characterization pins `find_match_from`.
proof fn lemma_find_match_from_is(line: Seq<char>, q: Seq<char>, from: int, r: Option<int>)
    requires
        from >= 0,
        q.len() > 0,
        match r {
            Some(i) => from <= i && match_at(line, q, i) && forall|j: int|
                #![auto]
                from <= j < i ==> !match_at(line, q, j),
            None => forall|j: int| #![auto] from <= j ==> !match_at(line, q, j),
        },
    ensures
        find_match_from(line, q, from) == r,
    decreases line.len() - from,
{
    if from + q.len() > line.len() {
        match r {
            Some(i) => {
                assert(!match_at(line, q, i));
            },
            None => {},
        }
    } else if match_at(line, q, from) {
        match r {
            Some(i) => {
                if i != from {
                    assert(!match_at(line, q, from));
                }
            },
            None => {
                assert(!match_at(line, q, from));
            },
        }
    } else {
        lemma_find_match_from_is(line, q, from + 1, r);
    }
}

/// The first match scanning rows `row..end`, using `first_col` in the
/// first row and column zero afterwards.
pub open spec fn scan_rows(
    rows: Seq<Seq<char>>,
    q: Seq<char>,
    row: int,
    first_col: int,
    end: int,
) -> Option<(int, int)>
    decreases end - row,
{
    if row < 0 || row >= end {
        None
    } else {
        let line = if row < rows.len() {
            rows[row]
        } else {
            Seq::<char>::empty()
        };
        match find_match_from(line, q, first_col) {
            Some(c) => Some((row, c)),
            None => scan_rows(rows, q, row + 1, 0, end),
        }
    }
}

/// Where a confirmed search lands: the first match strictly after the
/// cursor column on the cursor row, scanning forward to the end of
/// the buffer, and wrapping to scan from the top up to the cursor row
/// when nothing was found.
pub open spec fn spec_search_hit(
    rows: Seq<Seq<char>>,
    q: Seq<char>,
    start_row: int,
    start_col: int,
) -> Option<(int, int)> {
    match scan_rows(rows, q, start_row, start_col, rows.len() as int) {
        Some(hit) => Some(hit),
        None => scan_rows(rows, q, 0, 0, start_row),
    }
}

/// A line with no occurrence of the query at or after the column has
/// no first match there.
proof fn lemma_find_match_from_none(line: Seq<char>, q: Seq<char>, col: int)
    requires
        q.len() > 0,
        col >= 0,
        forall|j: int| #![auto] col <= j ==> !match_at(line, q, j),
    ensures
        find_match_from(line, q, col) is None,
    decreases line.len() - col,
{
    if col + q.len() <= line.len() {
        lemma_find_match_from_none(line, q, col + 1);
    }
}

/// A row range with no occurrence of the query scans to nothing.
proof fn lemma_scan_rows_none(
    rows: Seq<Seq<char>>,
    q: Seq<char>,
    row: int,
    first_col: int,
    end: int,
)
    requires
        q.len() > 0,
        0 <= row,
        first_col >= 0,
        forall|i: int, j: int|
            #![auto]
            row <= i < end && j >= (if i == row {
                first_col
            } else {
                0
            }) ==> !match_at(rows[i], q, j),
    ensures
        scan_rows(rows, q, row, first_col, end) is None,
    decreases end - row,
{
    if row < end {
        if row < rows.len() {
            lemma_find_match_from_none(rows[row], q, first_col);
        } else {
            lemma_find_match_from_none(Seq::<char>::empty(), q, first_col);
        }
        lemma_scan_rows_none(rows, q, row + 1, 0, end);
    }
}

/// When the query occurs nowhere at or after the cursor position, a
/// confirmed search wraps around: its hit is exactly what scanning
/// from the top of the buffer up to the cursor row finds, so an
/// earlier occurrence is found whenever one exists.
pub proof fn lemma_search_wraps(
    rows: Seq<Seq<char>>,
    q: Seq<char>,
    start_row: int,
    start_col: int,
)
    requires
        q.len() > 0,
        0 <= start_row,
        start_col >= 0,
        forall|i: int, j: int|
            #![auto]
            start_row <= i < rows.len() && j >= (if i == start_row {
                start_col
            } else {
                0
            }) ==> !match_at(rows[i], q, j),
    ensures
        spec_search_hit(rows, q, start_row, start_col) == scan_rows(rows, q, 0, 0, start_row),
{
    lemma_scan_rows_none(rows, q, start_row, start_col, rows.len() as int);
}

/// A count stepped by one, stopping at the top of the type.
pub open spec fn sat_add1(n: nat) -> nat {
    if n < usize::MAX {
        (n + 1) as nat
    } else {
        n
    }
}

impl CopyModeController {
    /// Confirms a search: trims the query being edited (or the last
    /// confirmed one when the prompt is closed), closes the prompt,
    /// and moves the cursor to the first match after it, wrapping
    /// around the buffer; an empty query or an absent match leaves
    /// the cursor alone.
    pub fn search_next(&mut self, rows: &Vec<String>) -> (r: SearchOutcome)
        ensures
            !final(self).search_open,
            final(self).active == old(self).active,
            final(self).anchor == old(self).anchor,
            final(self).view_rows == old(self).view_rows,
            final(self).view_cols == old(self).view_cols,
            final(self).search_query == old(self).search_query,
            ({
                let trimmed = trim_spec(
                    if old(self).search_open {
                        old(self).search_query@
                    } else {
                        old(self).last_search@
                    },
                );
                &&& trimmed.len() == 0 ==> r is EmptyQuery && final(self).last_search == old(self).last_search && final(self).cursor_row == old(self).cursor_row && final(self).cursor_col == old(self).cursor_col
                &&& trimmed.len() > 0 ==> {
                    &&& final(self).last_search@ == trimmed
                    &&& rows@.len() == 0 ==> r is NoRows && final(self).cursor_row == old(self).cursor_row && final(self).cursor_col == old(self).cursor_col
                    &&& rows@.len() > 0 ==> {
                        let start_row = if old(self).cursor_row as int <= rows@.len() - 1 {
                            old(self).cursor_row as int
                        } else {
                            rows@.len() - 1
                        };
                        let start_col = sat_add1(old(self).cursor_col as nat) as int;
                        match spec_search_hit(row_texts(rows@), trimmed, start_row, start_col) {
                            Some(hit) => match r {
                                SearchOutcome::Found(fr, fc) => fr as int == hit.0 && fc as int
                                    == hit.1 && final(self).cursor_row as nat == (if hit.0
                                    <= last_row(old(self).view_rows as nat) {
                                    hit.0 as nat
                                } else {
                                    last_row(old(self).view_rows as nat)
                                }) && final(self).cursor_col as nat == (if hit.1 <= last_row(
                                    old(self).view_cols as nat,
                                ) {
                                    hit.1 as nat
                                } else {
                                    last_row(old(self).view_cols as nat)
                                }),
                                _ => false,
                            },
                            None => r is NotFound && final(self).cursor_row == old(self).cursor_row && final(self).cursor_col == old(self).cursor_col,
                        }
                    }
                }
            }),
    {
        let raw: String = if self.search_open {
            self.search_query.clone()
        } else {
            self.last_search.clone()
        };
        let raw_chars = str_chars(raw.as_str());
        let trimmed_chars = trim_chars(raw_chars.as_slice());
        let query = chars_to_string(trimmed_chars.as_slice());

        if trimmed_chars.len() == 0 {
            self.search_open = false;
            return SearchOutcome::EmptyQuery;
        }

        self.last_search = query.clone();
        self.search_open = false;

        let n = rows.len();
        if n == 0 {
            return SearchOutcome::NoRows;
        }

        let ghost rv = row_texts(rows@);
        let ghost q = query@;

        let start_row = if self.cursor_row <= n - 1 {
            self.cursor_row
        } else {
            n - 1
        };
        let start_col = if self.cursor_col < usize::MAX {
            self.cursor_col + 1
        } else {
            self.cursor_col
        };

        let mut found: Option<(usize, usize)> = None;

        let mut row_idx = start_row;
        while row_idx < n
            invariant_except_break
                start_row <= row_idx <= n,
                found is None,
                scan_rows(rv, q, start_row as int, start_col as int, n as int) == scan_rows(
                    rv,
                    q,
                    row_idx as int,
                    if row_idx == start_row {
                        start_col as int
                    } else {
                        0
                    },
                    n as int,
                ),
            invariant
                n == rows@.len(),
                rv == row_texts(rows@),
                q == query@,
                q.len() > 0,
            ensures
                match found {
                    Some(p) => scan_rows(rv, q, start_row as int, start_col as int, n as int)
                        == Some((p.0 as int, p.1 as int)),
                    None => scan_rows(rv, q, start_row as int, start_col as int, n as int)
                        is None,
                },
            decreases n - row_idx,
        {
            let col_start = if row_idx == start_row {
                start_col
            } else {
                0
            };
            proof {
                assert(rv[row_idx as int] == rows@[row_idx as int]@);
            }
            let hit = find_query_in_line(rows[row_idx].as_str(), query.as_str(), col_start);
            proof {
                let line = rv[row_idx as int];
                let from = if col_start <= line.len() {
                    col_start as int
                } else {
                    line.len() as int
                };
                match hit {
                    Some(c) => {
                        lemma_find_match_from_is(line, q, from, Some(c as int));
                        if from != col_start as int {
                            lemma_find_match_from_is(line, q, col_start as int, Some(c as int));
                        }
                    },
                    None => {
                        lemma_find_match_from_is(line, q, from, None);
                        if from != col_start as int {
                            lemma_find_match_from_is(line, q, col_start as int, None);
                        }
                    },
                }
            }
            match hit {
                Some(c) => {
                    found = Some((row_idx, c));
                    break ;
                },
                None => {},
            }
            row_idx += 1;
        }

        if found.is_none() {
            let mut wrap_idx: usize = 0;
            while wrap_idx < start_row
                invariant_except_break
                    wrap_idx <= start_row,
                    found is None,
                    scan_rows(rv, q, 0, 0, start_row as int) == scan_rows(
                        rv,
                        q,
                        wrap_idx as int,
                        0,
                        start_row as int,
                    ),
                invariant
                    start_row < n,
                    n == rows@.len(),
                    rv == row_texts(rows@),
                    q == query@,
                    q.len() > 0,
                ensures
                    match found {
                        Some(p) => scan_rows(rv, q, 0, 0, start_row as int) == Some(
                            (p.0 as int, p.1 as int),
                        ),
                        None => scan_rows(rv, q, 0, 0, start_row as int) is None,
                    },
                decreases start_row - wrap_idx,
            {
                proof {
                    assert(rv[wrap_idx as int] == rows@[wrap_idx as int]@);
                }
                let hit = find_query_in_line(rows[wrap_idx].as_str(), query.as_str(), 0);
                proof {
                    let line = rv[wrap_idx as int];
                    match hit {
                        Some(c) => {
                            lemma_find_match_from_is(line, q, 0, Some(c as int));
                        },
                        None => {
                            lemma_find_match_from_is(line, q, 0, None);
                        },
                    }
                }
                match hit {
                    Some(c) => {
                        found = Some((wrap_idx, c));
                        break ;
                    },
                    None => {},
                }
                wrap_idx += 1;
            }
        }

        match found {
            Some((fr, fc)) => {
                let row_cap = if self.view_rows > 0 {
                    self.view_rows - 1
                } else {
                    0
                };
                let col_cap = if self.view_cols > 0 {
                    self.view_cols - 1
                } else {
                    0
                };
                self.cursor_row = if fr <= row_cap {
                    fr
                } else {
                    row_cap
                };
                self.cursor_col = if fc <= col_cap {
                    fc
                } else {
                    col_cap
                };
                SearchOutcome::Found(fr, fc)
            },
            None => SearchOutcome::NotFound,
        }
    }
}

} // verus!
