//! Small pure helpers shared by the selection lists, the copy-mode
//! search, and the text editors: scroll clamping, character-indexed
//! substring search, and byte-cursor movement over UTF-8 text.

use vstd::prelude::*;
use vstd::string::StringSliceAdditionalSpecFns;

verus! {

/// The scroll offset that keeps the selected entry visible: clamped to
/// the valid range, then pulled up to the selection when the selection
/// is above the window, or down just far enough when it is below.
pub open spec fn ensure_visible_spec(
    selected: Option<usize>,
    len: usize,
    visible: usize,
    scroll: usize,
) -> int {
    if len == 0 || visible == 0 {
        0
    } else {
        let capped = if scroll <= len - visible {
            scroll as int
        } else if len >= visible {
            len - visible
        } else {
            0
        };
        match selected {
            None => capped,
            Some(sel) => if sel < capped {
                sel as int
            } else if sel >= capped + visible {
                sel + 1 - visible
            } else {
                capped
            },
        }
    }
}

/// Adjusts a list's scroll offset so the selected entry stays visible.
pub fn ensure_visible(selected: Option<usize>, len: usize, visible: usize, scroll: &mut usize)
    ensures
        *final(scroll) == ensure_visible_spec(selected, len, visible, *old(scroll)),
{
    if len == 0 || visible == 0 {
        *scroll = 0;
        return ;
    }

    let limit = if len >= visible {
        len - visible
    } else {
        0
    };
    if *scroll > limit {
        *scroll = limit;
    }

    let sel = match selected {
        Some(sel) => sel,
        None => {
            return ;
        },
    };

    if sel < *scroll {
        *scroll = sel;
        return ;
    }

    let bottom = *scroll + visible;
    if sel >= bottom {
        *scroll = sel - visible + 1;
    }
}

/// A value shifted by `delta` steps and clamped into `[min, max]`.
pub open spec fn shift_and_clamp_spec(
    value: u16,
    delta: int,
    step: u16,
    min: u16,
    max: u16,
) -> int {
    let candidate = value + delta * step;
    if candidate < min {
        min as int
    } else if candidate > max {
        max as int
    } else {
        candidate
    }
}

/// Moves a width setting by whole steps, clamped into `[min, max]`.
pub fn shift_and_clamp_u16(value: u16, delta: isize, step: u16, min: u16, max: u16) -> (r: u16)
    requires
        min <= max,
    ensures
        r as int == shift_and_clamp_spec(value, delta as int, step, min, max),
{
    let d: i128 = delta as i128;
    let s: i128 = step as i128;
    proof {
        assert(-0x80000000000000000000i128 <= d * s <= 0x80000000000000000000i128)
            by (nonlinear_arith)
            requires
                -0x8000000000000000i128 <= d <= 0x8000000000000000i128,
                0 <= s <= 0x10000i128,
        ;
    }
    let candidate: i128 = value as i128 + d * s;
    if candidate < min as i128 {
        min
    } else if candidate > max as i128 {
        max
    } else {
        candidate as u16
    }
}

/// True when `a` comes no later than `b` in row-major order: by row
/// first, then by column.
pub open spec fn row_major_le(a: (usize, usize), b: (usize, usize)) -> bool {
    a.0 < b.0 || (a.0 == b.0 && a.1 <= b.1)
}

/// Orders two (row, column) positions into (earlier, later) by
/// row-major order, regardless of which one was given first.
pub fn order_positions(a: (usize, usize), b: (usize, usize)) -> (r: (
    (usize, usize),
    (usize, usize),
))
    ensures
        row_major_le(r.0, r.1),
        (r.0 == a && r.1 == b) || (r.0 == b && r.1 == a),
        row_major_le(a, b) ==> r.0 == a && r.1 == b,
        !row_major_le(a, b) ==> r.0 == b && r.1 == a,
{
    if a.0 < b.0 || (a.0 == b.0 && a.1 <= b.1) {
        (a, b)
    } else {
        (b, a)
    }
}

/// The characters of a string as a vector, in order.
pub fn str_chars(s: &str) -> (r: Vec<char>)
    ensures
        r@ == s@,
{
    let n = s.unicode_len();
    let mut out: Vec<char> = Vec::new();
    let mut i: usize = 0;
    while i < n
        invariant
            i <= n,
            n == s@.len(),
            out@ == s@.subrange(0, i as int),
        decreases n - i,
    {
        let c = s.get_char(i);
        out.push(c);
        proof {
            assert(out@ =~= s@.subrange(0, i + 1));
        }
        i += 1;
    }
    proof {
        assert(out@ =~= s@);
    }
    out
}

/// True for exactly the characters with the Unicode `White_Space`
/// property, the set the standard library's `trim` family strips.
pub open spec fn spec_is_whitespace(c: char) -> bool {
    ('\u{0009}' <= c && c <= '\u{000D}') || c == ' ' || c == '\u{0085}' || c == '\u{00A0}'
        || c == '\u{1680}' || ('\u{2000}' <= c && c <= '\u{200A}') || c == '\u{2028}'
        || c == '\u{2029}' || c == '\u{202F}' || c == '\u{205F}' || c == '\u{3000}'
}

/// Tests a character for the Unicode `White_Space` property.
pub fn is_whitespace_char(c: char) -> (r: bool)
    ensures
        r == spec_is_whitespace(c),
{
    ('\u{0009}' <= c && c <= '\u{000D}') || c == ' ' || c == '\u{0085}' || c == '\u{00A0}'
        || c == '\u{1680}' || ('\u{2000}' <= c && c <= '\u{200A}') || c == '\u{2028}'
        || c == '\u{2029}' || c == '\u{202F}' || c == '\u{205F}' || c == '\u{3000}'
}

/// The characters left after dropping leading whitespace.
pub open spec fn trim_front_spec(s: Seq<char>) -> Seq<char>
    decreases s.len(),
{
    if s.len() > 0 && spec_is_whitespace(s[0]) {
        trim_front_spec(s.drop_first())
    } else {
        s
    }
}

/// The characters left after dropping trailing whitespace.
pub open spec fn trim_back_spec(s: Seq<char>) -> Seq<char>
    decreases s.len(),
{
    if s.len() > 0 && spec_is_whitespace(s[s.len() - 1]) {
        trim_back_spec(s.drop_last())
    } else {
        s
    }
}

/// The characters left after dropping whitespace from both ends.
pub open spec fn trim_spec(s: Seq<char>) -> Seq<char> {
    trim_back_spec(trim_front_spec(s))
}

/// Trims whitespace from both ends of a character sequence.
pub fn trim_chars(chars: &[char]) -> (r: Vec<char>)
    ensures
        r@ == trim_spec(chars@),
{
    let len = chars.len();
    let mut lo: usize = 0;
    proof {
        assert(chars@.skip(0) =~= chars@);
    }
    while lo < len && is_whitespace_char(chars[lo])
        invariant
            lo <= len,
            len == chars@.len(),
            trim_front_spec(chars@) == trim_front_spec(chars@.skip(lo as int)),
        decreases len - lo,
    {
        proof {
            assert(chars@.skip(lo as int).drop_first() =~= chars@.skip(lo + 1));
        }
        lo += 1;
    }
    proof {
        assert(trim_front_spec(chars@.skip(lo as int)) == chars@.skip(lo as int));
    }

    let mut hi: usize = len;
    proof {
        assert(chars@.skip(lo as int).take(len - lo) =~= chars@.skip(lo as int));
    }
    while hi > lo && is_whitespace_char(chars[hi - 1])
        invariant
            lo <= hi <= len,
            len == chars@.len(),
            trim_front_spec(chars@) == chars@.skip(lo as int),
            trim_back_spec(chars@.skip(lo as int)) == trim_back_spec(
                chars@.skip(lo as int).take(hi - lo),
            ),
        decreases hi,
    {
        proof {
            let cur = chars@.skip(lo as int).take(hi - lo);
            assert(cur[cur.len() - 1] == chars@[hi - 1]);
            assert(cur.drop_last() =~= chars@.skip(lo as int).take(hi - 1 - lo));
        }
        hi -= 1;
    }
    proof {
        let cur = chars@.skip(lo as int).take(hi - lo);
        if hi > lo {
            assert(cur[cur.len() - 1] == chars@[hi - 1]);
        }
        assert(trim_back_spec(cur) == cur);
    }

    let mut out: Vec<char> = Vec::new();
    let mut i = lo;
    while i < hi
        invariant
            lo <= i <= hi <= len,
            len == chars@.len(),
            out@ == chars@.subrange(lo as int, i as int),
        decreases hi - i,
    {
        out.push(chars[i]);
        proof {
            assert(out@ =~= chars@.subrange(lo as int, i + 1));
        }
        i += 1;
    }
    proof {
        assert(chars@.subrange(lo as int, hi as int) =~= chars@.skip(lo as int).take(hi - lo));
    }
    out
}

/// Builds a string from a sequence of characters.
pub fn chars_to_string(chars: &[char]) -> (r: String)
    ensures
        r@ == chars@,
{
    let mut out = String::new();
    let len = chars.len();
    let mut i: usize = 0;
    while i < len
        invariant
            i <= len,
            len == chars@.len(),
            out@ == chars@.subrange(0, i as int),
        decreases len - i,
    {
        push_char(&mut out, chars[i]);
        proof {
            assert(out@ =~= chars@.subrange(0, i + 1));
        }
        i += 1;
    }
    proof {
        assert(out@ =~= chars@);
    }
    out
}

/// Relies on String::push from std: appends exactly the given character
/// to the end of the string.
#[verifier::external_body]
pub fn push_char(s: &mut String, c: char)
    ensures
        final(s)@ == old(s)@.push(c),
{
    s.push(c);
}

/// The index of the first occurrence of `c` in `s`, if any.
pub open spec fn find_char(s: Seq<char>, c: char) -> Option<int>
    decreases s.len(),
{
    if s.len() == 0 {
        None
    } else if s[0] == c {
        Some(0int)
    } else {
        match find_char(s.drop_first(), c) {
            Some(i) => Some(i + 1),
            None => None,
        }
    }
}

/// `find_char` returns the position of `c` when nothing before `j`
/// equals `c` and `j` holds it.
pub proof fn lemma_find_char_is(s: Seq<char>, c: char, j: int)
    requires
        0 <= j < s.len(),
        s[j] == c,
        forall|m: int| 0 <= m < j ==> s[m] != c,
    ensures
        find_char(s, c) == Some(j),
    decreases j,
{
    if j == 0 {
    } else {
        lemma_find_char_is(s.drop_first(), c, j - 1);
    }
}

/// `find_char` returns nothing when `c` does not occur in `s`.
pub proof fn lemma_find_char_none(s: Seq<char>, c: char)
    requires
        forall|m: int| 0 <= m < s.len() ==> s[m] != c,
    ensures
        find_char(s, c) is None,
    decreases s.len(),
{
    if s.len() > 0 {
        lemma_find_char_none(s.drop_first(), c);
    }
}

/// Finds the first occurrence of `c` in `chars` at or after `from`,
/// as an absolute index.
pub fn find_char_from(chars: &[char], from: usize, c: char) -> (r: Option<usize>)
    requires
        from <= chars@.len(),
    ensures
        match r {
            Some(j) => from <= j < chars@.len() && chars@[j as int] == c && (forall|m: int|
                from <= m < j ==> chars@[m] != c) && find_char(chars@.skip(from as int), c)
                == Some(j - from),
            None => (forall|m: int| from <= m < chars@.len() ==> chars@[m] != c) && find_char(
                chars@.skip(from as int),
                c,
            ) is None,
        },
{
    let len = chars.len();
    let mut i = from;
    while i < len
        invariant
            from <= i <= len,
            len == chars@.len(),
            forall|m: int| from <= m < i ==> chars@[m] != c,
        decreases len - i,
    {
        if chars[i] == c {
            proof {
                let sub = chars@.skip(from as int);
                assert(sub[i - from] == c);
                assert(forall|m: int| 0 <= m < i - from ==> sub[m] != c);
                lemma_find_char_is(sub, c, i - from);
            }
            return Some(i);
        }
        i += 1;
    }
    proof {
        let sub = chars@.skip(from as int);
        assert(forall|m: int| 0 <= m < sub.len() ==> sub[m] != c);
        lemma_find_char_none(sub, c);
    }
    None
}

/// True when `query` occurs in `line` starting at character index `i`.
pub open spec fn match_at(line: Seq<char>, query: Seq<char>, i: int) -> bool {
    &&& 0 <= i
    &&& i + query.len() <= line.len()
    &&& line.subrange(i, i + query.len()) == query
}

/// True when `chars` holds `query` at position `at`.
fn chars_match(chars: &Vec<char>, query: &Vec<char>, at: usize) -> (r: bool)
    requires
        at + query@.len() <= chars@.len(),
    ensures
        r == match_at(chars@, query@, at as int),
{
    let mut k: usize = 0;
    let qlen = query.len();
    let clen = chars.len();
    while k < qlen
        invariant
            k <= qlen,
            qlen == query@.len(),
            clen == chars@.len(),
            at + qlen <= clen,
            forall|j: int| 0 <= j < k ==> chars@[at + j] == query@[j],
        decreases qlen - k,
    {
        if chars[at + k] != query[k] {
            assert(chars@.subrange(at as int, at + qlen) != query@) by {
                assert(chars@.subrange(at as int, at + qlen)[k as int] != query@[k as int]);
            }
            return false;
        }
        k += 1;
    }
    proof {
        assert(chars@.subrange(at as int, at + qlen) =~= query@);
    }
    true
}

/// Finds the first character-indexed occurrence of `query` in `line` at
/// or after column `start_col`; an empty query never matches.
pub fn find_query_in_line(line: &str, query: &str, start_col: usize) -> (r: Option<usize>)
    ensures
        query@.len() == 0 ==> r is None,
        match r {
            Some(i) => {
                &&& query@.len() > 0
                &&& start_col <= i || line@.len() <= i
                &&& match_at(line@, query@, i as int)
                &&& forall|j: int|
                    #![auto]
                    (if start_col <= line@.len() {
                        start_col as int
                    } else {
                        line@.len() as int
                    }) <= j < i ==> !match_at(line@, query@, j)
            },
            None => query@.len() == 0 || forall|j: int|
                #![auto]
                (if start_col <= line@.len() {
                    start_col as int
                } else {
                    line@.len() as int
                }) <= j ==> !match_at(line@, query@, j),
        },
{
    if query.is_empty() {
        return None;
    }

    let line_chars = str_chars(line);
    let query_chars = str_chars(query);
    let llen = line_chars.len();
    let qlen = query_chars.len();

    if qlen > llen {
        return None;
    }

    let from = if start_col <= llen {
        start_col
    } else {
        llen
    };
    let last = llen - qlen;
    let mut idx = from;
    while idx <= last
        invariant
            from <= idx,
            idx <= llen + 1,
            last == llen - qlen,
            from == (if start_col <= llen {
                start_col
            } else {
                llen
            }),
            qlen <= llen,
            qlen >= 1,
            llen == line@.len(),
            qlen == query@.len(),
            line_chars@ == line@,
            query_chars@ == query@,
            forall|j: int| #![auto] from <= j < idx ==> !match_at(line@, query@, j),
        decreases llen + 1 - idx,
    {
        if chars_match(&line_chars, &query_chars, idx) {
            return Some(idx);
        }
        idx += 1;
    }

    None
}

/// True when a byte has the form of a UTF-8 continuation byte.
fn is_cont(b: u8) -> (r: bool)
    ensures
        r == vstd::utf8::is_continuation_byte(b),
{
    0x80 <= b && b <= 0xBF
}

/// A position in a UTF-8 byte string where a cursor may rest: the
/// start, the end, or the first byte of a character (any byte that is
/// not a UTF-8 continuation byte).
pub open spec fn byte_boundary(b: Seq<u8>, j: int) -> bool {
    j == 0 || j == b.len() || !vstd::utf8::is_continuation_byte(b[j])
}

/// The nearest boundary at or below `i`.
pub open spec fn prev_boundary_from(b: Seq<u8>, i: int) -> int
    decreases i,
{
    if i <= 0 {
        0
    } else if byte_boundary(b, i) {
        i
    } else {
        prev_boundary_from(b, i - 1)
    }
}

/// A byte cursor clamped into the string and pulled back onto a
/// character boundary.
pub open spec fn clamp_cursor_spec(b: Seq<u8>, cursor: int) -> int {
    prev_boundary_from(
        b,
        if cursor <= b.len() {
            cursor
        } else {
            b.len() as int
        },
    )
}

/// The start of the character after position `i`, capped at `hi`.
pub open spec fn next_start_in(b: Seq<u8>, hi: int, i: int) -> int
    decreases hi - i,
{
    if i + 1 >= hi {
        hi
    } else if !vstd::utf8::is_continuation_byte(b[i + 1]) {
        i + 1
    } else {
        next_start_in(b, hi, i + 1)
    }
}

/// The byte position reached by stepping `k` characters forward from
/// `i`, staying at or below `hi`.
pub open spec fn advance_chars_in(b: Seq<u8>, hi: int, i: int, k: int) -> int
    decreases k,
{
    if k <= 0 || i >= hi {
        i
    } else {
        advance_chars_in(b, hi, next_start_in(b, hi, i), k - 1)
    }
}

/// The number of character starts in the byte range `[from, to)`.
pub open spec fn char_count_in(b: Seq<u8>, from: int, to: int) -> int
    decreases to - from,
{
    if from >= to {
        0
    } else {
        char_count_in(b, from, to - 1) + if !vstd::utf8::is_continuation_byte(b[to - 1]) {
            1int
        } else {
            0int
        }
    }
}

/// The start of the line holding position `i`: just after the nearest
/// newline byte before it, or the start of the text.
pub open spec fn line_start_from(b: Seq<u8>, i: int) -> int
    decreases i,
{
    if i <= 0 {
        0
    } else if b[i - 1] == 10 {
        i
    } else {
        line_start_from(b, i - 1)
    }
}

/// The end of the line holding position `i`: the nearest newline byte
/// at or after it, or the end of the text.
pub open spec fn line_end_from(b: Seq<u8>, i: int) -> int
    decreases b.len() - i,
{
    if i >= b.len() {
        b.len() as int
    } else if b[i] == 10 {
        i
    } else {
        line_end_from(b, i + 1)
    }
}

/// Clamps a byte cursor into the text and onto a character boundary,
/// moving left when it lands inside a multi-byte character.
pub fn clamp_text_cursor(text: &str, cursor: usize) -> (r: usize)
    ensures
        r as int == clamp_cursor_spec(text.spec_bytes(), cursor as int),
        r <= text.spec_bytes().len(),
{
    let bytes = text.as_bytes();
    let len = bytes.len();
    let capped = if cursor <= len {
        cursor
    } else {
        len
    };
    let mut i = capped;
    while i > 0 && i < len && is_cont(bytes[i])
        invariant
            i <= capped <= len,
            len == bytes@.len(),
            bytes@ == text.spec_bytes(),
            prev_boundary_from(bytes@, capped as int) == prev_boundary_from(bytes@, i as int),
        decreases i,
    {
        proof {
            assert(!byte_boundary(bytes@, i as int));
        }
        i -= 1;
    }
    proof {
        if i > 0 {
            assert(byte_boundary(bytes@, i as int));
        }
        assert(prev_boundary_from(bytes@, i as int) == i);
    }
    i
}

/// Steps `k` characters forward from byte position `start`, staying at
/// or below `hi`.
fn advance_chars_exec(bytes: &[u8], hi: usize, start: usize, k: usize) -> (r: usize)
    requires
        start <= hi,
        hi <= bytes@.len(),
    ensures
        r as int == advance_chars_in(bytes@, hi as int, start as int, k as int),
        start <= r <= hi,
{
    let mut i = start;
    let mut steps: usize = 0;
    while steps < k && i < hi
        invariant
            steps <= k,
            start <= i <= hi,
            hi <= bytes@.len(),
            advance_chars_in(bytes@, hi as int, start as int, k as int) == advance_chars_in(
                bytes@,
                hi as int,
                i as int,
                k - steps,
            ),
        decreases k - steps,
    {
        let mut j = i + 1;
        while j < hi && is_cont(bytes[j])
            invariant
                i < j <= hi,
                hi <= bytes@.len(),
                next_start_in(bytes@, hi as int, i as int) == next_start_in(
                    bytes@,
                    hi as int,
                    j - 1,
                ),
            decreases hi - j,
        {
            j += 1;
        }
        proof {
            assert(next_start_in(bytes@, hi as int, j - 1) == j);
        }
        i = j;
        steps += 1;
    }
    i
}

/// Counts the character starts in the byte range `[from, to)`.
fn char_count_exec(bytes: &[u8], from: usize, to: usize) -> (r: usize)
    requires
        from <= to,
        to <= bytes@.len(),
    ensures
        r as int == char_count_in(bytes@, from as int, to as int),
        r <= to - from,
{
    let mut cnt: usize = 0;
    let mut j = from;
    while j < to
        invariant
            from <= j <= to,
            to <= bytes@.len(),
            cnt as int == char_count_in(bytes@, from as int, j as int),
            cnt <= j - from,
        decreases to - j,
    {
        if !is_cont(bytes[j]) {
            cnt += 1;
        }
        j += 1;
    }
    cnt
}

/// Finds the start of the line holding the (clamped) position `i`.
fn line_start_exec(bytes: &[u8], at: usize) -> (r: usize)
    requires
        at <= bytes@.len(),
    ensures
        r as int == line_start_from(bytes@, at as int),
        r <= at,
{
    let mut i = at;
    while i > 0 && bytes[i - 1] != 10
        invariant
            i <= at <= bytes@.len(),
            line_start_from(bytes@, at as int) == line_start_from(bytes@, i as int),
        decreases i,
    {
        i -= 1;
    }
    i
}

/// Finds the end of the line holding the (clamped) position `i`.
fn line_end_exec(bytes: &[u8], at: usize) -> (r: usize)
    requires
        at <= bytes@.len(),
    ensures
        r as int == line_end_from(bytes@, at as int),
        at <= r <= bytes@.len(),
{
    let len = bytes.len();
    let mut i = at;
    while i < len && bytes[i] != 10
        invariant
            at <= i <= len,
            len == bytes@.len(),
            line_end_from(bytes@, at as int) == line_end_from(bytes@, i as int),
        decreases len - i,
    {
        i += 1;
    }
    i
}

/// Moves a byte cursor one character to the left, or stays at the
/// start.
pub fn prev_text_cursor(text: &str, cursor: usize) -> (r: usize)
    ensures
        r as int == ({
            let b = text.spec_bytes();
            let c = clamp_cursor_spec(b, cursor as int);
            if c == 0 {
                0int
            } else {
                prev_boundary_from(b, c - 1)
            }
        }),
{
    let c = clamp_text_cursor(text, cursor);
    if c == 0 {
        return 0;
    }
    let bytes = text.as_bytes();
    let len = bytes.len();
    let mut i = c - 1;
    while i > 0 && i < len && is_cont(bytes[i])
        invariant
            i <= c - 1,
            c <= len,
            len == bytes@.len(),
            bytes@ == text.spec_bytes(),
            prev_boundary_from(bytes@, c - 1) == prev_boundary_from(bytes@, i as int),
        decreases i,
    {
        proof {
            assert(!byte_boundary(bytes@, i as int));
        }
        i -= 1;
    }
    proof {
        if i > 0 {
            assert(byte_boundary(bytes@, i as int));
        }
        assert(prev_boundary_from(bytes@, i as int) == i);
    }
    i
}

/// Moves a byte cursor one character to the right, or stays at the end.
pub fn next_text_cursor(text: &str, cursor: usize) -> (r: usize)
    ensures
        r as int == ({
            let b = text.spec_bytes();
            let c = clamp_cursor_spec(b, cursor as int);
            if c >= b.len() {
                b.len() as int
            } else {
                next_start_in(b, b.len() as int, c)
            }
        }),
{
    let c = clamp_text_cursor(text, cursor);
    let bytes = text.as_bytes();
    let len = bytes.len();
    if c >= len {
        return len;
    }
    let mut j = c + 1;
    while j < len && is_cont(bytes[j])
        invariant
            c < j <= len,
            len == bytes@.len(),
            bytes@ == text.spec_bytes(),
            next_start_in(bytes@, len as int, c as int) == next_start_in(bytes@, len as int, j - 1),
        decreases len - j,
    {
        j += 1;
    }
    proof {
        assert(next_start_in(bytes@, len as int, j - 1) == j);
    }
    j
}

/// Moves a byte cursor to the start of its line.
pub fn move_text_cursor_home(text: &str, cursor: usize) -> (r: usize)
    ensures
        r as int == line_start_from(text.spec_bytes(), clamp_cursor_spec(
            text.spec_bytes(),
            cursor as int,
        )),
{
    let c = clamp_text_cursor(text, cursor);
    line_start_exec(text.as_bytes(), c)
}

/// Moves a byte cursor to the end of its line, just before the newline.
pub fn move_text_cursor_end(text: &str, cursor: usize) -> (r: usize)
    ensures
        r as int == line_end_from(text.spec_bytes(), clamp_cursor_spec(
            text.spec_bytes(),
            cursor as int,
        )),
{
    let c = clamp_text_cursor(text, cursor);
    line_end_exec(text.as_bytes(), c)
}

/// The byte index of the character at offset `char_offset`, or the end
/// of the text when there are fewer characters.
pub fn byte_index_for_char_offset(text: &str, char_offset: usize) -> (r: usize)
    ensures
        r as int == advance_chars_in(
            text.spec_bytes(),
            text.spec_bytes().len() as int,
            0,
            char_offset as int,
        ),
{
    let bytes = text.as_bytes();
    advance_chars_exec(bytes, bytes.len(), 0, char_offset)
}

/// Where moving one line up lands: the same column (in characters,
/// capped at the previous line's length) of the previous line, or the
/// clamped cursor itself on the first line.
pub open spec fn move_up_spec(b: Seq<u8>, cursor: int) -> int {
    let c = clamp_cursor_spec(b, cursor);
    let start = line_start_from(b, c);
    if start == 0 {
        c
    } else {
        let col = char_count_in(b, start, c);
        let prev_end = start - 1;
        let prev_start = line_start_from(b, prev_end);
        let prev_chars = char_count_in(b, prev_start, prev_end);
        let target = if col <= prev_chars {
            col
        } else {
            prev_chars
        };
        advance_chars_in(b, prev_end, prev_start, target)
    }
}

/// Where moving one line down lands: the same column (in characters,
/// capped at the next line's length) of the next line, or the clamped
/// cursor itself on the last line.
pub open spec fn move_down_spec(b: Seq<u8>, cursor: int) -> int {
    let c = clamp_cursor_spec(b, cursor);
    let start = line_start_from(b, c);
    let col = char_count_in(b, start, c);
    let end = line_end_from(b, c);
    if end == b.len() {
        c
    } else {
        let next_start = end + 1;
        let next_end = line_end_from(b, next_start);
        let next_chars = char_count_in(b, next_start, next_end);
        let target = if col <= next_chars {
            col
        } else {
            next_chars
        };
        advance_chars_in(b, next_end, next_start, target)
    }
}

/// Moves a byte cursor one line up, keeping the column when possible.
pub fn move_text_cursor_up(text: &str, cursor: usize) -> (r: usize)
    ensures
        r as int == move_up_spec(text.spec_bytes(), cursor as int),
{
    let c = clamp_text_cursor(text, cursor);
    let bytes = text.as_bytes();
    let start = line_start_exec(bytes, c);
    if start == 0 {
        return c;
    }

    let col = char_count_exec(bytes, start, c);
    let prev_end = start - 1;
    let prev_start = line_start_exec(bytes, prev_end);
    let prev_chars = char_count_exec(bytes, prev_start, prev_end);

    let target = if col <= prev_chars {
        col
    } else {
        prev_chars
    };
    advance_chars_exec(bytes, prev_end, prev_start, target)
}

/// Moves a byte cursor one line down, keeping the column when possible.
pub fn move_text_cursor_down(text: &str, cursor: usize) -> (r: usize)
    ensures
        r as int == move_down_spec(text.spec_bytes(), cursor as int),
{
    let c = clamp_text_cursor(text, cursor);
    let bytes = text.as_bytes();
    let start = line_start_exec(bytes, c);
    let col = char_count_exec(bytes, start, c);
    let end = line_end_exec(bytes, c);
    if end == bytes.len() {
        return c;
    }

    let next_start = end + 1;
    let next_end = line_end_exec(bytes, next_start);
    let next_chars = char_count_exec(bytes, next_start, next_end);

    let target = if col <= next_chars {
        col
    } else {
        next_chars
    };
    advance_chars_exec(bytes, next_end, next_start, target)
}

} // verus!
