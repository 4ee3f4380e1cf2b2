//! Parsing of the version-control tool's machine output: NUL-separated
//! porcelain status records and branch listings.  The calls that run
//! the tool live outside the library; only their text arrives here.

use vstd::prelude::*;
use vstd::utf8::decode_utf8;
use vstd::utf8::valid_utf8;
use crate::diff::split_lines;
use crate::diff::split_newlines;
use crate::util::{find_char, is_whitespace_char, trim_chars, trim_spec, trim_back_spec, chars_to_string};

verus! {

/// Whether an unstaged entry is a change to a versioned file or a new file.
#[derive(Debug, Clone, Copy, PartialEq, Eq, Structural)]
pub enum UnstagedKind {
    Versioned,
    Untracked,
}

/// A changed file in the working tree.
#[derive(Debug, Clone, PartialEq, Eq)]
pub struct FileEntry {
    pub path: String,
    pub kind: UnstagedKind,
}

/// A local branch and whether it is checked out.
#[derive(Debug, Clone, PartialEq, Eq)]
pub struct BranchEntry {
    pub name: String,
    pub current: bool,
}

/// The staged and unstaged changes of the repository.
#[derive(Debug, Clone)]
pub struct RepoStatus {
    pub unstaged: Vec<FileEntry>,
    pub staged: Vec<String>,
}

impl Default for RepoStatus {
    fn default() -> (r: Self)
        ensures
            r.unstaged@.len() == 0,
            r.staged@.len() == 0,
    {
        RepoStatus { unstaged: Vec::new(), staged: Vec::new() }
    }
}

/// Which diff the tool is asked for.
#[derive(Debug, Clone, Copy, PartialEq, Eq, Structural)]
pub enum DiffMode {
    UnstagedTracked,
    Untracked,
    Staged,
}

/// What the lossy UTF-8 decoding of std yields for arbitrary bytes.
pub uninterp spec fn lossy_decode(bytes: Seq<u8>) -> Seq<char>;

/// Relies on String::from_utf8_lossy from std: the result depends on
/// the bytes alone, and valid UTF-8 decodes exactly.
#[verifier::external_body]
fn lossy_string(bytes: &[u8]) -> (r: String)
    ensures
        r@ == lossy_decode(bytes@),
        valid_utf8(bytes@) ==> r@ == decode_utf8(bytes@),
{
    String::from_utf8_lossy(bytes).into_owned()
}

/// The index of the first zero byte, if any.
pub open spec fn find_nul(s: Seq<u8>) -> Option<int>
    decreases s.len(),
{
    if s.len() == 0 {
        None
    } else if s[0] == 0 {
        Some(0int)
    } else {
        match find_nul(s.drop_first()) {
            Some(i) => Some(i + 1),
            None => None,
        }
    }
}

proof fn lemma_find_nul_is(s: Seq<u8>, j: int)
    requires
        0 <= j < s.len(),
        s[j] == 0,
        forall|m: int| 0 <= m < j ==> s[m] != 0,
    ensures
        find_nul(s) == Some(j),
    decreases j,
{
    if j > 0 {
        lemma_find_nul_is(s.drop_first(), j - 1);
    }
}

proof fn lemma_find_nul_none(s: Seq<u8>)
    requires
        forall|m: int| 0 <= m < s.len() ==> s[m] != 0,
    ensures
        find_nul(s) is None,
    decreases s.len(),
{
    if s.len() > 0 {
        lemma_find_nul_none(s.drop_first());
    }
}

/// The non-empty NUL-separated records of a byte string, each decoded
/// leniently to text.
pub open spec fn nul_records(raw: Seq<u8>) -> Seq<Seq<char>>
    decreases raw.len(),
{
    if raw.len() == 0 {
        seq![]
    } else {
        match find_nul(raw) {
            None => seq![lossy_decode(raw)],
            Some(i) => if 0 <= i < raw.len() {
                (if i == 0 {
                    seq![]
                } else {
                    seq![lossy_decode(raw.take(i))]
                }) + nul_records(raw.skip(i + 1))
            } else {
                seq![lossy_decode(raw)]
            },
        }
    }
}

/// Splits NUL-separated output into its non-empty records as text.
pub fn parse_nul_terminated(raw: &[u8]) -> (r: Vec<String>)
    ensures
        r@.map_values(|s: String| s@) == nul_records(raw@),
{
    let len = raw.len();
    let mut out: Vec<String> = Vec::new();
    let mut pos: usize = 0;
    proof {
        assert(raw@.skip(0) =~= raw@);
        assert(out@.map_values(|s: String| s@) + nul_records(raw@) =~= nul_records(raw@));
    }
    while pos < len
        invariant
            pos <= len,
            len == raw@.len(),
            nul_records(raw@) == out@.map_values(|s: String| s@) + nul_records(
                raw@.skip(pos as int),
            ),
        decreases len - pos,
    {
        let ghost rest = raw@.skip(pos as int);
        let ghost out0 = out@;

        let mut j = pos;
        while j < len && raw[j] != 0
            invariant
                pos <= j <= len,
                len == raw@.len(),
                forall|m: int| pos <= m < j ==> raw@[m] != 0,
            decreases len - j,
        {
            j += 1;
        }
        proof {
            if j < len {
                assert(rest[j - pos] == raw@[j as int]);
                assert(forall|m: int| 0 <= m < j - pos ==> rest[m] == raw@[pos + m]);
                lemma_find_nul_is(rest, j - pos);
            } else {
                assert(forall|m: int| 0 <= m < rest.len() ==> rest[m] == raw@[pos + m]);
                lemma_find_nul_none(rest);
            }
        }

        let next_pos = if j < len {
            j + 1
        } else {
            len
        };
        if j > pos {
            let chunk = lossy_string(&raw[pos..j]);
            proof {
                assert(raw@.subrange(pos as int, j as int) =~= rest.take(j - pos));
                if j < len {
                    assert(rest.skip(j + 1 - pos) =~= raw@.skip(j + 1));
                } else {
                    assert(rest.take(j - pos) =~= rest);
                    assert(raw@.skip(next_pos as int) =~= Seq::<u8>::empty());
                }
                assert(nul_records(rest) =~= seq![chunk@] + nul_records(
                    raw@.skip(next_pos as int),
                ));
                assert((out0.push(chunk)).map_values(|s: String| s@) =~= out0.map_values(
                    |s: String| s@,
                ) + seq![chunk@]);
            }
            out.push(chunk);
        } else {
            proof {
                assert(rest.skip(1) =~= raw@.skip(next_pos as int));
                assert(nul_records(rest) =~= nul_records(raw@.skip(next_pos as int)));
            }
        }
        pos = next_pos;
    }
    proof {
        assert(nul_records(raw@.skip(pos as int)) =~= Seq::<Seq<char>>::empty());
        assert(out@.map_values(|s: String| s@) =~= nul_records(raw@));
    }
    out
}

/// Lexicographic order on character sequences, the order the standard
/// string comparison gives (UTF-8 byte order agrees with it).
pub open spec fn lex_le(a: Seq<char>, b: Seq<char>) -> bool
    decreases a.len(),
{
    if a.len() == 0 {
        true
    } else if b.len() == 0 {
        false
    } else if a[0] == b[0] {
        lex_le(a.drop_first(), b.drop_first())
    } else {
        a[0] < b[0]
    }
}

/// Compares two strings lexicographically by characters.
fn str_le(a: &str, b: &str) -> (r: bool)
    ensures
        r == lex_le(a@, b@),
{
    let alen = a.unicode_len();
    let blen = b.unicode_len();
    let mut i: usize = 0;
    proof {
        assert(a@.skip(0) =~= a@);
        assert(b@.skip(0) =~= b@);
    }
    while i < alen && i < blen
        invariant
            i <= alen,
            i <= blen,
            alen == a@.len(),
            blen == b@.len(),
            lex_le(a@, b@) == lex_le(a@.skip(i as int), b@.skip(i as int)),
        decreases alen - i,
    {
        let ca = a.get_char(i);
        let cb = b.get_char(i);
        if ca != cb {
            return ca < cb;
        }
        proof {
            assert(a@.skip(i as int).drop_first() =~= a@.skip(i + 1));
            assert(b@.skip(i as int).drop_first() =~= b@.skip(i + 1));
        }
        i += 1;
    }
    alen <= blen
}

/// The views of a vector of strings.
pub open spec fn string_views(s: Seq<String>) -> Seq<Seq<char>> {
    s.map_values(|x: String| x@)
}

/// Where an insertion sort puts a new string: after everything ordered
/// at or before it, in front of everything greater.
pub open spec fn insert_sorted_str(s: Seq<Seq<char>>, x: Seq<char>) -> Seq<Seq<char>>
    decreases s.len(),
{
    if s.len() == 0 {
        seq![x]
    } else if lex_le(s.last(), x) {
        s.push(x)
    } else {
        insert_sorted_str(s.drop_last(), x).push(s.last())
    }
}

/// Strings sorted by repeated insertion, a stable sort.
pub open spec fn sort_strs(s: Seq<Seq<char>>) -> Seq<Seq<char>>
    decreases s.len(),
{
    if s.len() == 0 {
        seq![]
    } else {
        insert_sorted_str(sort_strs(s.drop_last()), s.last())
    }
}

/// Inserting at the split point between the ordered prefix and the
/// strictly greater suffix is what `insert_sorted_str` does.
proof fn lemma_insert_sorted_str_at(s: Seq<Seq<char>>, x: Seq<char>, k: int)
    requires
        0 <= k <= s.len(),
        forall|m: int| k <= m < s.len() ==> !lex_le(#[trigger] s[m], x),
        k > 0 ==> lex_le(s[k - 1], x),
    ensures
        insert_sorted_str(s, x) =~= s.take(k) + seq![x] + s.skip(k),
    decreases s.len(),
{
    if s.len() == 0 {
        assert(s.take(0) =~= Seq::<Seq<char>>::empty());
        assert(s.skip(0) =~= Seq::<Seq<char>>::empty());
    } else if lex_le(s.last(), x) {
        assert(k == s.len());
        assert(s.take(k) =~= s);
        assert(s.skip(k) =~= Seq::<Seq<char>>::empty());
    } else {
        assert(k < s.len());
        lemma_insert_sorted_str_at(s.drop_last(), x, k);
        assert(s.drop_last().take(k) =~= s.take(k));
        assert((s.drop_last().take(k) + seq![x] + s.drop_last().skip(k)).push(s.last()) =~= s.take(
            k,
        ) + seq![x] + s.skip(k));
    }
}

/// Sorts a vector of strings lexicographically with a stable insertion
/// sort.
fn sort_strings(v: &mut Vec<String>)
    ensures
        string_views(final(v)@) == sort_strs(string_views(old(v)@)),
{
    let n = v.len();
    let mut out: Vec<String> = Vec::new();
    let mut i: usize = 0;
    proof {
        assert(string_views(v@.take(0)) =~= Seq::<Seq<char>>::empty());
        assert(string_views(out@) =~= sort_strs(string_views(v@.take(0))));
    }
    while i < n
        invariant
            i <= n,
            n == v@.len(),
            string_views(out@) == sort_strs(string_views(v@.take(i as int))),
        decreases n - i,
    {
        let x = v[i].clone();
        let mut k = out.len();
        while k > 0 && !str_le(out[k - 1].as_str(), x.as_str())
            invariant
                k <= out@.len(),
                forall|m: int| k <= m < out@.len() ==> !lex_le(#[trigger] out@[m]@, x@),
            decreases k,
        {
            k -= 1;
        }
        proof {
            lemma_insert_sorted_str_at(string_views(out@), x@, k as int);
            assert(string_views(v@.take(i + 1)).drop_last() =~= string_views(v@.take(i as int)));
            assert(string_views(v@.take(i + 1)).last() == v@[i as int]@);
            assert(string_views(out@.insert(k as int, x)) =~= string_views(out@).take(k as int)
                + seq![x@] + string_views(out@).skip(k as int));
        }
        out.insert(k, x);
        i += 1;
    }
    proof {
        assert(v@.take(n as int) =~= v@);
    }
    *v = out;
}

/// Consecutive equal strings collapsed to one, as the standard
/// deduplication does.
pub open spec fn dedup_adjacent(s: Seq<Seq<char>>) -> Seq<Seq<char>>
    decreases s.len(),
{
    if s.len() <= 1 {
        s
    } else if s[s.len() - 1] == s[s.len() - 2] {
        dedup_adjacent(s.drop_last())
    } else {
        dedup_adjacent(s.drop_last()).push(s.last())
    }
}

/// Removes consecutive duplicate strings.
fn dedup_strings(v: &mut Vec<String>)
    ensures
        string_views(final(v)@) == dedup_adjacent(string_views(old(v)@)),
{
    let n = v.len();
    let mut out: Vec<String> = Vec::new();
    let mut i: usize = 0;
    proof {
        assert(string_views(v@.take(0)) =~= Seq::<Seq<char>>::empty());
        assert(string_views(out@) =~= dedup_adjacent(string_views(v@.take(0))));
    }
    while i < n
        invariant
            i <= n,
            n == v@.len(),
            string_views(out@) == dedup_adjacent(string_views(v@.take(i as int))),
        decreases n - i,
    {
        proof {
            assert(string_views(v@.take(i + 1)).drop_last() =~= string_views(v@.take(i as int)));
            assert(string_views(v@.take(i + 1)).last() == v@[i as int]@);
            if i > 0 {
                assert(string_views(v@.take(i + 1))[i - 1] == v@[i - 1]@);
            }
        }
        if i > 0 && v[i] == v[i - 1] {
        } else {
            let x = v[i].clone();
            proof {
                assert(string_views(out@.push(x)) =~= string_views(out@).push(x@));
            }
            out.push(x);
        }
        i += 1;
    }
    proof {
        assert(v@.take(n as int) =~= v@);
    }
    *v = out;
}

/// The models of a vector of file entries: path text and kind.
pub open spec fn entry_views(s: Seq<FileEntry>) -> Seq<(Seq<char>, UnstagedKind)> {
    s.map_values(|e: FileEntry| (e.path@, e.kind))
}

/// A copy of a file entry with the same model.
fn clone_entry(e: &FileEntry) -> (r: FileEntry)
    ensures
        r.path@ == e.path@,
        r.kind == e.kind,
{
    FileEntry { path: e.path.clone(), kind: e.kind }
}

/// Where an insertion sort by path puts a new entry.
pub open spec fn insert_sorted_entry(
    s: Seq<(Seq<char>, UnstagedKind)>,
    x: (Seq<char>, UnstagedKind),
) -> Seq<(Seq<char>, UnstagedKind)>
    decreases s.len(),
{
    if s.len() == 0 {
        seq![x]
    } else if lex_le(s.last().0, x.0) {
        s.push(x)
    } else {
        insert_sorted_entry(s.drop_last(), x).push(s.last())
    }
}

/// File entries sorted by path with a stable insertion sort.
pub open spec fn sort_entries(s: Seq<(Seq<char>, UnstagedKind)>) -> Seq<
    (Seq<char>, UnstagedKind),
>
    decreases s.len(),
{
    if s.len() == 0 {
        seq![]
    } else {
        insert_sorted_entry(sort_entries(s.drop_last()), s.last())
    }
}

proof fn lemma_insert_sorted_entry_at(
    s: Seq<(Seq<char>, UnstagedKind)>,
    x: (Seq<char>, UnstagedKind),
    k: int,
)
    requires
        0 <= k <= s.len(),
        forall|m: int| k <= m < s.len() ==> !lex_le((#[trigger] s[m]).0, x.0),
        k > 0 ==> lex_le(s[k - 1].0, x.0),
    ensures
        insert_sorted_entry(s, x) =~= s.take(k) + seq![x] + s.skip(k),
    decreases s.len(),
{
    if s.len() == 0 {
        assert(s.take(0) =~= Seq::<(Seq<char>, UnstagedKind)>::empty());
        assert(s.skip(0) =~= Seq::<(Seq<char>, UnstagedKind)>::empty());
    } else if lex_le(s.last().0, x.0) {
        assert(k == s.len());
        assert(s.take(k) =~= s);
        assert(s.skip(k) =~= Seq::<(Seq<char>, UnstagedKind)>::empty());
    } else {
        assert(k < s.len());
        lemma_insert_sorted_entry_at(s.drop_last(), x, k);
        assert(s.drop_last().take(k) =~= s.take(k));
        assert((s.drop_last().take(k) + seq![x] + s.drop_last().skip(k)).push(s.last()) =~= s.take(
            k,
        ) + seq![x] + s.skip(k));
    }
}

/// Sorts file entries by path with a stable insertion sort.
fn sort_file_entries(v: &mut Vec<FileEntry>)
    ensures
        entry_views(final(v)@) == sort_entries(entry_views(old(v)@)),
{
    let n = v.len();
    let mut out: Vec<FileEntry> = Vec::new();
    let mut i: usize = 0;
    proof {
        assert(entry_views(v@.take(0)) =~= Seq::<(Seq<char>, UnstagedKind)>::empty());
        assert(entry_views(out@) =~= sort_entries(entry_views(v@.take(0))));
    }
    while i < n
        invariant
            i <= n,
            n == v@.len(),
            entry_views(out@) == sort_entries(entry_views(v@.take(i as int))),
        decreases n - i,
    {
        let x = clone_entry(&v[i]);
        let mut k = out.len();
        while k > 0 && !str_le(out[k - 1].path.as_str(), x.path.as_str())
            invariant
                k <= out@.len(),
                forall|m: int| k <= m < out@.len() ==> !lex_le((#[trigger] out@[m]).path@, x.path@),
            decreases k,
        {
            k -= 1;
        }
        proof {
            lemma_insert_sorted_entry_at(entry_views(out@), (x.path@, x.kind), k as int);
            assert(entry_views(v@.take(i + 1)).drop_last() =~= entry_views(v@.take(i as int)));
            assert(entry_views(v@.take(i + 1)).last() == (v@[i as int].path@, v@[i as int].kind));
            assert(entry_views(out@.insert(k as int, x)) =~= entry_views(out@).take(k as int)
                + seq![(x.path@, x.kind)] + entry_views(out@).skip(k as int));
        }
        out.insert(k, x);
        i += 1;
    }
    proof {
        assert(v@.take(n as int) =~= v@);
    }
    *v = out;
}

/// Consecutive entries equal in both path and kind collapsed to one.
pub open spec fn dedup_entries(s: Seq<(Seq<char>, UnstagedKind)>) -> Seq<
    (Seq<char>, UnstagedKind),
>
    decreases s.len(),
{
    if s.len() <= 1 {
        s
    } else if s[s.len() - 1] == s[s.len() - 2] {
        dedup_entries(s.drop_last())
    } else {
        dedup_entries(s.drop_last()).push(s.last())
    }
}

/// Removes consecutive duplicate entries (same path and kind).
fn dedup_file_entries(v: &mut Vec<FileEntry>)
    ensures
        entry_views(final(v)@) == dedup_entries(entry_views(old(v)@)),
{
    let n = v.len();
    let mut out: Vec<FileEntry> = Vec::new();
    let mut i: usize = 0;
    proof {
        assert(entry_views(v@.take(0)) =~= Seq::<(Seq<char>, UnstagedKind)>::empty());
        assert(entry_views(out@) =~= dedup_entries(entry_views(v@.take(0))));
    }
    while i < n
        invariant
            i <= n,
            n == v@.len(),
            entry_views(out@) == dedup_entries(entry_views(v@.take(i as int))),
        decreases n - i,
    {
        proof {
            assert(entry_views(v@.take(i + 1)).drop_last() =~= entry_views(v@.take(i as int)));
            assert(entry_views(v@.take(i + 1)).last() == (v@[i as int].path@, v@[i as int].kind));
            if i > 0 {
                assert(entry_views(v@.take(i + 1))[i - 1] == (
                    v@[i - 1].path@,
                    v@[i - 1].kind,
                ));
            }
        }
        let same = if i > 0 {
            let same_path = v[i].path == v[i - 1].path;
            let same_kind = match (v[i].kind, v[i - 1].kind) {
                (UnstagedKind::Versioned, UnstagedKind::Versioned) => true,
                (UnstagedKind::Untracked, UnstagedKind::Untracked) => true,
                _ => false,
            };
            same_path && same_kind
        } else {
            false
        };
        if !same {
            let x = clone_entry(&v[i]);
            proof {
                assert(entry_views(out@.push(x)) =~= entry_views(out@).push((x.path@, x.kind)));
            }
            out.push(x);
        }
        i += 1;
    }
    proof {
        assert(v@.take(n as int) =~= v@);
    }
    *v = out;
}

/// Walks the porcelain records from `idx`, collecting staged paths and
/// unstaged entries.  A record shorter than three characters, an
/// ignored entry (`!!`), or one without the separating space is
/// skipped; a rename or copy takes its destination path from the next
/// record; `??` marks an untracked file; otherwise a non-space first
/// letter stages the path and a non-space second letter lists it as an
/// unstaged change.
pub open spec fn porcelain_fold(
    records: Seq<Seq<char>>,
    idx: int,
    staged: Seq<Seq<char>>,
    unstaged: Seq<(Seq<char>, UnstagedKind)>,
) -> (Seq<Seq<char>>, Seq<(Seq<char>, UnstagedKind)>)
    decreases records.len() - idx,
{
    if idx < 0 || idx >= records.len() {
        (staged, unstaged)
    } else {
        let entry = records[idx];
        let next = idx + 1;
        if entry.len() < 3 {
            porcelain_fold(records, next, staged, unstaged)
        } else {
            let x = entry[0];
            let y = entry[1];
            if x == '!' && y == '!' {
                porcelain_fold(records, next, staged, unstaged)
            } else if entry[2] != ' ' {
                porcelain_fold(records, next, staged, unstaged)
            } else {
                let rename = x == 'R' || x == 'C' || y == 'R' || y == 'C';
                let path = if rename && next < records.len() {
                    records[next]
                } else {
                    entry.skip(3)
                };
                let next2 = if rename && next < records.len() {
                    next + 1
                } else {
                    next
                };
                if x == '?' && y == '?' {
                    porcelain_fold(
                        records,
                        next2,
                        staged,
                        unstaged.push((path, UnstagedKind::Untracked)),
                    )
                } else {
                    let staged2 = if x != ' ' && x != '?' {
                        staged.push(path)
                    } else {
                        staged
                    };
                    let unstaged2 = if y != ' ' {
                        unstaged.push((path, UnstagedKind::Versioned))
                    } else {
                        unstaged
                    };
                    porcelain_fold(records, next2, staged2, unstaged2)
                }
            }
        }
    }
}

/// Parses NUL-separated porcelain status output into the staged paths,
/// sorted and deduplicated, and the unstaged entries, sorted by path
/// and deduplicated by path and kind.
pub fn parse_porcelain_status(raw: &[u8]) -> (r: RepoStatus)
    ensures
        ({
            let collected = porcelain_fold(nul_records(raw@), 0, seq![], seq![]);
            &&& string_views(r.staged@) == dedup_adjacent(sort_strs(collected.0))
            &&& entry_views(r.unstaged@) == dedup_entries(sort_entries(collected.1))
        }),
{
    let records = parse_nul_terminated(raw);
    let n = records.len();
    let ghost rv = records@.map_values(|s: String| s@);

    let mut staged: Vec<String> = Vec::new();
    let mut unstaged: Vec<FileEntry> = Vec::new();

    proof {
        assert(string_views(staged@) =~= Seq::<Seq<char>>::empty());
        assert(entry_views(unstaged@) =~= Seq::<(Seq<char>, UnstagedKind)>::empty());
    }

    let mut idx: usize = 0;
    while idx < n
        invariant
            idx <= n,
            n == records@.len(),
            rv == records@.map_values(|s: String| s@),
            porcelain_fold(rv, 0, seq![], seq![]) == porcelain_fold(
                rv,
                idx as int,
                string_views(staged@),
                entry_views(unstaged@),
            ),
        decreases n - idx,
    {
        proof {
            assert(rv[idx as int] == records@[idx as int]@);
        }
        let entry = &records[idx];
        let elen = entry.as_str().unicode_len();
        let start = idx;
        idx = idx + 1;

        if elen < 3 {
            continue ;
        }

        let x = entry.as_str().get_char(0);
        let y = entry.as_str().get_char(1);

        if x == '!' && y == '!' {
            continue ;
        }
        if entry.as_str().get_char(2) != ' ' {
            continue ;
        }

        let rename = x == 'R' || x == 'C' || y == 'R' || y == 'C';
        let path: String = if rename && idx < n {
            proof {
                assert(rv[idx as int] == records@[idx as int]@);
            }
            let p = records[idx].clone();
            idx = idx + 1;
            p
        } else {
            entry.as_str().substring_char(3, elen).to_owned()
        };
        proof {
            assert(rv[start as int].skip(3) == records@[start as int]@.skip(3));
        }

        if x == '?' && y == '?' {
            let e = FileEntry { path, kind: UnstagedKind::Untracked };
            proof {
                assert(entry_views(unstaged@.push(e)) =~= entry_views(unstaged@).push(
                    (e.path@, e.kind),
                ));
            }
            unstaged.push(e);
            continue ;
        }

        if x != ' ' && x != '?' {
            let p = path.clone();
            proof {
                assert(string_views(staged@.push(p)) =~= string_views(staged@).push(p@));
            }
            staged.push(p);
        }

        if y != ' ' {
            let e = FileEntry { path, kind: UnstagedKind::Versioned };
            proof {
                assert(entry_views(unstaged@.push(e)) =~= entry_views(unstaged@).push(
                    (e.path@, e.kind),
                ));
            }
            unstaged.push(e);
        }
    }

    sort_strings(&mut staged);
    dedup_strings(&mut staged);
    sort_file_entries(&mut unstaged);
    dedup_file_entries(&mut unstaged);

    RepoStatus { unstaged, staged }
}

/// What one line of branch listing output contributes: the branch name
/// and whether it is the checked-out branch.  A tab separates an
/// explicit head marker from the name; without a tab, a `* ` prefix
/// marks the current branch and a two-space prefix another branch.
pub open spec fn head_marker_and_name(line: Seq<char>) -> (bool, Seq<char>) {
    match find_char(line, '\t') {
        Some(i) => (
            trim_spec(line.take(i)) == seq!['*'],
            trim_spec(line.skip(i + 1)),
        ),
        None => if line.len() >= 2 && line[0] == '*' && line[1] == ' ' {
            (true, trim_spec(line.skip(2)))
        } else if line.len() >= 2 && line[0] == ' ' && line[1] == ' ' {
            (false, trim_spec(line.skip(2)))
        } else {
            (false, trim_spec(line))
        },
    }
}

pub open spec fn branch_entry_of_line(raw_line: Seq<char>) -> Option<(Seq<char>, bool)> {
    let line = trim_back_spec(raw_line);
    if line.len() == 0 {
        None
    } else {
        let parsed = head_marker_and_name(line);
        if parsed.1.len() == 0 {
            None
        } else {
            Some((parsed.1, parsed.0))
        }
    }
}

/// The branches named by a listing's lines, in order.
pub open spec fn branch_fold(lines: Seq<Seq<char>>) -> Seq<(Seq<char>, bool)>
    decreases lines.len(),
{
    if lines.len() == 0 {
        seq![]
    } else {
        (match branch_entry_of_line(lines.first()) {
            Some(e) => seq![e],
            None => seq![],
        }) + branch_fold(lines.drop_first())
    }
}

/// The models of a vector of branch entries.
pub open spec fn branch_views(s: Seq<BranchEntry>) -> Seq<(Seq<char>, bool)> {
    s.map_values(|b: BranchEntry| (b.name@, b.current))
}

/// Parses branch listing output: one branch per line, a head marker
/// before a tab or a `* ` prefix naming the checked-out branch.
pub fn parse_branch_listing(raw: &[u8]) -> (r: Vec<BranchEntry>)
    ensures
        branch_views(r@) == branch_fold(split_newlines(lossy_decode(raw@))),
{
    let text = lossy_string(raw);
    let lines = split_lines(text.as_str());
    let n = lines.len();
    let ghost lv = crate::diff::line_views(lines@);

    let mut out: Vec<BranchEntry> = Vec::new();
    proof {
        assert(lv.skip(0) =~= lv);
        assert(branch_views(out@) + branch_fold(lv) =~= branch_fold(lv));
    }
    let mut li: usize = 0;
    while li < n
        invariant
            li <= n,
            n == lines@.len(),
            lv == crate::diff::line_views(lines@),
            branch_fold(lv) == branch_views(out@) + branch_fold(lv.skip(li as int)),
        decreases n - li,
    {
        proof {
            assert(lv[li as int] == lines@[li as int]@);
            assert(lv.skip(li as int).first() == lv[li as int]);
            assert(lv.skip(li as int).drop_first() =~= lv.skip(li + 1));
        }
        let raw_line = &lines[li];

        let mut hi = raw_line.len();
        proof {
            assert(raw_line@.take(hi as int) =~= raw_line@);
        }
        while hi > 0 && is_whitespace_char(raw_line[hi - 1])
            invariant
                hi <= raw_line@.len(),
                trim_back_spec(raw_line@) == trim_back_spec(raw_line@.take(hi as int)),
            decreases hi,
        {
            proof {
                let cur = raw_line@.take(hi as int);
                assert(cur[cur.len() - 1] == raw_line@[hi - 1]);
                assert(cur.drop_last() =~= raw_line@.take(hi - 1));
            }
            hi -= 1;
        }
        proof {
            let cur = raw_line@.take(hi as int);
            if hi > 0 {
                assert(cur[cur.len() - 1] == raw_line@[hi - 1]);
            }
            assert(trim_back_spec(cur) == cur);
        }
        let line = &raw_line.as_slice()[0..hi];
        let ghost lseq = trim_back_spec(raw_line@);
        proof {
            assert(line@ =~= lseq);
            assert(line@.skip(0) =~= lseq);
        }

        if hi == 0 {
            proof {
                assert(branch_entry_of_line(lv[li as int]) is None);
                assert(branch_fold(lv.skip(li as int)) =~= branch_fold(lv.skip(li + 1)));
            }
            li += 1;
            continue ;
        }

        let tab = crate::util::find_char_from(line, 0, '\t');
        let (current, name_chars): (bool, Vec<char>) = match tab {
            Some(t) => {
                proof {
                    assert(lseq.skip(0) =~= lseq);
                }
                let head = trim_chars(&line[0..t]);
                let tail = trim_chars(&line[t + 1..hi]);
                let is_star = head.len() == 1 && head[0] == '*';
                proof {
                    assert(lseq.take(t as int) =~= line@.subrange(0, t as int));
                    assert(lseq.skip(t + 1) =~= line@.subrange(t + 1, hi as int));
                    if is_star {
                        assert(head@ =~= seq!['*']);
                    } else {
                        assert(head@ != seq!['*']) by {
                            if head@.len() == 1 {
                                assert(head@[0] != '*');
                            }
                        }
                    }
                    assert((is_star, tail@) == head_marker_and_name(lseq));
                }
                (is_star, tail)
            },
            None => {
                if hi >= 2 && line[0] == '*' && line[1] == ' ' {
                    let rest = trim_chars(&line[2..hi]);
                    proof {
                        assert(lseq.skip(2) =~= line@.subrange(2, hi as int));
                        assert((true, rest@) == head_marker_and_name(lseq));
                    }
                    (true, rest)
                } else if hi >= 2 && line[0] == ' ' && line[1] == ' ' {
                    let rest = trim_chars(&line[2..hi]);
                    proof {
                        assert(lseq.skip(2) =~= line@.subrange(2, hi as int));
                        assert((false, rest@) == head_marker_and_name(lseq));
                    }
                    (false, rest)
                } else {
                    let rest = trim_chars(line);
                    proof {
                        assert((false, rest@) == head_marker_and_name(lseq));
                    }
                    (false, rest)
                }
            },
        };

        proof {
            assert((current, name_chars@) == head_marker_and_name(lseq));
        }

        if name_chars.len() == 0 {
            proof {
                assert(branch_entry_of_line(lv[li as int]) is None);
                assert(branch_fold(lv.skip(li as int)) =~= branch_fold(lv.skip(li + 1)));
            }
            li += 1;
            continue ;
        }

        let name = chars_to_string(name_chars.as_slice());
        let b = BranchEntry { name, current };
        proof {
            assert(branch_entry_of_line(lv[li as int]) == Some((b.name@, b.current)));
            assert(branch_fold(lv.skip(li as int)) =~= seq![(b.name@, b.current)] + branch_fold(
                lv.skip(li + 1),
            ));
            assert(branch_views(out@.push(b)) =~= branch_views(out@).push((b.name@, b.current)));
        }
        out.push(b);
        li += 1;
    }
    proof {
        assert(lv.skip(n as int) =~= Seq::<Seq<char>>::empty());
        assert(branch_views(out@) =~= branch_fold(lv));
        assert(text@ == lossy_decode(raw@));
    }
    out
}

} // verus!
