//! Pure shell selection: given which candidate programs exist on the
//! host, picks the shell to spawn and the arguments it gets.  The
//! filesystem probing itself happens outside the library.

use vstd::prelude::*;
use crate::util::str_chars;

verus! {

/// The flavour of the host platform, which decides the candidate
/// shells and their flags.
#[derive(Debug, Clone, Copy, PartialEq, Eq, Structural)]
pub enum Platform {
    Unix,
    Windows,
}

/// The conventional shell paths probed on each platform, in order of
/// preference.
pub open spec fn spec_shell_candidates(platform: Platform) -> Seq<Seq<char>> {
    match platform {
        Platform::Unix => seq!["/bin/zsh"@, "/bin/bash"@],
        Platform::Windows => seq![
            "C:/Windows/System32/WindowsPowerShell/v1.0/powershell.exe"@,
            "C:/Windows/System32/cmd.exe"@,
        ],
    }
}

/// The ordered list of conventional shell paths for a platform.
pub fn default_shell_candidates(platform: Platform) -> (r: Vec<String>)
    ensures
        r@.map_values(|s: String| s@) == spec_shell_candidates(platform),
{
    let mut out: Vec<String> = Vec::new();
    match platform {
        Platform::Unix => {
            out.push("/bin/zsh".to_owned());
            out.push("/bin/bash".to_owned());
        },
        Platform::Windows => {
            out.push("C:/Windows/System32/WindowsPowerShell/v1.0/powershell.exe".to_owned());
            out.push("C:/Windows/System32/cmd.exe".to_owned());
        },
    }
    proof {
        assert(out@.map_values(|s: String| s@) =~= spec_shell_candidates(platform));
    }
    out
}

/// The shell assumed always present on a platform.
pub open spec fn spec_fallback_shell(platform: Platform) -> Seq<char> {
    match platform {
        Platform::Unix => "/bin/sh"@,
        Platform::Windows => "cmd.exe"@,
    }
}

/// The last-resort shell of a platform.
pub fn fallback_shell_program(platform: Platform) -> (r: String)
    ensures
        r@ == spec_fallback_shell(platform),
{
    match platform {
        Platform::Unix => "/bin/sh".to_owned(),
        Platform::Windows => "cmd.exe".to_owned(),
    }
}

/// The first candidate marked as existing, walking both lists in
/// step.
pub open spec fn first_existing(cands: Seq<Seq<char>>, exists: Seq<bool>) -> Option<Seq<char>>
    decreases cands.len(),
{
    if cands.len() == 0 || exists.len() == 0 {
        None
    } else if exists[0] {
        Some(cands[0])
    } else {
        first_existing(cands.drop_first(), exists.drop_first())
    }
}

/// Which shell a session uses: an environment-declared shell when it
/// is non-empty and exists on disk, otherwise the first conventional
/// candidate that exists, otherwise the platform's fallback.
pub open spec fn spec_resolve_shell(
    platform: Platform,
    env_shell: Option<Seq<char>>,
    env_shell_exists: bool,
    exists: Seq<bool>,
) -> Seq<char> {
    match env_shell {
        Some(path) => if path.len() > 0 && env_shell_exists {
            path
        } else {
            match first_existing(spec_shell_candidates(platform), exists) {
                Some(c) => c,
                None => spec_fallback_shell(platform),
            }
        },
        None => match first_existing(spec_shell_candidates(platform), exists) {
            Some(c) => c,
            None => spec_fallback_shell(platform),
        },
    }
}

/// Picks the shell program: the environment's choice when it exists,
/// else the first existing conventional path, else the fallback.
/// `candidate_exists` answers, for each conventional path in order,
/// whether it exists on disk.
pub fn resolve_shell_program(
    platform: Platform,
    env_shell: Option<&str>,
    env_shell_exists: bool,
    candidate_exists: &Vec<bool>,
) -> (r: String)
    ensures
        r@ == spec_resolve_shell(
            platform,
            match env_shell {
                Some(s) => Some(s@),
                None => None,
            },
            env_shell_exists,
            candidate_exists@,
        ),
{
    match env_shell {
        Some(path) => {
            if !path.is_empty() && env_shell_exists {
                return path.to_owned();
            }
        },
        None => {},
    }

    let candidates = default_shell_candidates(platform);
    let ghost cv = candidates@.map_values(|s: String| s@);
    let n = candidates.len();
    let m = candidate_exists.len();
    proof {
        assert(cv.skip(0) =~= cv);
        assert(candidate_exists@.skip(0) =~= candidate_exists@);
    }
    let mut i: usize = 0;
    while i < n && i < m
        invariant
            i <= n,
            i <= m,
            n == candidates@.len(),
            m == candidate_exists@.len(),
            cv == candidates@.map_values(|s: String| s@),
            first_existing(cv, candidate_exists@) == first_existing(
                cv.skip(i as int),
                candidate_exists@.skip(i as int),
            ),
            spec_resolve_shell(
                platform,
                match env_shell {
                    Some(s) => Some(s@),
                    None => None,
                },
                env_shell_exists,
                candidate_exists@,
            ) == (match first_existing(cv, candidate_exists@) {
                Some(c) => c,
                None => spec_fallback_shell(platform),
            }),
        decreases n - i,
    {
        proof {
            assert(cv.skip(i as int)[0] == cv[i as int]);
            assert(candidate_exists@.skip(i as int)[0] == candidate_exists@[i as int]);
            assert(cv.skip(i as int).drop_first() =~= cv.skip(i + 1));
            assert(candidate_exists@.skip(i as int).drop_first() =~= candidate_exists@.skip(
                i + 1,
            ));
        }
        if candidate_exists[i] {
            proof {
                assert(cv[i as int] == candidates@[i as int]@);
            }
            return candidates[i].clone();
        }
        i += 1;
    }
    proof {
        assert(first_existing(cv.skip(i as int), candidate_exists@.skip(i as int)) is None);
    }
    fallback_shell_program(platform)
}

/// A character mapped to its ASCII lower case.
pub open spec fn lower_char(c: char) -> char {
    if 'A' <= c && c <= 'Z' {
        ((c as u8) + 32) as char
    } else {
        c
    }
}

/// A character sequence mapped to ASCII lower case.
pub open spec fn ascii_lower(s: Seq<char>) -> Seq<char> {
    s.map_values(|c: char| lower_char(c))
}

/// Lower-cases the ASCII letters of a character sequence.
fn lower_ascii_chars(s: &[char]) -> (r: Vec<char>)
    ensures
        r@ == ascii_lower(s@),
{
    let n = s.len();
    let mut out: Vec<char> = Vec::new();
    let mut i: usize = 0;
    while i < n
        invariant
            i <= n,
            n == s@.len(),
            out@ =~= ascii_lower(s@).take(i as int),
        decreases n - i,
    {
        let c = s[i];
        let lc = if 'A' <= c && c <= 'Z' {
            ((c as u8) + 32) as char
        } else {
            c
        };
        proof {
            assert(ascii_lower(s@)[i as int] == lower_char(s@[i as int]));
            assert(out@.push(lc) =~= ascii_lower(s@).take(i + 1));
        }
        out.push(lc);
        i += 1;
    }
    proof {
        assert(out@ =~= ascii_lower(s@));
    }
    out
}

/// Whether a character sequence ends with the given suffix.
pub open spec fn seq_ends_with(s: Seq<char>, suffix: Seq<char>) -> bool {
    s.len() >= suffix.len() && s.skip(s.len() - suffix.len()) == suffix
}

/// Tests whether the characters end with the given suffix.
fn chars_end_with(s: &[char], suffix: &[char]) -> (r: bool)
    ensures
        r == seq_ends_with(s@, suffix@),
{
    let n = s.len();
    let m = suffix.len();
    if m > n {
        return false;
    }
    let base = n - m;
    let mut k: usize = 0;
    while k < m
        invariant
            k <= m,
            m <= n,
            base == n - m,
            n == s@.len(),
            m == suffix@.len(),
            forall|j: int| 0 <= j < k ==> s@[base + j] == suffix@[j],
        decreases m - k,
    {
        if s[base + k] != suffix[k] {
            proof {
                assert(s@.skip(base as int)[k as int] != suffix@[k as int]);
            }
            return false;
        }
        k += 1;
    }
    proof {
        assert(s@.skip(base as int) =~= suffix@);
    }
    true
}

/// The flags a recognized interpreter family gets: the banner-free,
/// stay-alive flags for a PowerShell-family program, a keep-running
/// flag for a command-prompt family program, nothing otherwise.
pub open spec fn spec_shell_args_windows(program: Seq<char>) -> Seq<Seq<char>> {
    let lower = ascii_lower(program);
    if seq_ends_with(lower, "powershell.exe"@) || seq_ends_with(lower, "pwsh.exe"@) {
        seq!["-NoLogo"@, "-NoExit"@]
    } else if seq_ends_with(lower, "cmd.exe"@) {
        seq!["/K"@]
    } else {
        seq![]
    }
}

/// Chooses the extra arguments a shell program gets on a windows-like
/// host, by its (case-insensitive) file name.
pub fn shell_args_for_windows(program: &str) -> (r: Vec<String>)
    ensures
        r@.map_values(|s: String| s@) == spec_shell_args_windows(program@),
{
    let chars = str_chars(program);
    let lower = lower_ascii_chars(chars.as_slice());

    let ps = str_chars("powershell.exe");
    let pwsh = str_chars("pwsh.exe");
    let cmd = str_chars("cmd.exe");

    let mut out: Vec<String> = Vec::new();
    if chars_end_with(lower.as_slice(), ps.as_slice()) || chars_end_with(
        lower.as_slice(),
        pwsh.as_slice(),
    ) {
        out.push("-NoLogo".to_owned());
        out.push("-NoExit".to_owned());
    } else if chars_end_with(lower.as_slice(), cmd.as_slice()) {
        out.push("/K".to_owned());
    }
    proof {
        assert(out@.map_values(|s: String| s@) =~= spec_shell_args_windows(program@));
    }
    out
}

/// The arguments the resolved shell is started with: an interactive
/// flag on unix-like hosts, family-specific flags on windows-like
/// hosts.
pub open spec fn spec_shell_args(platform: Platform, program: Seq<char>) -> Seq<Seq<char>> {
    match platform {
        Platform::Unix => seq!["-i"@],
        Platform::Windows => spec_shell_args_windows(program),
    }
}

/// Chooses the argument list for the resolved shell program.
pub fn shell_args_for(platform: Platform, program: &str) -> (r: Vec<String>)
    ensures
        r@.map_values(|s: String| s@) == spec_shell_args(platform, program@),
{
    match platform {
        Platform::Unix => {
            let mut out: Vec<String> = Vec::new();
            out.push("-i".to_owned());
            proof {
                assert(out@.map_values(|s: String| s@) =~= seq!["-i"@]);
            }
            out
        },
        Platform::Windows => shell_args_for_windows(program),
    }
}

} // verus!
