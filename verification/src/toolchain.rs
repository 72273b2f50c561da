//! The decisions around linking an LLVM module into an executable with clang:
//! which compiler to run, whether linking is enabled, and how each way the
//! link can end is reported. Running the compiler itself is the caller's job.
use vstd::prelude::*;
use crate::text::{chars_of, push_char, push_decimal_i64, owned, str_eq, signed_decimal};

verus! {

/// How an attempt to link an executable ended.
#[derive(Debug, Clone, PartialEq, Eq)]
pub enum LinkOutcome {
    Skipped,
    ToolchainMissing { compiler: String },
    Failed { compiler: String, exit_code: String, stderr: String },
    Built { compiler: String },
}

/// Unicode `White_Space` characters, the set `char::is_whitespace` tests.
pub open spec fn is_white_space(c: char) -> bool {
    ||| ('\u{9}' <= c && c <= '\u{d}')
    ||| c == ' '
    ||| c == '\u{85}'
    ||| c == '\u{a0}'
    ||| c == '\u{1680}'
    ||| ('\u{2000}' <= c && c <= '\u{200a}')
    ||| c == '\u{2028}'
    ||| c == '\u{2029}'
    ||| c == '\u{202f}'
    ||| c == '\u{205f}'
    ||| c == '\u{3000}'
}

fn white_space(c: char) -> (r: bool)
    ensures
        r == is_white_space(c),
{
    ('\u{9}' <= c && c <= '\u{d}') || c == ' ' || c == '\u{85}' || c == '\u{a0}' || c == '\u{1680}'
        || ('\u{2000}' <= c && c <= '\u{200a}') || c == '\u{2028}' || c == '\u{2029}' || c
        == '\u{202f}' || c == '\u{205f}' || c == '\u{3000}'
}

/// `s` without its leading white space.
pub open spec fn trim_start(s: Seq<char>) -> Seq<char>
    decreases s.len(),
{
    if s.len() > 0 && is_white_space(s[0]) {
        trim_start(s.drop_first())
    } else {
        s
    }
}

/// `s` without its trailing white space.
pub open spec fn trim_end(s: Seq<char>) -> Seq<char>
    decreases s.len(),
{
    if s.len() > 0 && is_white_space(s.last()) {
        trim_end(s.drop_last())
    } else {
        s
    }
}

/// `s` without leading and trailing white space, as `str::trim` gives it.
pub open spec fn trim(s: Seq<char>) -> Seq<char> {
    trim_end(trim_start(s))
}

proof fn lemma_trim_start_skip(s: Seq<char>, i: int)
    requires
        0 <= i <= s.len(),
        forall|j: int| 0 <= j < i ==> is_white_space(s[j]),
    ensures
        trim_start(s) == trim_start(s.skip(i)),
    decreases i,
{
    if i > 0 {
        assert(s.skip(1) =~= s.drop_first());
        lemma_trim_start_skip(s.drop_first(), i - 1);
        assert(s.drop_first().skip(i - 1) =~= s.skip(i));
    } else {
        assert(s.skip(0) =~= s);
    }
}

proof fn lemma_trim_end_take(s: Seq<char>, k: int)
    requires
        0 <= k <= s.len(),
        forall|j: int| k <= j < s.len() ==> is_white_space(s[j]),
    ensures
        trim_end(s) == trim_end(s.take(k)),
    decreases s.len() - k,
{
    if k < s.len() {
        assert(s.drop_last().take(k) =~= s.take(k));
        lemma_trim_end_take(s.drop_last(), k);
    } else {
        assert(s.take(k) =~= s);
    }
}

/// `s` with leading and trailing white space removed.
pub fn trimmed(s: &str) -> (r: String)
    ensures
        r@ == trim(s@),
{
    let chars = chars_of(s);
    let mut start: usize = 0;
    while start < chars.len() && white_space(chars[start])
        invariant
            start <= chars@.len(),
            chars@ == s@,
            forall|j: int| 0 <= j < start ==> is_white_space(chars@[j]),
        decreases chars@.len() - start,
    {
        start += 1;
    }
    proof {
        lemma_trim_start_skip(s@, start as int);
    }
    let ghost rest = s@.skip(start as int);
    assert(start == chars@.len() || !is_white_space(rest[0]));
    assert(trim_start(s@) == rest);
    let mut end: usize = chars.len();
    while end > start && white_space(chars[end - 1])
        invariant
            start <= end <= chars@.len(),
            chars@ == s@,
            forall|j: int| end <= j < chars@.len() ==> is_white_space(chars@[j]),
        decreases end,
    {
        end -= 1;
    }
    let ghost kept = rest.take(end - start);
    proof {
        lemma_trim_end_take(rest, end - start);
        assert(kept.len() == 0 || !is_white_space(kept.last()));
    }
    let mut out = String::new();
    let mut i: usize = start;
    while i < end
        invariant
            start <= i <= end,
            end <= chars@.len(),
            chars@ == s@,
            out@ == s@.subrange(start as int, i as int),
        decreases end - i,
    {
        push_char(&mut out, chars[i]);
        assert(s@.subrange(start as int, i + 1) =~= s@.subrange(start as int, i as int).push(
            chars@[i as int],
        ));
        i += 1;
    }
    assert(out@ =~= kept);
    out
}

/// ASCII upper-case letters mapped to lower case, everything else unchanged.
pub open spec fn ascii_lower(c: char) -> char {
    if 'A' <= c && c <= 'Z' {
        ((c as u32) + 32) as char
    } else {
        c
    }
}

/// The ASCII-lower-cased view of a string.
pub open spec fn ascii_lowercase(s: Seq<char>) -> Seq<char> {
    Seq::new(s.len(), |i: int| ascii_lower(s[i]))
}

fn lower_char(c: char) -> (r: char)
    ensures
        r == ascii_lower(c),
{
    if c == 'A' { 'a' } else if c == 'B' { 'b' } else if c == 'C' { 'c' } else if c == 'D' { 'd' }
    else if c == 'E' { 'e' } else if c == 'F' { 'f' } else if c == 'G' { 'g' } else if c == 'H' { 'h' }
    else if c == 'I' { 'i' } else if c == 'J' { 'j' } else if c == 'K' { 'k' } else if c == 'L' { 'l' }
    else if c == 'M' { 'm' } else if c == 'N' { 'n' } else if c == 'O' { 'o' } else if c == 'P' { 'p' }
    else if c == 'Q' { 'q' } else if c == 'R' { 'r' } else if c == 'S' { 's' } else if c == 'T' { 't' }
    else if c == 'U' { 'u' } else if c == 'V' { 'v' } else if c == 'W' { 'w' } else if c == 'X' { 'x' }
    else if c == 'Y' { 'y' } else if c == 'Z' { 'z' } else { c }
}

/// `s` with ASCII letters lower-cased, as `str::to_ascii_lowercase` gives it.
pub fn to_ascii_lowercase(s: &str) -> (r: String)
    ensures
        r@ == ascii_lowercase(s@),
{
    let mut out = String::new();
    for c in it: s.chars()
        invariant
            it.seq() == s@,
            out@ == ascii_lowercase(s@.take(it.index() as int)),
    {
        push_char(&mut out, lower_char(c));
        assert(ascii_lowercase(s@.take(it.index() + 1)) =~= ascii_lowercase(
            s@.take(it.index() as int),
        ).push(ascii_lower(c)));
    }
    assert(s@.take(s@.len() as int) =~= s@);
    out
}

/// Whether the value of `AX_LLVM_AOT_LINK` turns linking on: after trimming
/// and lower-casing it must read `1`, `true`, `yes` or `on`.
pub open spec fn enables_linking(value: Option<Seq<char>>) -> bool {
    match value {
        Some(v) => {
            let n = ascii_lowercase(trim(v));
            n == "1"@ || n == "true"@ || n == "yes"@ || n == "on"@
        },
        None => false,
    }
}

/// Decides from the value of `AX_LLVM_AOT_LINK` (if set) whether to link.
pub fn linking_enabled(value: Option<&str>) -> (r: bool)
    ensures
        r == enables_linking(match value {
            Some(v) => Some(v@),
            None => None,
        }),
{
    match value {
        Some(v) => {
            let normalized = to_ascii_lowercase(trimmed(v).as_str());
            let n = normalized.as_str();
            str_eq(n, "1") || str_eq(n, "true") || str_eq(n, "yes") || str_eq(n, "on")
        },
        None => false,
    }
}

/// The compiler named by `AX_LLVM_CLANG`, unless it is unset or blank; `clang` then.
pub open spec fn chosen_compiler(value: Option<Seq<char>>) -> Seq<char> {
    match value {
        Some(v) => if trim(v).len() > 0 { v } else { "clang"@ },
        None => "clang"@,
    }
}

/// Chooses the compiler from the value of `AX_LLVM_CLANG` (if set).
pub fn compiler_choice(value: Option<&str>) -> (r: String)
    ensures
        r@ == chosen_compiler(match value {
            Some(v) => Some(v@),
            None => None,
        }),
{
    match value {
        Some(v) => {
            let t = trimmed(v);
            if t.as_str().is_empty() {
                owned("clang")
            } else {
                owned(v)
            }
        },
        None => owned("clang"),
    }
}

/// How a finished compiler process is described: its exit code, or
/// `terminated-by-signal` when it has none.
pub open spec fn exit_code_text(code: Option<i32>) -> Seq<char> {
    match code {
        Some(c) => signed_decimal(c as int),
        None => "terminated-by-signal"@,
    }
}

/// Renders a process exit code for a link failure report.
pub fn command_exit_code(code: Option<i32>) -> (r: String)
    ensures
        r@ == exit_code_text(code),
{
    match code {
        Some(c) => {
            let mut out = String::new();
            push_decimal_i64(&mut out, c as i64);
            assert(out@ =~= signed_decimal(c as int));
            out
        },
        None => owned("terminated-by-signal"),
    }
}

/// The report when the Windows GNU fallback link succeeded.
pub fn fallback_built(compiler: &str) -> (r: LinkOutcome)
    ensures
        r matches LinkOutcome::Built { compiler: c } && c@ == compiler@
            + " (windows-gnu self-contained fallback)"@,
{
    let mut name = owned(compiler);
    name.append(" (windows-gnu self-contained fallback)");
    LinkOutcome::Built { compiler: name }
}

/// The report when both the primary link and the Windows GNU fallback failed.
pub fn fallback_failed(
    compiler: &str,
    primary_exit_code: &str,
    primary_stderr: &str,
    fallback_exit_code: &str,
    fallback_stderr: &str,
) -> (r: LinkOutcome)
    ensures
        r matches LinkOutcome::Failed { compiler: c, exit_code: e, stderr: s } && c@ == compiler@
            && e@ == fallback_exit_code@ && s@ == "primary clang link failed with exit code "@
            + primary_exit_code@ + ": "@ + primary_stderr@
            + "\nwindows-gnu self-contained fallback failed with exit code "@
            + fallback_exit_code@ + ": "@ + fallback_stderr@,
{
    let mut stderr = owned("primary clang link failed with exit code ");
    stderr.append(primary_exit_code);
    stderr.append(": ");
    stderr.append(primary_stderr);
    stderr.append("\nwindows-gnu self-contained fallback failed with exit code ");
    stderr.append(fallback_exit_code);
    stderr.append(": ");
    stderr.append(fallback_stderr);
    LinkOutcome::Failed {
        compiler: owned(compiler),
        exit_code: owned(fallback_exit_code),
        stderr,
    }
}

/// The report when the output directory of the executable could not be created.
pub fn output_dir_failure(compiler: String, parent: &str, error: &str) -> (r: LinkOutcome)
    ensures
        r matches LinkOutcome::Failed { compiler: c, exit_code: e, stderr: s } && c == compiler
            && e@ == "io-error"@ && s@ == "failed to create executable output directory "@
            + parent@ + ": "@ + error@,
{
    let mut stderr = owned("failed to create executable output directory ");
    stderr.append(parent);
    stderr.append(": ");
    stderr.append(error);
    LinkOutcome::Failed { compiler, exit_code: owned("io-error"), stderr }
}

/// The report when the compiler process could not be started.
pub fn spawn_failure(compiler: String, error: &str) -> (r: LinkOutcome)
    ensures
        r matches LinkOutcome::Failed { compiler: c, exit_code: e, stderr: s } && c == compiler
            && e@ == "spawn-error"@ && s@ == error@,
{
    LinkOutcome::Failed { compiler, exit_code: owned("spawn-error"), stderr: owned(error) }
}

} // verus!
