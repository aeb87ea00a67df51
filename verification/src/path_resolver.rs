//! Rewriting of host paths for the consumer that will read them.
//!
//! A path saved on the host is later pasted into another program. When that
//! program runs inside the co-located POSIX subsystem, a drive-letter path such
//! as `E:\workspace\img.png` has to be handed over as `/mnt/e/workspace/img.png`.
//! The rewriting is textual: nothing checks that the rewritten path exists.

use vstd::prelude::*;
use crate::text::{chars_of, string_of};

verus! {

/// How a host path is rewritten before it is handed to its consumer.
///
/// The value is chosen once at start-up from the host platform and the user's
/// settings, so that the rewriting itself is the same code on every platform.
#[derive(Debug, Clone, Copy, PartialEq, Eq, Structural)]
pub enum PathTranslation {
    /// The consumer shares the host's namespace: paths pass through untouched.
    Identity,
    /// The consumer sees the host's drives mounted under `/mnt/<letter>`.
    SubsystemMount,
}

/// `c` is one of the 52 ASCII letters, the only characters that name a drive.
pub open spec fn is_drive_letter(c: char) -> bool {
    ('a' <= c && c <= 'z') || ('A' <= c && c <= 'Z')
}

/// The lower-case form of an ASCII letter; every other character is unchanged.
pub open spec fn ascii_lower(c: char) -> char {
    if 'A' <= c && c <= 'Z' {
        ((c as u32) + 32) as char
    } else {
        c
    }
}

/// `path` starts with the extended-length marker `\\?\`.
pub open spec fn has_extended_prefix(path: Seq<char>) -> bool {
    &&& path.len() >= 4
    &&& path[0] == '\\'
    &&& path[1] == '\\'
    &&& path[2] == '?'
    &&& path[3] == '\\'
}

/// `path` without its extended-length marker, if it has one.
pub open spec fn without_extended_prefix(path: Seq<char>) -> Seq<char> {
    if has_extended_prefix(path) {
        path.skip(4)
    } else {
        path
    }
}

/// A backslash becomes a forward slash; every other character is unchanged.
pub open spec fn forward_slash(c: char) -> char {
    if c == '\\' {
        '/'
    } else {
        c
    }
}

/// `path` with every backslash replaced by a forward slash.
pub open spec fn with_forward_slashes(path: Seq<char>) -> Seq<char> {
    Seq::new(path.len(), |i: int| forward_slash(path[i]))
}

/// `path` starts with one drive letter at position 0 and a colon at position 1.
pub open spec fn has_drive(path: Seq<char>) -> bool {
    &&& path.len() >= 2
    &&& is_drive_letter(path[0])
    &&& path[1] == ':'
}

/// The mount point under which the subsystem sees the drive named `letter`.
pub open spec fn mount_point(letter: char) -> Seq<char> {
    seq!['/', 'm', 'n', 't', '/', ascii_lower(letter)]
}

/// The subsystem's form of a host path.
///
/// The extended-length marker is dropped and separators become forward
/// slashes. If what is left starts with a drive, `X:` is replaced by `/mnt/x`;
/// otherwise it is returned as it is.
pub open spec fn subsystem_path(path: Seq<char>) -> Seq<char> {
    let normal = with_forward_slashes(without_extended_prefix(path));
    if has_drive(normal) {
        mount_point(normal[0]) + normal.skip(2)
    } else {
        normal
    }
}

/// What `resolve` returns for `path` under `mode`.
pub open spec fn resolved(path: Seq<char>, mode: PathTranslation) -> Seq<char> {
    match mode {
        PathTranslation::Identity => path,
        PathTranslation::SubsystemMount => subsystem_path(path),
    }
}

/// The subsystem's form of a path holds no backslash, and rewriting it once
/// more changes nothing: it has no marker and no drive left to rewrite.
pub proof fn lemma_subsystem_path_is_final(path: Seq<char>)
    ensures
        forall|i: int|
            0 <= i < subsystem_path(path).len() ==> #[trigger] subsystem_path(path)[i] != '\\',
        subsystem_path(subsystem_path(path)) == subsystem_path(path),
{
    let normal = with_forward_slashes(without_extended_prefix(path));
    let once = subsystem_path(path);
    assert forall|i: int| 0 <= i < once.len() implies #[trigger] once[i] != '\\' by {
        if has_drive(normal) {
            if i >= 6 {
                assert(once[i] == normal[i - 4]);
            }
        }
    }
    assert(!has_extended_prefix(once)) by {
        if once.len() >= 4 {
            assert(once[0] != '\\');
        }
    }
    assert(with_forward_slashes(once) =~= once);
    assert(!has_drive(once));
}

fn lower(c: char) -> (l: char)
    ensures
        l == ascii_lower(c),
{
    if 'A' <= c && c <= 'Z' {
        ((c as u8) + 32) as char
    } else {
        c
    }
}

fn is_letter(c: char) -> (letter: bool)
    ensures
        letter == is_drive_letter(c),
{
    ('a' <= c && c <= 'z') || ('A' <= c && c <= 'Z')
}

/// Rewrites a host path into the form the POSIX subsystem expects:
/// `E:\workspace\img.png` becomes `/mnt/e/workspace/img.png`.
///
/// A path without a drive comes back with its separators normalised and is
/// otherwise unchanged.
pub fn convert_to_wsl_path(windows_path: &str) -> (converted: String)
    ensures
        converted@ == subsystem_path(windows_path@),
{
    let chars = chars_of(windows_path);
    let n = chars.len();
    let start: usize = if n >= 4 && chars[0] == '\\' && chars[1] == '\\' && chars[2] == '?'
        && chars[3] == '\\' {
        4
    } else {
        0
    };
    let ghost bare = without_extended_prefix(chars@);
    let ghost normal = with_forward_slashes(bare);
    assert(bare == chars@.skip(start as int));
    let mut out: Vec<char> = Vec::new();
    let mut i: usize = start;
    if n - start >= 2 && is_letter(chars[start]) && chars[start + 1] == ':' {
        assert(has_drive(normal));
        out.push('/');
        out.push('m');
        out.push('n');
        out.push('t');
        out.push('/');
        out.push(lower(chars[start]));
        assert(out@ == mount_point(normal[0]));
        i = start + 2;
    } else {
        assert(!has_drive(normal));
    }
    let ghost head = out@;
    let ghost from = i;
    while i < n
        invariant
            start <= from <= i <= n,
            n == chars.len(),
            bare == chars@.skip(start as int),
            normal == with_forward_slashes(bare),
            out@ == head + normal.subrange(from - start, i - start),
        decreases n - i,
    {
        let c = chars[i];
        out.push(if c == '\\' { '/' } else { c });
        i = i + 1;
    }
    assert(normal.subrange(from - start, n - start) == normal.skip(from - start));
    string_of(&out)
}

/// The representation of `absolute_path` that its consumer expects.
///
/// Under `PathTranslation::Identity` the path is returned as it is. Under
/// `PathTranslation::SubsystemMount` it is rewritten as `convert_to_wsl_path`
/// does.
pub fn resolve(absolute_path: &str, mode: PathTranslation) -> (text: String)
    ensures
        text@ == resolved(absolute_path@, mode),
        mode is Identity ==> text@ == absolute_path@,
{
    match mode {
        PathTranslation::Identity => absolute_path.to_owned(),
        PathTranslation::SubsystemMount => convert_to_wsl_path(absolute_path),
    }
}

} // verus!
