//! File-system paths handled as UTF-8 text through the `camino` crate.
//!
//! How a path is split and joined depends on the platform the program runs
//! on (its separator, its drive prefixes), so these wrappers promise only what
//! holds on every platform, and for joining only in the plain case below.

use vstd::prelude::*;

verus! {

/// Whether a character is a path separator on some supported platform.
pub open spec fn is_separator(c: char) -> bool {
    c == '/' || c == '\\'
}

/// A relative path with neither a root nor a drive prefix on any platform: it
/// does not start with a separator and holds no `:`.
pub open spec fn plain_relative(part: Seq<char>) -> bool {
    part.len() > 0 && !is_separator(part[0]) && !part.contains(':')
}

/// Whether a path starts with the Windows verbatim prefix `\\?\`, under which
/// joining also normalizes the path.
pub open spec fn verbatim(base: Seq<char>) -> bool {
    base.len() >= 4 && base.take(4) == seq!['\\', '\\', '?', '\\']
}

/// `part` put after `base` with one separator between them or none: none
/// where `base` is empty or already ends in `/`; one where `base` ends in any
/// other character than a separator or a drive's `:`; either where it ends in
/// `\` or `:` (a separator, and a bare drive, on Windows only).
pub open spec fn adjoined(base: Seq<char>, part: Seq<char>, joined: Seq<char>) -> bool {
    if base.len() == 0 || base.last() == '/' {
        joined == base + part
    } else if base.last() == '\\' || base.last() == ':' {
        joined == base + part || joined == base + seq!['/'] + part || joined == base + seq!['\\'] + part
    } else {
        joined == base + seq!['/'] + part || joined == base + seq!['\\'] + part
    }
}

/// Calls `camino::Utf8Path::join` (that is, `PathBuf::push`): `part` adjoined to
/// `base` as the platform joins paths. Claimed, for a relative `part` with no
/// root and no prefix: `base` is kept and `part` appended, with a separator
/// between them exactly where `base` does not already end in one (`/` is one
/// on every platform; `\` and a bare drive such as `C:` only on Windows).
/// Not claimed: which separator the platform inserts (`/` on Unix, `\` on
/// Windows), and anything when `base` is a verbatim path (which Windows
/// normalizes) or `part` is not plainly relative.
#[verifier::external_body]
pub(crate) fn join_path(base: &str, part: &str) -> (r: String)
    ensures
        plain_relative(part@) && !verbatim(base@) ==> adjoined(base@, part@, r@),
{
    camino::Utf8Path::new(base).join(part).into_string()
}

/// Whether `part` occurs in `whole` as a run of consecutive characters.
pub open spec fn occurs_in(part: Seq<char>, whole: Seq<char>) -> bool {
    exists|i: int| 0 <= i && i + part.len() <= whole.len() && #[trigger] whole.subrange(i, i + part.len()) == part
}

/// Whether `name` can be a component of `path`: a non-empty piece of it with
/// no `/` (a separator on every platform).
pub open spec fn component_of(name: Seq<char>, path: Seq<char>) -> bool {
    name.len() > 0 && !name.contains('/') && occurs_in(name, path)
}

/// Calls `camino::Utf8Path::file_name` (that is, `Path::file_name`): the last
/// component of `path`, if it has one. Claimed, as `Path` documents its
/// components: the name is a non-empty piece of `path` holding no separator.
/// Not claimed: which component, and when there is none (that depends on the
/// platform's separators and prefixes).
#[verifier::external_body]
pub(crate) fn file_name(path: &str) -> (r: Option<String>)
    ensures
        r matches Some(name) ==> component_of(name@, path@),
{
    match camino::Utf8Path::new(path).file_name() {
        Some(name) => Some(name.to_string()),
        None => None,
    }
}

} // verus!
