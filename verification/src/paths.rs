//! Paths are carried as UTF-8 strings; joining and splitting them is
//! std's `Path` work.

use vstd::prelude::*;
use crate::text::{contains_seq, starts_with_seq, split_char, opt_view};

verus! {

/// A path separator on some platform std supports (`/` everywhere, `\` on Windows).
pub open spec fn is_separator_char(c: char) -> bool {
    c == '/' || c == '\\'
}

/// A single relative path component with no separator or drive marker in it.
pub open spec fn is_plain_component(s: Seq<char>) -> bool {
    &&& s.len() > 0
    &&& forall|i: int| 0 <= i < s.len() ==> !is_separator_char(#[trigger] s[i]) && s[i] != ':'
}

/// A Windows verbatim path (`\\?\...`): std rebuilds such a path with `\`
/// when it joins onto it, and `/` is no separator inside it.
pub open spec fn is_verbatim(p: Seq<char>) -> bool {
    starts_with_seq(p, "\\\\?\\"@)
}

/// What holds, on every platform, of `base` joined with a plain component `part`:
/// an empty base yields `part`; a base ending in `/` is followed directly by
/// `part`; any other base without a drive marker gets one separator before
/// `part`. The last two are stated for bases that are not verbatim.
pub open spec fn join_facts(base: Seq<char>, part: Seq<char>, r: Seq<char>) -> bool {
    is_plain_component(part) ==> {
        &&& base.len() == 0 ==> r == part
        &&& base.len() > 0 && !is_verbatim(base) && base.last() == '/' ==> r == base + part
        &&& (base.len() > 0 && !is_verbatim(base) && !is_separator_char(base.last()) && forall|i: int|
            0 <= i < base.len() ==> base[i] != ':') ==> exists|sep: char|
            is_separator_char(sep) && r == base + seq![sep] + part
    }
}

/// A path component that names something: not empty, `.` or `..`.
pub open spec fn is_name(s: Seq<char>) -> bool {
    s.len() > 0 && s != "."@ && s != ".."@
}

/// A path that reads the same on every platform: written with `/` alone, no
/// `\` or drive marker `:`, no empty, `.` or `..` component, and either
/// relative or starting with exactly one `/`.
pub open spec fn is_plain_path(p: Seq<char>) -> bool {
    let pieces = split_char(p, '/');
    &&& forall|i: int| 0 <= i < p.len() ==> p[i] != '\\' && p[i] != ':'
    &&& forall|i: int| 1 <= i < pieces.len() ==> is_name(#[trigger] pieces[i])
    &&& (is_name(pieces[0]) || (pieces[0].len() == 0 && pieces.len() >= 2))
}

/// The last `/`-separated piece of `p`.
pub open spec fn last_piece(p: Seq<char>) -> Seq<char> {
    split_char(p, '/').last()
}

/// The parent of a plain path: empty for a single name, `/` for a name
/// right under the root, else everything before the last `/`.
pub open spec fn plain_parent(p: Seq<char>) -> Seq<char> {
    let pieces = split_char(p, '/');
    let k = p.len() - pieces.last().len() - 1;
    if pieces.len() == 1 {
        Seq::<char>::empty()
    } else if k == 0 {
        "/"@
    } else {
        p.take(k)
    }
}

/// `Path::join` (std) on UTF-8 paths, rendered back as a string. The
/// separator it inserts is the platform's, so the contract states only what
/// holds on every platform (`join_facts`).
#[verifier::external_body]
pub(crate) fn path_join(base: &str, part: &str) -> (r: String)
    ensures
        join_facts(base@, part@, r@),
{
    std::path::Path::new(base).join(part).to_string_lossy().into_owned()
}

/// `Path::file_name` (std) followed by `OsStr::to_str`: the final normal
/// component of `p`. Stated is what holds on every platform: for a plain
/// path it is the last `/`-separated piece; the root alone has none; any
/// other name returned is a non-empty piece of `p`, without `/` unless `p`
/// is a Windows verbatim path.
#[verifier::external_body]
pub(crate) fn path_file_name(p: &str) -> (r: Option<String>)
    ensures
        is_plain_path(p@) ==> opt_view(r) == Some(last_piece(p@)),
        p@ == "/"@ ==> r is None,
        r matches Some(n) ==> n@.len() > 0 && contains_seq(p@, n@) && (!is_verbatim(p@) ==> !n@.contains('/')),
{
    std::path::Path::new(p).file_name().and_then(|n| n.to_str()).map(|n| n.to_string())
}

/// `Path::parent` (std): `p` without its final component. Stated is what
/// holds on every platform: for a plain path it is `plain_parent`; the root
/// alone has none; any parent returned is a shorter prefix of `p`.
#[verifier::external_body]
pub(crate) fn path_parent(p: &str) -> (r: Option<String>)
    ensures
        is_plain_path(p@) ==> opt_view(r) == Some(plain_parent(p@)),
        p@ == "/"@ ==> r is None,
        r matches Some(q) ==> q@.len() < p@.len() && starts_with_seq(p@, q@),
{
    std::path::Path::new(p).parent().map(|q| q.to_string_lossy().into_owned())
}

} // verus!
