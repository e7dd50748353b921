//! Regular-expression matching, done by the `regex` crate.

use vstd::prelude::*;
use crate::text::{occurs_at, opt_view, is_ascii_seq};

verus! {

/// ASCII letters, digits and `_`: the ASCII characters `\w` matches.
pub open spec fn is_ascii_word_char(c: char) -> bool {
    ('a' <= c && c <= 'z') || ('A' <= c && c <= 'Z') || ('0' <= c && c <= '9') || c == '_'
}

/// The characters of the class `[a-zA-Z0-9_-]`.
pub open spec fn is_id_char(c: char) -> bool {
    ('a' <= c && c <= 'z') || ('A' <= c && c <= 'Z') || ('0' <= c && c <= '9') || c == '_' || c == '-'
}

/// How many characters of `s` from `k` on belong to `cls`, up to the first
/// that does not.
pub open spec fn class_run(s: Seq<char>, k: int, cls: spec_fn(char) -> bool) -> nat
    decreases s.len() - k,
{
    if 0 <= k < s.len() && cls(s[k]) {
        1 + class_run(s, k + 1, cls)
    } else {
        0
    }
}

/// The first of `alts`, from the `j`-th on, that occurs in `s` at `k` and is
/// followed there by at least one character of `cls`.
pub open spec fn alt_at(s: Seq<char>, alts: Seq<Seq<char>>, cls: spec_fn(char) -> bool, k: int, j: int) -> Option<int>
    decreases alts.len() - j,
{
    if j < 0 || j >= alts.len() {
        None
    } else if occurs_at(s, alts[j], k) && class_run(s, k + alts[j].len(), cls) > 0 {
        Some(j)
    } else {
        alt_at(s, alts, cls, k, j + 1)
    }
}

/// The leftmost position at or after `k` where one of `alts` occurs followed
/// by at least one character of `cls`, with the first such alternative.
pub open spec fn leftmost_alt_run(s: Seq<char>, alts: Seq<Seq<char>>, cls: spec_fn(char) -> bool, k: int) -> Option<(int, int)>
    decreases s.len() + 1 - k,
{
    if k < 0 || k > s.len() {
        None
    } else {
        match alt_at(s, alts, cls, k, 0) {
            Some(j) => Some((k, j)),
            None => leftmost_alt_run(s, alts, cls, k + 1),
        }
    }
}

/// What a pattern `(?:a1|a2|…)` followed by a group of `cls+` captures in
/// `s`, where the last `keep` characters of the alternative belong to the
/// group too: the leftmost match, its alternative chosen in order, its run
/// as long as it goes.
pub open spec fn alt_run_capture(s: Seq<char>, alts: Seq<Seq<char>>, keep: nat, cls: spec_fn(char) -> bool) -> Option<Seq<char>> {
    match leftmost_alt_run(s, alts, cls, 0) {
        Some((k, j)) => {
            let e = k + alts[j].len();
            Some(s.subrange(e - keep, e + class_run(s, e, cls)))
        },
        None => None,
    }
}

/// A run of `cls` characters from `k` that stops at `e` (the end of `s`, or a
/// character outside `cls`) has length `e - k`.
pub proof fn lemma_class_run_exact(s: Seq<char>, k: int, e: int, cls: spec_fn(char) -> bool)
    requires
        0 <= k <= e <= s.len(),
        forall|m: int| k <= m < e ==> cls(#[trigger] s[m]),
        e == s.len() || !cls(s[e]),
    ensures
        class_run(s, k, cls) == e - k,
    decreases e - k,
{
    if k < e {
        lemma_class_run_exact(s, k + 1, e, cls);
    }
}

/// No match starts in `[k, i)` and one starts at `i` with alternative `j`:
/// the leftmost match from `k` is at `i`, with `j`.
pub proof fn lemma_leftmost_at(s: Seq<char>, alts: Seq<Seq<char>>, cls: spec_fn(char) -> bool, k: int, i: int, j: int)
    requires
        0 <= k <= i <= s.len(),
        forall|k2: int| k <= k2 < i ==> #[trigger] alt_at(s, alts, cls, k2, 0) is None,
        alt_at(s, alts, cls, i, 0) == Some(j),
    ensures
        leftmost_alt_run(s, alts, cls, k) == Some((i, j)),
    decreases i - k,
{
    if k < i {
        lemma_leftmost_at(s, alts, cls, k + 1, i, j);
    }
}

/// The BV id after `bilibili.com/video/` in an ASCII URL, as the pattern
/// `bilibili\.com/video/(BV[\w]+)` captures it.
pub open spec fn bv_in_text(s: Seq<char>) -> Option<Seq<char>> {
    alt_run_capture(s, seq!["bilibili.com/video/BV"@], 2, |c: char| is_ascii_word_char(c))
}

/// The video id after `youtube.com/watch?v=` or `youtu.be/`, as the pattern
/// `(?:youtube\.com/watch\?v=|youtu\.be/)([a-zA-Z0-9_-]+)` captures it.
pub open spec fn youtube_id_in_text(s: Seq<char>) -> Option<Seq<char>> {
    alt_run_capture(s, seq!["youtube.com/watch?v="@, "youtu.be/"@], 0, |c: char| is_id_char(c))
}

/// Group `group` of the leftmost match of the regular expression `pattern`
/// in `text`, as the `regex` crate computes it; `None` where the pattern does
/// not compile, nothing matches, or the group did not take part in the match.
pub uninterp spec fn regex_capture(pattern: Seq<char>, text: Seq<char>, group: nat) -> Option<Seq<char>>;

/// `regex::Regex::captures`, after compiling `pattern` with `regex::Regex::new`:
/// the text of group `group` of the leftmost match. The contract names the
/// result (`regex_capture`), and states that it is a piece of `text`. For the
/// two URL patterns of this library it also spells out the leftmost-first
/// match the crate documents, with greedy repetition: the group of
/// `bilibili\.com/video/(BV[\w]+)` in ASCII text (where `\w` is
/// `[0-9A-Za-z_]`), and the group of
/// `(?:youtube\.com/watch\?v=|youtu\.be/)([a-zA-Z0-9_-]+)` in any text.
/// What `\w` matches beyond ASCII is left unsaid.
#[verifier::external_body]
pub(crate) fn capture_group(pattern: &str, text: &str, group: usize) -> (r: Option<String>)
    ensures
        match r {
            Some(s) => regex_capture(pattern@, text@, group as nat) == Some(s@)
                && crate::text::contains_seq(text@, s@),
            None => regex_capture(pattern@, text@, group as nat) is None,
        },
        pattern@ == "bilibili\\.com/video/(BV[\\w]+)"@ && group == 1 && is_ascii_seq(text@) ==> opt_view(r)
            == bv_in_text(text@),
        pattern@ == "(?:youtube\\.com/watch\\?v=|youtu\\.be/)([a-zA-Z0-9_-]+)"@ && group == 1 ==> opt_view(r)
            == youtube_id_in_text(text@),
{
    let re = match regex::Regex::new(pattern) {
        Ok(re) => re,
        Err(_) => return None,
    };
    match re.captures(text) {
        Some(caps) => match caps.get(group) {
            Some(m) => Some(m.as_str().to_string()),
            None => None,
        },
        None => None,
    }
}

} // verus!
