//! The initial state embedded in a video page's HTML.

use vstd::prelude::*;
use crate::text::{chars_of, find_seq, trim, trim_seq, string_from_range};

verus! {

#[verifier::external_type_specification]
#[verifier::external_body]
pub struct ExJsonValue(serde_json::Value);

/// Whether `serde_json::from_str::<serde_json::Value>` accepts `text`.
pub uninterp spec fn json_parses(text: Seq<char>) -> bool;

/// `serde_json::from_str::<serde_json::Value>`, keeping the value when the
/// text parses. The contract names when it parses (`json_parses`); the value
/// itself is opaque here.
#[verifier::external_body]
fn parse_json_value(text: &str) -> (r: Option<serde_json::Value>)
    ensures
        r is Some == json_parses(text@),
{
    match serde_json::from_str::<serde_json::Value>(text) {
        Ok(v) => Some(v),
        Err(_) => None,
    }
}

pub open spec fn state_marker() -> Seq<char> {
    "window.__INITIAL_STATE__="@
}

/// Where the initial state's JSON ends in the text after the marker: before
/// `;(function` if that occurs, else before `;</script>`, else before the
/// first line break.
pub open spec fn state_end(tail: Seq<char>) -> Option<int> {
    match find_seq(tail, ";(function"@) {
        Some(e) => Some(e),
        None => match find_seq(tail, ";</script>"@) {
            Some(e) => Some(e),
            None => find_seq(tail, "\n"@),
        },
    }
}

/// The JSON text of the initial state: what follows the first
/// `window.__INITIAL_STATE__=` up to its end, trimmed.
pub open spec fn initial_state_text_spec(html: Seq<char>) -> Option<Seq<char>> {
    match find_seq(html, state_marker()) {
        None => None,
        Some(i) => {
            let tail = html.skip(i + state_marker().len());
            match state_end(tail) {
                None => None,
                Some(e) => Some(trim_seq(tail.take(e))),
            }
        },
    }
}

fn find_in(v: &Vec<char>, pat: &str) -> (r: Option<usize>)
    ensures
        match r {
            Some(i) => find_seq(v@, pat@) == Some(i as int),
            None => find_seq(v@, pat@) is None,
        },
{
    crate::text::find(v, pat)
}

/// The JSON text of the page's initial state.
pub fn initial_state_text(html: &str) -> (r: Option<String>)
    ensures
        match initial_state_text_spec(html@) {
            Some(t) => r is Some && r->0@ == t,
            None => r is None,
        },
{
    let h = chars_of(html);
    let i = match find_in(&h, "window.__INITIAL_STATE__=") {
        Some(i) => i,
        None => return None,
    };
    proof {
        crate::text::lemma_find_from_some(h@, state_marker(), 0);
    }
    assert(state_marker().len() == 25) by {
        reveal_strlit("window.__INITIAL_STATE__=");
    }
    assert(crate::text::occurs_at(h@, state_marker(), i as int));
    let n = h.len();
    assert(i + 25 <= n);
    let start = i + 25;
    let tail_s = string_from_range(&h, start, h.len());
    let tail = chars_of(tail_s.as_str());
    assert(tail@ =~= html@.skip(i + state_marker().len()));
    let end = match find_in(&tail, ";(function") {
        Some(e) => e,
        None => match find_in(&tail, ";</script>") {
            Some(e) => e,
            None => match find_in(&tail, "\n") {
                Some(e) => e,
                None => return None,
            },
        },
    };
    proof {
        let e = state_end(tail@)->0;
        assert(e == end);
        if find_seq(tail@, ";(function"@) is Some {
            crate::text::lemma_find_from_some(tail@, ";(function"@, 0);
        } else if find_seq(tail@, ";</script>"@) is Some {
            crate::text::lemma_find_from_some(tail@, ";</script>"@, 0);
        } else {
            crate::text::lemma_find_from_some(tail@, "\n"@, 0);
        }
    }
    let body = string_from_range(&tail, 0, end);
    assert(body@ =~= tail@.take(end as int));
    Some(trim(body.as_str()))
}

/// The page's initial state, parsed as JSON: `None` where the page has no
/// initial state or its text does not parse.
pub fn extract_initial_state_json(html: &str) -> (r: Option<serde_json::Value>)
    ensures
        match initial_state_text_spec(html@) {
            Some(t) => r is Some == json_parses(t),
            None => r is None,
        },
{
    match initial_state_text(html) {
        Some(t) => parse_json_value(t.as_str()),
        None => None,
    }
}

} // verus!
