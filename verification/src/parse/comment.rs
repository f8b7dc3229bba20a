use crate::parse::text::{char_start, lemma_after_ascii_char_start, text, text_of};
use crate::parse::utils::{comment_at, comment_close, is_ws, is_ws_byte, lemma_comment_close, skip_trivia, trivia_end};
use crate::token::{span, Comment, Span};
use vstd::prelude::*;
use vstd::string::StringSliceAdditionalSpecFns;

verus! {

broadcast use vstd::utf8::encode_utf8_valid_utf8;

/// The end of the run of whitespace that starts at `p`.
pub open spec fn ws_end(s: Seq<u8>, p: int) -> int
    decreases s.len() - p,
{
    if 0 <= p < s.len() && is_ws(s[p]) {
        ws_end(s, p + 1)
    } else {
        p
    }
}

proof fn lemma_ws_end(s: Seq<u8>, p: int)
    requires
        0 <= p <= s.len(),
    ensures
        p <= ws_end(s, p) <= s.len(),
        ws_end(s, p) == p || s[ws_end(s, p) - 1] < 0x80u8,
    decreases s.len() - p,
{
    if p < s.len() && is_ws(s[p]) {
        lemma_ws_end(s, p + 1);
    }
}

/// A `/* ... */` comment after optional whitespace: its text (up to the first `*/`), its span,
/// and where parsing continues past the whitespace and comments that follow it.
pub open spec fn comment_spec(s: Seq<u8>, p: int) -> Option<(Seq<char>, Span, int)> {
    let t = ws_end(s, p);
    if comment_at(s, t) {
        let k = comment_close(s, t + 2)->0;
        Some((text(s, t + 2, k), span(t, k + 2), trivia_end(s, k + 2)))
    } else {
        None
    }
}

/// Parses a comment at `pos`: the comment, its span, and where parsing continues.
pub fn parse_comment(input: &str, pos: usize) -> (r: Option<((Comment, Span), usize)>)
    requires
        char_start(input.spec_bytes(), pos as int),
    ensures
        r matches Some(((c, sp), q)) ==> comment_spec(input.spec_bytes(), pos as int) == Some(
            (c.0@, sp, q as int),
        ),
        r is None ==> comment_spec(input.spec_bytes(), pos as int) is None,
{
    let b = input.as_bytes();
    let ghost s = b@;
    let mut t = pos;
    while t < b.len() && is_ws_byte(b[t])
        invariant
            pos <= t <= b.len(),
            s == b@,
            ws_end(s, pos as int) == ws_end(s, t as int),
        decreases b.len() - t,
    {
        t = t + 1;
    }
    proof {
        lemma_ws_end(s, pos as int);
    }
    if !(t < b.len() && b.len() - t > 1 && b[t] == 0x2fu8 && b[t + 1] == 0x2au8) {
        return None;
    }
    let mut k = t + 2;
    while b.len() - k > 1 && !(b[k] == 0x2au8 && b[k + 1] == 0x2fu8)
        invariant
            t + 2 <= k <= b.len(),
            s == b@,
            comment_close(s, t + 2) == comment_close(s, k as int),
        decreases b.len() - k,
    {
        k = k + 1;
    }
    if b.len() - k <= 1 {
        return None;
    }
    proof {
        lemma_after_ascii_char_start(s, t + 2);
        lemma_after_ascii_char_start(s, k + 2);
        if t > pos {
        } else {
        }
    }
    let txt = text_of(input, b, t + 2, k);
    let q = skip_trivia(b, k + 2);
    Some(((Comment(txt), Span::new(t, k + 2)), q))
}

} // verus!
