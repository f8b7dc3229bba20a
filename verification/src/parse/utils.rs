use vstd::prelude::*;

verus! {

/// Whitespace as the formula grammar understands it: space, tab, carriage return, line feed.
pub open spec fn is_ws(b: u8) -> bool {
    b == 0x20u8 || b == 0x09u8 || b == 0x0du8 || b == 0x0au8
}

pub open spec fn is_alpha(b: u8) -> bool {
    (0x41u8 <= b <= 0x5au8) || (0x61u8 <= b <= 0x7au8)
}

pub open spec fn is_digit(b: u8) -> bool {
    0x30u8 <= b <= 0x39u8
}

pub open spec fn is_alnum(b: u8) -> bool {
    is_alpha(b) || is_digit(b)
}

/// Index of the first `*/` at or after `q`, if any.
pub open spec fn comment_close(s: Seq<u8>, q: int) -> Option<int>
    decreases s.len() - q,
{
    if q < 0 || q + 1 >= s.len() {
        None
    } else if s[q] == 0x2au8 && s[q + 1] == 0x2fu8 {
        Some(q)
    } else {
        comment_close(s, q + 1)
    }
}

/// Whether a complete `/* ... */` comment starts at `p`.
pub open spec fn comment_at(s: Seq<u8>, p: int) -> bool {
    0 <= p && p + 1 < s.len() && s[p] == 0x2fu8 && s[p + 1] == 0x2au8 && comment_close(
        s,
        p + 2,
    ) is Some
}

/// The end of the run of whitespace and complete comments that starts at `p`.
pub open spec fn trivia_end(s: Seq<u8>, p: int) -> int
    decreases s.len() - p,
{
    if p < 0 || p >= s.len() {
        p
    } else if is_ws(s[p]) {
        trivia_end(s, p + 1)
    } else if comment_at(s, p) {
        let k = comment_close(s, p + 2)->0;
        proof {
            lemma_comment_close(s, p + 2);
        }
        trivia_end(s, k + 2)
    } else {
        p
    }
}

pub proof fn lemma_comment_close(s: Seq<u8>, q: int)
    ensures
        comment_close(s, q) matches Some(k) ==> q <= k && k + 1 < s.len() && s[k] == 0x2au8
            && s[k + 1] == 0x2fu8,
    decreases s.len() - q,
{
    if q < 0 || q + 1 >= s.len() {
    } else if s[q] == 0x2au8 && s[q + 1] == 0x2fu8 {
    } else {
        lemma_comment_close(s, q + 1);
    }
}

/// Trivia never moves backwards, and stays within the input.
pub proof fn lemma_trivia_end(s: Seq<u8>, p: int)
    requires
        0 <= p <= s.len(),
    ensures
        p <= trivia_end(s, p) <= s.len(),
        trivia_end(s, p) == p || s[trivia_end(s, p) - 1] < 0x80u8,
        trivia_end(s, trivia_end(s, p)) == trivia_end(s, p),
    decreases s.len() - p,
{
    if p >= s.len() {
    } else if is_ws(s[p]) {
        lemma_trivia_end(s, p + 1);
    } else if comment_at(s, p) {
        lemma_comment_close(s, p + 2);
        let k = comment_close(s, p + 2)->0;
        lemma_trivia_end(s, k + 2);
    } else {
    }
}

pub fn is_ws_byte(b: u8) -> (r: bool)
    ensures
        r == is_ws(b),
{
    b == 0x20u8 || b == 0x09u8 || b == 0x0du8 || b == 0x0au8
}

pub fn is_alpha_byte(b: u8) -> (r: bool)
    ensures
        r == is_alpha(b),
{
    (0x41u8 <= b && b <= 0x5au8) || (0x61u8 <= b && b <= 0x7au8)
}

pub fn is_digit_byte(b: u8) -> (r: bool)
    ensures
        r == is_digit(b),
{
    0x30u8 <= b && b <= 0x39u8
}

/// Finds the first `*/` at or after `q`.
fn find_comment_close(s: &[u8], q: usize) -> (r: Option<usize>)
    ensures
        r matches Some(k) ==> comment_close(s@, q as int) == Some(k as int),
        r is None ==> comment_close(s@, q as int) is None,
{
    let mut i = q;
    while i < s.len() && i + 1 < s.len()
        invariant
            q <= i,
            comment_close(s@, q as int) == comment_close(s@, i as int),
        decreases s.len() - i,
    {
        if s[i] == 0x2au8 && s[i + 1] == 0x2fu8 {
            return Some(i);
        }
        i = i + 1;
    }
    None
}

/// Skips whitespace and complete `/* ... */` comments starting at `p`, returning where the
/// next token begins.
pub fn skip_trivia(s: &[u8], p: usize) -> (r: usize)
    requires
        p <= s.len(),
    ensures
        r == trivia_end(s@, p as int),
{
    let mut i = p;
    while i < s.len()
        invariant
            p <= i <= s.len(),
            trivia_end(s@, p as int) == trivia_end(s@, i as int),
        decreases s.len() - i,
    {
        if is_ws_byte(s[i]) {
            i = i + 1;
        } else if i + 1 < s.len() && s[i] == 0x2fu8 && s[i + 1] == 0x2au8 {
            match find_comment_close(s, i + 2) {
                Some(k) => {
                    proof {
                        lemma_comment_close(s@, i + 2);
                    }
                    i = k + 2;
                },
                None => {
                    return i;
                },
            }
        } else {
            return i;
        }
    }
    i
}

} // verus!

verus! {

/// Space, tab, carriage return and line feed separate tokens: the run of whitespace and
/// comments that starts at one of them is that byte followed by the run after it (so a CR LF
/// line break is skipped like an LF one), and the run never ends on one of them.
pub proof fn lemma_whitespace_skipped(s: Seq<u8>, p: int)
    requires
        0 <= p <= s.len(),
    ensures
        p < s.len() && (s[p] == 0x20u8 || s[p] == 0x09u8 || s[p] == 0x0du8 || s[p] == 0x0au8)
            ==> trivia_end(s, p) == trivia_end(s, p + 1),
        trivia_end(s, p) < s.len() ==> !(s[trivia_end(s, p)] == 0x20u8 || s[trivia_end(s, p)]
            == 0x09u8 || s[trivia_end(s, p)] == 0x0du8 || s[trivia_end(s, p)] == 0x0au8),
    decreases s.len() - p,
{
    if p < s.len() {
        if is_ws(s[p]) {
            lemma_whitespace_skipped(s, p + 1);
        } else if comment_at(s, p) {
            let k = comment_close(s, p + 2)->0;
            lemma_comment_close(s, p + 2);
            lemma_whitespace_skipped(s, k + 2);
        }
    }
}

} // verus!
