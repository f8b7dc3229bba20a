use vstd::prelude::*;
use vstd::string::StringSliceAdditionalSpecFns;
use vstd::utf8::*;

verus! {

broadcast use {
    vstd::utf8::encode_utf8_valid_utf8,
    vstd::utf8::encode_utf8_decode_utf8,
    vstd::string::group_string_axioms,
};

/// Whether a character starts at byte offset `i` (or `i` is the end of the input).
pub open spec fn char_start(s: Seq<u8>, i: int) -> bool {
    0 <= i <= s.len() && (i == s.len() || !is_continuation_byte(s[i]))
}

/// Whether `p` is the start of the input or follows an ASCII byte.
pub open spec fn after_ascii(s: Seq<u8>, p: int) -> bool {
    0 <= p <= s.len() && (p == 0 || s[p - 1] < 0x80u8)
}

/// The source text between byte offsets `a` and `b`.
pub open spec fn text(s: Seq<u8>, a: int, b: int) -> Seq<char> {
    decode_utf8(s.subrange(a, b))
}

/// In well-formed UTF-8, the byte after an ASCII byte starts a character.
pub proof fn lemma_after_ascii_char_start(s: Seq<u8>, p: int)
    requires
        valid_utf8(s),
        after_ascii(s, p),
    ensures
        char_start(s, p),
{
    if p > 0 && p < s.len() {
        let i = p - 1;
        is_char_boundary_iff_not_is_continuation_byte(s, i);
        valid_utf8_split(s, i);
        let b = s.subrange(i, s.len() as int);
        assert(valid_utf8(b));
        assert(valid_first_scalar(b));
        assert(length_of_first_scalar(b) == 1);
        let rest = pop_first_scalar(b);
        assert(rest =~= s.subrange(p, s.len() as int));
        assert(valid_utf8(rest));
        assert(rest.len() > 0);
        assert(valid_first_scalar(rest));
        assert(rest[0] == s[p]);
    }
}

/// The text of `src` between two character starts.
pub fn text_of(src: &str, b: &[u8], a: usize, e: usize) -> (r: String)
    requires
        b@ == src.spec_bytes(),
        a <= e <= b@.len(),
        char_start(b@, a as int),
        char_start(b@, e as int),
    ensures
        r@ == text(b@, a as int, e as int),
{
    let ghost s = b@;
    proof {
        assert(valid_utf8(s));
        if a < s.len() {
            is_char_boundary_iff_not_is_continuation_byte(s, a as int);
        } else {
            is_char_boundary_start_end_of_seq(s);
        }
    }
    let (_, right) = src.split_at(a);
    proof {
        let rb = right.spec_bytes();
        assert(rb =~= s.subrange(a as int, s.len() as int));
        assert(valid_utf8(rb));
        if e < s.len() {
            assert(rb[e - a] == s[e as int]);
            is_char_boundary_iff_not_is_continuation_byte(rb, e - a);
        } else {
            is_char_boundary_start_end_of_seq(rb);
        }
    }
    let (mid, _) = right.split_at(e - a);
    proof {
        assert(mid.spec_bytes() =~= s.subrange(a as int, e as int));
        assert(decode_utf8(encode_utf8(mid@)) == mid@);
    }
    mid.to_owned()
}

} // verus!

verus! {

/// Whitespace and comments end at a character start.
pub proof fn lemma_trivia_char_start(s: Seq<u8>, p: int)
    requires
        valid_utf8(s),
        char_start(s, p),
    ensures
        char_start(s, crate::parse::utils::trivia_end(s, p)),
        p <= crate::parse::utils::trivia_end(s, p) <= s.len(),
{
    crate::parse::utils::lemma_trivia_end(s, p);
    let t = crate::parse::utils::trivia_end(s, p);
    if t != p {
        lemma_after_ascii_char_start(s, t);
    }
}

} // verus!
