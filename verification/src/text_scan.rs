use vstd::prelude::*;
use vstd::utf8::{
    codepoint_width_1, codepoint_width_2, codepoint_width_3, codepoint_width_4,
    is_continuation_byte,
};

verus! {

/// The number of bytes of the UTF-8 sequence whose first byte is `b`.
pub open spec fn utf8_width(b: u8) -> int {
    if b < 0x80u8 {
        1
    } else if 0xc0u8 <= b <= 0xdfu8 {
        2
    } else if 0xe0u8 <= b <= 0xefu8 {
        3
    } else {
        4
    }
}

/// The byte at `i`, or zero past the end of the input.
pub open spec fn byte_or_zero(s: Seq<u8>, i: int) -> u8 {
    if 0 <= i < s.len() {
        s[i]
    } else {
        0
    }
}

/// The Unicode scalar value encoded in UTF-8 at byte offset `i`.
pub open spec fn code_at(s: Seq<u8>, i: int) -> u32 {
    let b0 = byte_or_zero(s, i);
    let b1 = byte_or_zero(s, i + 1);
    let b2 = byte_or_zero(s, i + 2);
    let b3 = byte_or_zero(s, i + 3);
    if utf8_width(b0) == 1 {
        codepoint_width_1(b0)
    } else if utf8_width(b0) == 2 {
        codepoint_width_2(b0, b1)
    } else if utf8_width(b0) == 3 {
        codepoint_width_3(b0, b1, b2)
    } else {
        codepoint_width_4(b0, b1, b2, b3)
    }
}

/// Characters that Unicode counts as white space.
pub open spec fn is_unicode_ws(c: u32) -> bool {
    (0x09 <= c <= 0x0d) || c == 0x20 || c == 0x85 || c == 0xa0 || c == 0x1680 || (0x2000 <= c
        <= 0x200a) || c == 0x2028 || c == 0x2029 || c == 0x202f || c == 0x205f || c == 0x3000
}

/// The start of the character that contains byte `j`.
pub open spec fn back_start(s: Seq<u8>, j: int) -> int
    decreases j,
{
    if j <= 0 {
        0
    } else if 0 <= j < s.len() && is_continuation_byte(s[j]) {
        back_start(s, j - 1)
    } else {
        j
    }
}

/// The last character before byte offset `k` that is not white space: where it starts and
/// its scalar value.
pub open spec fn prev_non_ws(s: Seq<u8>, k: int) -> Option<(int, u32)>
    decreases k,
{
    if k <= 0 {
        None
    } else {
        let j = back_start(s, k - 1);
        proof {
            lemma_back_start(s, k - 1);
        }
        if is_unicode_ws(code_at(s, j)) {
            prev_non_ws(s, j)
        } else {
            Some((j, code_at(s, j)))
        }
    }
}

pub proof fn lemma_back_start(s: Seq<u8>, j: int)
    ensures
        j >= 0 ==> 0 <= back_start(s, j) <= j,
        j < 0 ==> back_start(s, j) == 0,
        back_start(s, j) == 0 || (back_start(s, j) < s.len() ==> !is_continuation_byte(s[back_start(s, j)])),
    decreases j,
{
    if j > 0 && j < s.len() && is_continuation_byte(s[j]) {
        lemma_back_start(s, j - 1);
    }
}

pub proof fn lemma_prev_non_ws(s: Seq<u8>, k: int)
    ensures
        prev_non_ws(s, k) matches Some((j, c)) ==> 0 <= j < k && c == code_at(s, j) && (j == 0
            || (j < s.len() ==> !is_continuation_byte(s[j]))),
    decreases k,
{
    if k > 0 {
        let j = back_start(s, k - 1);
        lemma_back_start(s, k - 1);
        if is_unicode_ws(code_at(s, j)) {
            lemma_prev_non_ws(s, j);
        }
    }
}

pub fn utf8_width_exec(b: u8) -> (r: usize)
    ensures
        r == utf8_width(b),
{
    if b < 0x80u8 {
        1
    } else if 0xc0u8 <= b && b <= 0xdfu8 {
        2
    } else if 0xe0u8 <= b && b <= 0xefu8 {
        3
    } else {
        4
    }
}

fn byte_or_zero_exec(s: &[u8], i: usize) -> (r: u8)
    ensures
        r == byte_or_zero(s@, i as int),
{
    if i < s.len() {
        s[i]
    } else {
        0
    }
}

/// The Unicode scalar value encoded at byte offset `i`.
pub fn code_at_exec(s: &[u8], i: usize) -> (r: u32)
    requires
        i < s.len(),
    ensures
        r == code_at(s@, i as int),
{
    let b0 = s[i];
    let b1 = byte_or_zero_exec(s, i + 1);
    let b2 = if s.len() - i > 2 { s[i + 2] } else { 0 };
    let b3 = if s.len() - i > 3 { s[i + 3] } else { 0 };
    let w = utf8_width_exec(b0);
    if w == 1 {
        (b0 & 0x7f) as u32
    } else if w == 2 {
        (((b0 & 0x1f) as u32) << 6u32) | ((b1 & 0x3f) as u32)
    } else if w == 3 {
        (((b0 & 0x0f) as u32) << 12u32) | (((b1 & 0x3f) as u32) << 6u32) | ((b2 & 0x3f) as u32)
    } else {
        (((b0 & 0x07) as u32) << 18u32) | (((b1 & 0x3f) as u32) << 12u32) | (((b2 & 0x3f) as u32)
            << 6u32) | ((b3 & 0x3f) as u32)
    }
}

pub fn is_unicode_ws_exec(c: u32) -> (r: bool)
    ensures
        r == is_unicode_ws(c),
{
    (0x09 <= c && c <= 0x0d) || c == 0x20 || c == 0x85 || c == 0xa0 || c == 0x1680 || (0x2000
        <= c && c <= 0x200a) || c == 0x2028 || c == 0x2029 || c == 0x202f || c == 0x205f || c
        == 0x3000
}

fn is_continuation_exec(b: u8) -> (r: bool)
    ensures
        r == is_continuation_byte(b),
{
    0x80u8 <= b && b <= 0xbfu8
}

/// The last character before byte offset `k` that is not white space.
pub fn prev_non_ws_exec(s: &[u8], k: usize) -> (r: Option<(usize, u32)>)
    requires
        k <= s.len(),
    ensures
        r matches Some((j, c)) ==> prev_non_ws(s@, k as int) == Some((j as int, c)),
        r is None ==> prev_non_ws(s@, k as int) is None,
{
    let mut k2 = k;
    while k2 > 0
        invariant
            k2 <= k <= s.len(),
            prev_non_ws(s@, k as int) == prev_non_ws(s@, k2 as int),
        decreases k2,
    {
        let mut j = k2 - 1;
        while j > 0 && is_continuation_exec(s[j])
            invariant
                j < k2 <= s.len(),
                back_start(s@, k2 - 1) == back_start(s@, j as int),
            decreases j,
        {
            j = j - 1;
        }
        let c = code_at_exec(s, j);
        if !is_unicode_ws_exec(c) {
            return Some((j, c));
        }
        k2 = j;
    }
    None
}

/// In well-formed UTF-8, a character whose value is below 128 is the single byte that holds
/// that value.
pub proof fn lemma_code_at_ascii(s: Seq<u8>, j: int)
    requires
        vstd::utf8::valid_utf8(s),
        0 <= j < s.len(),
        !is_continuation_byte(s[j]),
        code_at(s, j) < 0x80,
    ensures
        s[j] < 0x80u8,
        code_at(s, j) == s[j] as u32,
{
    vstd::utf8::is_char_boundary_iff_not_is_continuation_byte(s, j);
    vstd::utf8::valid_utf8_split(s, j);
    let b = s.subrange(j, s.len() as int);
    assert(vstd::utf8::valid_utf8(b));
    assert(vstd::utf8::valid_first_scalar(b));
    assert(b[0] == s[j]);
    if b.len() > 1 {
        assert(b[1] == byte_or_zero(s, j + 1));
    }
    if b.len() > 2 {
        assert(b[2] == byte_or_zero(s, j + 2));
    }
    if b.len() > 3 {
        assert(b[3] == byte_or_zero(s, j + 3));
    }
    assert(code_at(s, j) == vstd::utf8::decode_first_codepoint(b));
    let b0 = s[j];
    assert(b0 < 0x80u8 ==> (b0 & 0x7f) as u32 == b0 as u32) by (bit_vector);
}

} // verus!
